//! The `.git-workset.toml` model: profiles, their composition with `a+b`,
//! and the repo-wide submodule sharing mode.
use vstd::prelude::*;

use crate::text::{
    concat2, concat3, join, lemma_split_without_separator, owned, same_text, seq_join, split_at_char,
    split_on, to_chars,
};

verus! {

/// How a workset's submodule checkouts get their objects.
#[derive(Clone, Copy, Debug, PartialEq, Eq, Structural)]
pub enum SubmoduleSharing {
    /// Every workset checks out a worktree of the main clone's submodule gitdir.
    Shared,
    /// Every workset clones its own copy of each submodule.
    Isolated,
}

/// The spelling of a sharing mode in configuration files.
pub open spec fn sharing_text(mode: SubmoduleSharing) -> Seq<char> {
    match mode {
        SubmoduleSharing::Shared => "shared"@,
        SubmoduleSharing::Isolated => "isolated"@,
    }
}

/// A sharing mode read from text: the text, if it is a known spelling.
pub open spec fn sharing_from_text(value: Seq<char>) -> Option<SubmoduleSharing> {
    if value == "shared"@ {
        Some(SubmoduleSharing::Shared)
    } else if value == "isolated"@ {
        Some(SubmoduleSharing::Isolated)
    } else {
        None
    }
}

impl SubmoduleSharing {
    /// Read a sharing mode; any value but `shared` or `isolated` is refused.
    pub fn parse(value: &str) -> (r: Result<SubmoduleSharing, ConfigError>)
        ensures
            sharing_from_text(value@) matches Some(m) ==> r == Ok::<SubmoduleSharing, ConfigError>(m),
            sharing_from_text(value@) is None ==> (r matches Err(ConfigError::InvalidSharing { value: v }) && v@ == value@),
    {
        if same_text(value, "shared") {
            Ok(SubmoduleSharing::Shared)
        } else if same_text(value, "isolated") {
            Ok(SubmoduleSharing::Isolated)
        } else {
            Err(ConfigError::InvalidSharing { value: owned(value) })
        }
    }

    /// The spelling of this mode in configuration files.
    pub fn as_str(&self) -> (s: &'static str)
        ensures
            s@ == sharing_text(*self),
    {
        match self {
            SubmoduleSharing::Shared => "shared",
            SubmoduleSharing::Isolated => "isolated",
        }
    }
}

/// Errors in reading configuration values.
#[derive(Debug)]
pub enum ConfigError {
    /// `submodules.sharing` (or `workset.submoduleSharing`) has a value that is
    /// neither `shared` nor `isolated`.
    InvalidSharing { value: String },
}

impl ConfigError {
    /// The text shown to the user for this error.
    pub fn message(&self) -> (m: String)
        ensures
            match self {
                ConfigError::InvalidSharing { value } => m@ == "invalid submodule sharing mode '"@
                    + value@ + "': expected \"shared\" or \"isolated\""@,
            },
    {
        match self {
            ConfigError::InvalidSharing { value } => concat3(
                "invalid submodule sharing mode '",
                value.as_str(),
                "': expected \"shared\" or \"isolated\"",
            ),
        }
    }
}

/// Per-profile submodule settings.
#[derive(Debug)]
pub struct SubmoduleConfig {
    /// Fetch submodules with `--depth 1` the first time they are fetched.
    pub shallow: bool,
    /// Submodule paths to skip entirely.
    pub skip: Vec<String>,
}

#[verifier::ext_equal]
pub struct SubmoduleConfigView {
    pub shallow: bool,
    pub skip: Seq<Seq<char>>,
}

impl View for SubmoduleConfig {
    type V = SubmoduleConfigView;

    open spec fn view(&self) -> SubmoduleConfigView {
        SubmoduleConfigView { shallow: self.shallow, skip: self.skip.deep_view() }
    }
}

impl Default for SubmoduleConfig {
    fn default() -> (r: Self)
        ensures
            r@ == (SubmoduleConfigView { shallow: true, skip: Seq::empty() }),
    {
        let r = SubmoduleConfig { shallow: default_flag(), skip: Vec::new() };
        assert(r@.skip =~= Seq::<Seq<char>>::empty());
        r
    }
}

fn default_flag() -> (b: bool)
    ensures
        b,
{
    crate::default_true()
}

/// A named sparse-checkout profile.
#[derive(Debug)]
pub struct Workset {
    pub description: Option<String>,
    /// Directories to include in sparse checkout (empty means the full tree).
    pub include_dirs: Vec<String>,
    /// Directories to exclude from sparse checkout (forces non-cone mode).
    pub exclude: Vec<String>,
    /// LFS patterns to exclude from download.
    pub exclude_lfs: Vec<String>,
    /// LFS patterns to include for download (if set, only these are fetched).
    pub include_lfs: Vec<String>,
    pub submodules: SubmoduleConfig,
    /// Use cone mode for sparse checkout.
    pub sparse_cone: bool,
}

#[verifier::ext_equal]
pub struct WorksetView {
    pub description: Option<Seq<char>>,
    pub include_dirs: Seq<Seq<char>>,
    pub exclude: Seq<Seq<char>>,
    pub exclude_lfs: Seq<Seq<char>>,
    pub include_lfs: Seq<Seq<char>>,
    pub submodules: SubmoduleConfigView,
    pub sparse_cone: bool,
}

pub open spec fn opt_text(o: Option<String>) -> Option<Seq<char>> {
    match o {
        Some(s) => Some(s@),
        None => None,
    }
}

impl View for Workset {
    type V = WorksetView;

    open spec fn view(&self) -> WorksetView {
        WorksetView {
            description: opt_text(self.description),
            include_dirs: self.include_dirs.deep_view(),
            exclude: self.exclude.deep_view(),
            exclude_lfs: self.exclude_lfs.deep_view(),
            include_lfs: self.include_lfs.deep_view(),
            submodules: self.submodules@,
            sparse_cone: self.sparse_cone,
        }
    }
}

/// A copy of a list of strings.
pub fn copy_strings(v: &Vec<String>) -> (r: Vec<String>)
    ensures
        r@ == v@,
        r.deep_view() == v.deep_view(),
{
    let mut r: Vec<String> = Vec::new();
    let n = v.len();
    for i in 0..n
        invariant
            n == v.len(),
            r@ == v@.take(i as int),
    {
        r.push(v[i].clone());
        proof {
            assert(r@ =~= v@.take(i + 1));
        }
    }
    proof {
        assert(v@.take(n as int) =~= v@);
    }
    r
}

impl SubmoduleConfig {
    /// A copy of these settings.
    pub fn copy(&self) -> (r: SubmoduleConfig)
        ensures
            r@ == self@,
    {
        SubmoduleConfig { shallow: self.shallow, skip: copy_strings(&self.skip) }
    }
}

impl Workset {
    /// A copy of this profile.
    pub fn copy(&self) -> (r: Workset)
        ensures
            r@ == self@,
    {
        let description = match &self.description {
            Some(d) => Some(d.clone()),
            None => None,
        };
        Workset {
            description,
            include_dirs: copy_strings(&self.include_dirs),
            exclude: copy_strings(&self.exclude),
            exclude_lfs: copy_strings(&self.exclude_lfs),
            include_lfs: copy_strings(&self.include_lfs),
            submodules: self.submodules.copy(),
            sparse_cone: self.sparse_cone,
        }
    }
}

// ---------------------------------------------------------------------------
// Profile names, kept in the order a `BTreeMap<String, _>` keeps its keys.
// ---------------------------------------------------------------------------

/// `a` sorts strictly before `b` (code point by code point, a proper prefix
/// first), the order of `String`'s `Ord`.
pub open spec fn name_lt(a: Seq<char>, b: Seq<char>) -> bool {
    exists|k: int|
        #![trigger a.take(k), b.take(k)]
        0 <= k <= a.len() && k <= b.len() && a.take(k) == b.take(k) && ((k == a.len() && k
            < b.len()) || (k < a.len() && k < b.len() && a[k] < b[k]))
}

/// Strictly increasing names, hence no name twice.
pub open spec fn names_sorted(names: Seq<Seq<char>>) -> bool {
    forall|i: int, j: int| 0 <= i < j < names.len() ==> name_lt(#[trigger] names[i], #[trigger] names[j])
}

pub proof fn lemma_name_lt_irreflexive(a: Seq<char>)
    ensures
        !name_lt(a, a),
{
}

pub proof fn lemma_name_lt_transitive(a: Seq<char>, b: Seq<char>, c: Seq<char>)
    requires
        name_lt(a, b),
        name_lt(b, c),
    ensures
        name_lt(a, c),
{
    let k1 = choose|k: int|
        #![trigger a.take(k), b.take(k)]
        0 <= k <= a.len() && k <= b.len() && a.take(k) == b.take(k) && ((k == a.len() && k
            < b.len()) || (k < a.len() && k < b.len() && a[k] < b[k]));
    let k2 = choose|k: int|
        #![trigger b.take(k), c.take(k)]
        0 <= k <= b.len() && k <= c.len() && b.take(k) == c.take(k) && ((k == b.len() && k
            < c.len()) || (k < b.len() && k < c.len() && b[k] < c[k]));
    let k = if k1 <= k2 { k1 } else { k2 };
    assert(a.take(k) =~= c.take(k)) by {
        assert forall|j: int| 0 <= j < k implies a.take(k)[j] == c.take(k)[j] by {
            assert(a.take(k1)[j] == b.take(k1)[j]);
            assert(b.take(k2)[j] == c.take(k2)[j]);
        }
    }
    if k1 < k2 {
        assert(b.take(k2)[k1] == c.take(k2)[k1]);
    } else if k2 < k1 {
        assert(a.take(k1)[k2] == b.take(k1)[k2]);
    }
    assert(a.take(k) == c.take(k));
}

/// Two different names are ordered one way or the other.
pub proof fn lemma_name_lt_total(a: Seq<char>, b: Seq<char>)
    requires
        a != b,
    ensures
        name_lt(a, b) || name_lt(b, a),
{
    let m = if a.len() <= b.len() { a.len() } else { b.len() };
    if forall|j: int| 0 <= j < m ==> a[j] == b[j] {
        assert(a.take(m as int) =~= b.take(m as int));
        if a.len() == b.len() {
            assert(a =~= b);
        }
    } else {
        let d = choose|j: int| 0 <= j < m && a[j] != b[j];
        let k = first_difference(a, b, d);
        assert(a.take(k) =~= b.take(k));
    }
}

/// The first position below `d` (where `a` and `b` differ) at which they differ.
proof fn first_difference(a: Seq<char>, b: Seq<char>, d: int) -> (k: int)
    requires
        0 <= d < a.len(),
        d < b.len(),
        a[d] != b[d],
    ensures
        0 <= k <= d,
        a[k] != b[k],
        forall|j: int| 0 <= j < k ==> a[j] == b[j],
    decreases d,
{
    if forall|j: int| 0 <= j < d ==> a[j] == b[j] {
        d
    } else {
        let e = choose|j: int| 0 <= j < d && a[j] != b[j];
        first_difference(a, b, e)
    }
}

/// Where a name stands relative to another.
pub enum NameOrder {
    Before,
    Same,
    After,
}

/// Compare two names in `String` order.
pub fn compare_names(a: &str, b: &str) -> (o: NameOrder)
    ensures
        o is Before <==> name_lt(a@, b@),
        o is Same <==> a@ == b@,
        o is After <==> name_lt(b@, a@),
{
    let x = to_chars(a);
    let y = to_chars(b);
    let m = if x.len() <= y.len() { x.len() } else { y.len() };
    let mut i: usize = 0;
    while i < m
        invariant
            x@ == a@,
            y@ == b@,
            m <= x@.len(),
            m <= y@.len(),
            m == x@.len() || m == y@.len(),
            i <= m,
            x@.take(i as int) == y@.take(i as int),
        decreases m - i,
    {
        if x[i] != y[i] {
            proof {
                lemma_name_lt_irreflexive(a@);
                lemma_name_lt_irreflexive(b@);
            }
            if x[i] < y[i] {
                assert(name_lt(a@, b@));
                proof {
                    if name_lt(b@, a@) {
                        lemma_name_lt_transitive(a@, b@, a@);
                    }
                }
                return NameOrder::Before;
            } else {
                assert(name_lt(b@, a@));
                proof {
                    if name_lt(a@, b@) {
                        lemma_name_lt_transitive(a@, b@, a@);
                    }
                }
                return NameOrder::After;
            }
        }
        proof {
            assert(x@.take(i + 1) =~= x@.take(i as int).push(x@[i as int]));
            assert(y@.take(i + 1) =~= y@.take(i as int).push(y@[i as int]));
        }
        i = i + 1;
    }
    proof {
        lemma_name_lt_irreflexive(a@);
        lemma_name_lt_irreflexive(b@);
    }
    if x.len() == y.len() {
        assert(x@ =~= x@.take(i as int));
        assert(y@ =~= y@.take(i as int));
        NameOrder::Same
    } else if x.len() < y.len() {
        assert(x@ =~= x@.take(i as int));
        assert(name_lt(a@, b@));
        proof {
            if name_lt(b@, a@) {
                lemma_name_lt_transitive(a@, b@, a@);
            }
        }
        NameOrder::Before
    } else {
        assert(y@ =~= y@.take(i as int));
        assert(name_lt(b@, a@));
        proof {
            if name_lt(a@, b@) {
                lemma_name_lt_transitive(a@, b@, a@);
            }
        }
        NameOrder::After
    }
}

} // verus!

verus! {

/// The worksets of a configuration, keyed by name, in name order.
///
/// The table is a `Vec` of `(name, workset)` kept sorted by name (the type
/// invariant below) rather than a `BTreeMap<String, Workset>`: vstd's
/// `BTreeMap` specification holds only for key types known to obey the `Ord`
/// laws (integers and tuples of them, for instance), and `String` is not one,
/// so with `String` keys nothing could be proved of its lookups or of the
/// order in which it lists names.
pub struct WorksetsConfig {
    entries: Vec<(String, Workset)>,
    sharing: Option<SubmoduleSharing>,
}

/// Within sorted `names`, the position of `names[i]` is `i`.
pub proof fn lemma_sorted_index_of(names: Seq<Seq<char>>, i: int)
    requires
        names_sorted(names),
        0 <= i < names.len(),
    ensures
        names.index_of(names[i]) == i,
{
    let j = names.index_of(names[i]);
    assert(names.contains(names[i]));
    if j != i {
        lemma_name_lt_irreflexive(names[i]);
        if j < i {
            assert(name_lt(names[j], names[i]));
        } else {
            assert(name_lt(names[i], names[j]));
        }
    }
}

spec fn names_of(entries: Seq<(String, Workset)>) -> Seq<Seq<char>> {
    Seq::new(entries.len(), |i: int| entries[i].0@)
}

spec fn profiles_of(entries: Seq<(String, Workset)>) -> Seq<WorksetView> {
    Seq::new(entries.len(), |i: int| entries[i].1@)
}

impl WorksetsConfig {
    /// The profile names, in `String` order.
    pub closed spec fn names(self) -> Seq<Seq<char>> {
        names_of(self.entries@)
    }

    /// The profiles, in the order of `names`.
    pub closed spec fn profiles(self) -> Seq<WorksetView> {
        profiles_of(self.entries@)
    }

    /// The repo-wide `[submodules] sharing` setting, if the file has one.
    pub closed spec fn sharing_setting(self) -> Option<SubmoduleSharing> {
        self.sharing
    }

    /// The profiles keyed by name.
    pub open spec fn worksets(self) -> Map<Seq<char>, WorksetView> {
        Map::new(
            |k: Seq<char>| self.names().contains(k),
            |k: Seq<char>| self.profiles()[self.names().index_of(k)],
        )
    }

    #[verifier::type_invariant]
    closed spec fn inv(self) -> bool {
        names_sorted(self.names())
    }

    /// A configuration with no profiles and no sharing setting.
    pub fn new() -> (c: WorksetsConfig)
        ensures
            c.worksets() == Map::<Seq<char>, WorksetView>::empty(),
            c.names() == Seq::<Seq<char>>::empty(),
            c.sharing_setting() is None,
    {
        let c = WorksetsConfig { entries: Vec::new(), sharing: None };
        assert(c.names() =~= Seq::<Seq<char>>::empty());
        assert(c.worksets() =~= Map::<Seq<char>, WorksetView>::empty());
        c
    }

    /// The number of profiles.
    pub fn len(&self) -> (n: usize)
        ensures
            n == self.names().len(),
            n == self.worksets().len(),
    {
        proof {
            use_type_invariant(self);
            self.lemma_domain();
        }
        self.entries.len()
    }

    /// The profile names in `String` order, as `BTreeMap::keys` lists them.
    pub fn names_list(&self) -> (r: Vec<String>)
        ensures
            r.deep_view() == self.names(),
            names_sorted(r.deep_view()),
            r.deep_view().to_set() == self.worksets().dom(),
    {
        proof {
            use_type_invariant(self);
            self.lemma_domain();
        }
        let mut r: Vec<String> = Vec::new();
        let n = self.entries.len();
        for i in 0..n
            invariant
                n == self.entries@.len(),
                r@.len() == i,
                forall|j: int| 0 <= j < i ==> #[trigger] r@[j] == self.entries@[j].0,
        {
            r.push(self.entries[i].0.clone());
        }
        proof {
            assert(r.deep_view() =~= self.names());
        }
        r
    }

    /// The domain of `worksets` is the set of names, each name once.
    proof fn lemma_domain(&self)
        requires
            names_sorted(self.names()),
        ensures
            self.worksets().dom() == self.names().to_set(),
            self.worksets().len() == self.names().len(),
            self.names().no_duplicates(),
            self.names().len() == self.profiles().len(),
            forall|i: int|
                0 <= i < self.names().len() ==> #[trigger] self.worksets()[self.names()[i]]
                    == self.profiles()[i],
    {
        assert(self.worksets().dom() =~= self.names().to_set());
        assert forall|i: int, j: int|
            0 <= i < self.names().len() && 0 <= j < self.names().len() && i != j implies self.names()[i]
            != self.names()[j] by {
            lemma_name_lt_irreflexive(self.names()[i]);
        }
        self.names().unique_seq_to_set();
        assert forall|i: int| 0 <= i < self.names().len() implies #[trigger] self.worksets()[self.names()[i]]
            == self.profiles()[i] by {
            lemma_sorted_index_of(self.names(), i);
            assert(self.names().contains(self.names()[i]));
        }
    }

    /// The profile stored under `name`, if there is one.
    pub fn get(&self, name: &str) -> (r: Option<&Workset>)
        ensures
            r is None <==> !self.worksets().contains_key(name@),
            r matches Some(w) ==> w@ == self.worksets()[name@],
    {
        proof {
            use_type_invariant(self);
            self.lemma_domain();
        }
        let n = self.entries.len();
        for i in 0..n
            invariant
                n == self.entries@.len(),
                names_sorted(self.names()),
                forall|j: int| 0 <= j < i ==> self.names()[j] != name@,
        {
            if same_text(self.entries[i].0.as_str(), name) {
                proof {
                    assert(self.names()[i as int] == name@);
                }
                return Some(&self.entries[i].1);
            }
        }
        None
    }

    /// The repo-wide sharing setting.
    pub fn sharing(&self) -> (r: Option<SubmoduleSharing>)
        ensures
            r == self.sharing_setting(),
    {
        self.sharing
    }

    /// Record the repo-wide sharing setting; the profiles are unchanged.
    pub fn set_sharing(&mut self, mode: Option<SubmoduleSharing>)
        ensures
            final(self).sharing_setting() == mode,
            final(self).worksets() == old(self).worksets(),
            final(self).names() == old(self).names(),
    {
        proof {
            use_type_invariant(&*self);
        }
        self.sharing = mode;
    }

    /// Store `workset` under `name`, replacing and returning what was stored
    /// there, as `BTreeMap::insert` does.
    pub fn insert(&mut self, name: String, workset: Workset) -> (prev: Option<Workset>)
        ensures
            final(self).worksets() == old(self).worksets().insert(name@, workset@),
            final(self).sharing_setting() == old(self).sharing_setting(),
            prev is None <==> !old(self).worksets().contains_key(name@),
            prev matches Some(p) ==> p@ == old(self).worksets()[name@],
    {
        proof {
            use_type_invariant(&*self);
            self.lemma_domain();
        }
        let ghost old_names = self.names();
        let ghost old_profiles = self.profiles();
        let mut entries: Vec<(String, Workset)> = Vec::new();
        std::mem::swap(&mut entries, &mut self.entries);
        assert(entries@.len() == old_names.len());
        assert(forall|j: int| 0 <= j < old_names.len() ==> #[trigger] entries@[j].0@ == old_names[j]);
        assert(forall|j: int| 0 <= j < old_names.len() ==> #[trigger] entries@[j].1@ == old_profiles[j]);
        let n = entries.len();
        let mut i: usize = 0;
        let mut stop = false;
        while i < n && !stop
            invariant
                n == entries@.len(),
                n == old_names.len(),
                i <= n,
                stop ==> i < n && !name_lt(old_names[i as int], name@),
                forall|j: int| 0 <= j < i ==> name_lt(#[trigger] old_names[j], name@),
                forall|j: int| 0 <= j < n ==> #[trigger] entries@[j].0@ == old_names[j],
            decreases n - i + (if stop { 0int } else { 1int }),
        {
            match compare_names(entries[i].0.as_str(), name.as_str()) {
                NameOrder::Before => {
                    i = i + 1;
                },
                _ => {
                    stop = true;
                },
            }
        }
        let ghost key = name@;
        let ghost value = workset@;
        let found = i < n && same_text(entries[i].0.as_str(), name.as_str());
        let prev;
        if found {
            let old_entry = entries.remove(i);
            entries.insert(i, (name, workset));
            prev = Some(old_entry.1);
            proof {
                assert(old_names[i as int] == key);
                assert(old_names.contains(key));
            }
        } else {
            entries.insert(i, (name, workset));
            prev = None;
            proof {
                if i < n {
                    lemma_name_lt_total(key, old_names[i as int]);
                    assert(name_lt(key, old_names[i as int]));
                }
                assert forall|j: int| 0 <= j < n implies old_names[j] != key by {
                    lemma_name_lt_irreflexive(key);
                    if j < i {
                    } else {
                        if j > i {
                            lemma_name_lt_transitive(key, old_names[i as int], old_names[j]);
                        }
                    }
                }
            }
        }
        let ghost new_names = names_of(entries@);
        let ghost new_profiles = profiles_of(entries@);
        proof {
            if found {
                assert(new_names =~= old_names);
                assert(new_profiles =~= old_profiles.update(i as int, value));
            } else {
                assert(new_names =~= old_names.insert(i as int, key));
                assert(new_profiles =~= old_profiles.insert(i as int, value));
                assert forall|a: int, b: int| 0 <= a < b < new_names.len() implies name_lt(
                    #[trigger] new_names[a],
                    #[trigger] new_names[b],
                ) by {
                    if b < i {
                        assert(name_lt(old_names[a], old_names[b]));
                    } else if b == i {
                        assert(name_lt(old_names[a], key));
                    } else if a == i {
                        assert(name_lt(key, old_names[i as int]));
                        if b - 1 > i {
                            assert(name_lt(old_names[i as int], old_names[b - 1]));
                            lemma_name_lt_transitive(key, old_names[i as int], old_names[b - 1]);
                        }
                    } else if a < i {
                        assert(name_lt(old_names[a], old_names[b - 1]));
                    } else {
                        assert(name_lt(old_names[a - 1], old_names[b - 1]));
                    }
                }
            }
            assert(names_sorted(new_names));
        }
        self.entries = entries;
        proof {
            assert(self.names() == new_names);
            assert(self.profiles() == new_profiles);
            self.lemma_domain();
            assert(self.worksets() =~= old(self).worksets().insert(key, value)) by {
                assert forall|k: Seq<char>| #[trigger] self.worksets().contains_key(k) <==> old(
                    self,
                ).worksets().insert(key, value).contains_key(k) by {
                    if new_names.contains(k) {
                        let t = choose|t: int| 0 <= t < new_names.len() && new_names[t] == k;
                        if !found && t != i {
                            if t < i {
                                assert(old_names[t] == k);
                            } else {
                                assert(old_names[t - 1] == k);
                            }
                        }
                    }
                    if old_names.contains(k) {
                        let t = choose|t: int| 0 <= t < old_names.len() && old_names[t] == k;
                        if !found && t >= i {
                            assert(new_names[t + 1] == k);
                        } else {
                            assert(new_names[t] == k);
                        }
                    }
                    if k == key {
                        assert(new_names[i as int] == key);
                    }
                }
                assert forall|k: Seq<char>| #[trigger] self.worksets().contains_key(k) implies self.worksets()[k]
                    == old(self).worksets().insert(key, value)[k] by {
                    let t = choose|t: int| 0 <= t < new_names.len() && new_names[t] == k;
                    assert(self.worksets()[new_names[t]] == new_profiles[t]);
                    if t == i {
                    } else if found || t < i {
                        assert(old(self).worksets()[old_names[t]] == old_profiles[t]);
                    } else {
                        assert(old(self).worksets()[old_names[t - 1]] == old_profiles[t - 1]);
                    }
                }
            }
        }
        prev
    }
}

} // verus!

verus! {

/// `acc` followed by each element of `extra` that is not in it yet, in
/// order: the union that composing profiles takes of two lists.
pub open spec fn union_into(acc: Seq<Seq<char>>, extra: Seq<Seq<char>>) -> Seq<Seq<char>>
    decreases extra.len(),
{
    if extra.len() == 0 {
        acc
    } else {
        let u = union_into(acc, extra.drop_last());
        if u.contains(extra.last()) {
            u
        } else {
            u.push(extra.last())
        }
    }
}

/// Profile `m` with `ws` folded in: the lists are united, `shallow` holds if
/// either wants it, the description is `desc`, and the exclusions and cone
/// mode stay those of `m`.
pub open spec fn merge_into(m: WorksetView, ws: WorksetView, desc: Seq<char>) -> WorksetView {
    WorksetView {
        description: Some(desc),
        include_dirs: union_into(m.include_dirs, ws.include_dirs),
        exclude: m.exclude,
        exclude_lfs: union_into(m.exclude_lfs, ws.exclude_lfs),
        include_lfs: union_into(m.include_lfs, ws.include_lfs),
        submodules: SubmoduleConfigView {
            shallow: m.submodules.shallow || ws.submodules.shallow,
            skip: union_into(m.submodules.skip, ws.submodules.skip),
        },
        sparse_cone: m.sparse_cone,
    }
}

/// Folding the named members into one profile, left to right: the first
/// member as it is, each later one merged in; `Err` carries the first name
/// that `worksets` lacks.
pub open spec fn merge_members(
    worksets: Map<Seq<char>, WorksetView>,
    members: Seq<Seq<char>>,
    desc: Seq<char>,
) -> Result<Option<WorksetView>, Seq<char>>
    decreases members.len(),
{
    if members.len() == 0 {
        Ok(None)
    } else {
        match merge_members(worksets, members.drop_last(), desc) {
            Err(missing) => Err(missing),
            Ok(acc) => {
                let n = members.last();
                if !worksets.contains_key(n) {
                    Err(n)
                } else {
                    match acc {
                        None => Ok(Some(worksets[n])),
                        Some(m) => Ok(Some(merge_into(m, worksets[n], desc))),
                    }
                }
            },
        }
    }
}

/// Once a member is missing, the members after it do not change the outcome.
pub proof fn lemma_merge_error_persists(
    worksets: Map<Seq<char>, WorksetView>,
    members: Seq<Seq<char>>,
    k: int,
    desc: Seq<char>,
)
    requires
        0 <= k <= members.len(),
        merge_members(worksets, members.take(k), desc) is Err,
    ensures
        merge_members(worksets, members, desc) == merge_members(worksets, members.take(k), desc),
    decreases members.len(),
{
    if k == members.len() {
        assert(members.take(k) =~= members);
    } else {
        assert(members.drop_last().take(k) =~= members.take(k));
        lemma_merge_error_persists(worksets, members.drop_last(), k, desc);
    }
}

/// The description of a composite profile.
pub open spec fn composite_description(members: Seq<Seq<char>>) -> Seq<char> {
    "Composite: "@ + seq_join(members, seq!['+'])
}

pub enum WorksetErrorView {
    NotFound { name: Seq<char>, available: Seq<Seq<char>> },
    MissingMember { name: Seq<char> },
}

/// Errors in selecting a profile.
#[derive(Debug)]
pub enum WorksetError {
    /// The requested profile is not defined; `available` lists the names that are.
    NotFound { name: String, available: Vec<String> },
    /// A member of an `a+b` composition is not defined.
    MissingMember { name: String },
}

impl View for WorksetError {
    type V = WorksetErrorView;

    open spec fn view(&self) -> WorksetErrorView {
        match self {
            WorksetError::NotFound { name, available } => WorksetErrorView::NotFound {
                name: name@,
                available: available.deep_view(),
            },
            WorksetError::MissingMember { name } => WorksetErrorView::MissingMember { name: name@ },
        }
    }
}

impl WorksetError {
    /// The text shown to the user for this error.
    pub fn message(&self) -> (m: String)
        ensures
            match self@ {
                WorksetErrorView::NotFound { name, available } => m@ == "Workset '"@ + name
                    + "' not found. Available: "@ + seq_join(available, ", "@),
                WorksetErrorView::MissingMember { name } => m@ == "Workset '"@ + name
                    + "' not found"@,
            },
    {
        match self {
            WorksetError::NotFound { name, available } => {
                let mut m = concat3("Workset '", name.as_str(), "' not found. Available: ");
                let list = join(available, ", ");
                m.append(list.as_str());
                m
            },
            WorksetError::MissingMember { name } => concat3("Workset '", name.as_str(), "' not found"),
        }
    }
}

/// What selecting profile `name` gives: a single name is looked up; names
/// joined by `+` are composed.
pub open spec fn select_workset(
    worksets: Map<Seq<char>, WorksetView>,
    names: Seq<Seq<char>>,
    name: Seq<char>,
) -> Result<WorksetView, WorksetErrorView> {
    let members = split_on(name, '+');
    if members.len() == 1 {
        if worksets.contains_key(name) {
            Ok(worksets[name])
        } else {
            Err(WorksetErrorView::NotFound { name, available: names })
        }
    } else {
        match merge_members(worksets, members, composite_description(members)) {
            Err(missing) => Err(WorksetErrorView::MissingMember { name: missing }),
            Ok(m) => Ok(m.unwrap()),
        }
    }
}

pub open spec fn result_view(r: Result<Workset, WorksetError>) -> Result<WorksetView, WorksetErrorView> {
    match r {
        Ok(w) => Ok(w@),
        Err(e) => Err(e@),
    }
}

/// Does `v` hold a string with the characters of `s`?
pub fn holds_text(v: &Vec<String>, s: &str) -> (b: bool)
    ensures
        b == v.deep_view().contains(s@),
{
    let n = v.len();
    for i in 0..n
        invariant
            n == v.len(),
            forall|j: int| 0 <= j < i ==> v.deep_view()[j] != s@,
    {
        if same_text(v[i].as_str(), s) {
            assert(v.deep_view()[i as int] == s@);
            return true;
        }
    }
    false
}

/// Append to `acc` each string of `extra` it does not hold yet.
pub fn unite_into(acc: &mut Vec<String>, extra: &Vec<String>)
    ensures
        final(acc).deep_view() == union_into(old(acc).deep_view(), extra.deep_view()),
{
    let ghost start = acc.deep_view();
    let n = extra.len();
    for i in 0..n
        invariant
            n == extra.len(),
            acc.deep_view() == union_into(start, extra.deep_view().take(i as int)),
    {
        proof {
            assert(extra.deep_view().take(i + 1).drop_last() =~= extra.deep_view().take(i as int));
        }
        if !holds_text(acc, extra[i].as_str()) {
            acc.push(extra[i].clone());
            proof {
                assert(acc.deep_view() =~= union_into(start, extra.deep_view().take(i as int)).push(
                    extra.deep_view()[i as int],
                ));
            }
        }
    }
    proof {
        assert(extra.deep_view().take(n as int) =~= extra.deep_view());
    }
}

/// Fold profile `ws` into `m` as composition does.
pub fn merge_profile(m: &mut Workset, ws: &Workset, desc: &str)
    ensures
        final(m)@ == merge_into(old(m)@, ws@, desc@),
{
    unite_into(&mut m.include_dirs, &ws.include_dirs);
    unite_into(&mut m.include_lfs, &ws.include_lfs);
    unite_into(&mut m.exclude_lfs, &ws.exclude_lfs);
    unite_into(&mut m.submodules.skip, &ws.submodules.skip);
    m.submodules.shallow = m.submodules.shallow || ws.submodules.shallow;
    m.description = Some(owned(desc));
}

pub open spec fn opt_workset_view(o: Option<Workset>) -> Option<WorksetView> {
    match o {
        Some(w) => Some(w@),
        None => None,
    }
}

impl WorksetsConfig {
    /// The profile called `name`. Names joined by `+` select the composition
    /// of those profiles: their directory, LFS and skip lists united in
    /// order, shallow if any member is, the first member's exclusions and
    /// cone mode, and a description naming the composition.
    pub fn get_workset(&self, name: &str) -> (r: Result<Workset, WorksetError>)
        ensures
            result_view(r) == select_workset(self.worksets(), self.names(), name@),
    {
        let members = split_at_char(name, '+');
        if members.len() == 1 {
            return match self.get(name) {
                Some(w) => Ok(w.copy()),
                None => Err(WorksetError::NotFound { name: owned(name), available: self.names_list() }),
            };
        }
        let joined = join(&members, "+");
        let desc = concat2("Composite: ", joined.as_str());
        proof {
            reveal_strlit("+");
            assert("+"@ =~= seq!['+']);
        }
        let ghost ws = self.worksets();
        let ghost mv = members.deep_view();
        let mut merged: Option<Workset> = None;
        let n = members.len();
        for i in 0..n
            invariant
                n == members.len(),
                mv == members.deep_view(),
                mv == split_on(name@, '+'),
                n != 1,
                ws == self.worksets(),
                desc@ == composite_description(mv),
                merge_members(ws, mv.take(i as int), desc@) == Ok::<Option<WorksetView>, Seq<char>>(
                    opt_workset_view(merged),
                ),
                i > 0 ==> merged is Some,
        {
            proof {
                assert(mv.take(i + 1).drop_last() =~= mv.take(i as int));
            }
            match self.get(members[i].as_str()) {
                None => {
                    proof {
                        assert(mv.take(i + 1).last() == mv[i as int]);
                        assert(merge_members(ws, mv.take(i + 1), desc@) == Err::<Option<WorksetView>, Seq<char>>(mv[i as int]));
                        lemma_merge_error_persists(ws, mv, i + 1, desc@);
                        assert(members@[i as int]@ == mv[i as int]);
                    }
                    return Err(WorksetError::MissingMember { name: members[i].clone() });
                },
                Some(w) => {
                    merged = match merged {
                        None => Some(w.copy()),
                        Some(mut m) => {
                            merge_profile(&mut m, w, desc.as_str());
                            Some(m)
                        },
                    };
                },
            }
        }
        proof {
            assert(mv.take(n as int) =~= mv);
        }
        match merged {
            Some(m) => Ok(m),
            None => Err(WorksetError::MissingMember { name: owned(name) }),
        }
    }
}

} // verus!

verus! {

/// The four lists that composition unites: 0 the sparse directories,
/// 1 the LFS patterns to fetch, 2 the LFS patterns to skip, 3 the skipped
/// submodules.
pub open spec fn united_list(w: WorksetView, k: int) -> Seq<Seq<char>> {
    if k == 0 {
        w.include_dirs
    } else if k == 1 {
        w.include_lfs
    } else if k == 2 {
        w.exclude_lfs
    } else {
        w.submodules.skip
    }
}

#[verifier::spinoff_prover]
proof fn lemma_union_into(acc: Seq<Seq<char>>, extra: Seq<Seq<char>>)
    ensures
        acc.is_prefix_of(union_into(acc, extra)),
        forall|x: Seq<char>| #[trigger] union_into(acc, extra).contains(x) <==> (acc.contains(x) || extra.contains(x)),
        acc.no_duplicates() ==> union_into(acc, extra).no_duplicates(),
    decreases extra.len(),
{
    if extra.len() > 0 {
        let rest = extra.drop_last();
        let l = extra.last();
        lemma_union_into(acc, rest);
        let u = union_into(acc, rest);
        assert forall|x: Seq<char>| extra.contains(x) <==> (rest.contains(x) || x == l) by {
            if extra.contains(x) {
                let j = choose|j: int| 0 <= j < extra.len() && extra[j] == x;
                if j < extra.len() - 1 {
                    assert(rest[j] == x);
                }
            }
            if rest.contains(x) {
                let j = choose|j: int| 0 <= j < rest.len() && rest[j] == x;
                assert(extra[j] == x);
            }
            if x == l {
                assert(extra[extra.len() - 1] == x);
            }
        }
        if !u.contains(l) {
            let v = u.push(l);
            assert forall|x: Seq<char>| v.contains(x) <==> (u.contains(x) || x == l) by {
                if v.contains(x) {
                    let j = choose|j: int| 0 <= j < v.len() && v[j] == x;
                    if j < u.len() {
                        assert(u[j] == x);
                    }
                }
                if u.contains(x) {
                    let j = choose|j: int| 0 <= j < u.len() && u[j] == x;
                    assert(v[j] == x);
                }
                if x == l {
                    assert(v[u.len() as int] == x);
                }
            }
            assert(acc.is_prefix_of(v)) by {
                assert(forall|j: int| 0 <= j < acc.len() ==> v[j] == u[j]);
            }
        }
    }
}

/// What folding members gives, member by member.
#[verifier::spinoff_prover]
proof fn lemma_merge_members(
    worksets: Map<Seq<char>, WorksetView>,
    members: Seq<Seq<char>>,
    desc: Seq<char>,
)
    requires
        members.len() > 0,
        forall|j: int| 0 <= j < members.len() ==> worksets.contains_key(#[trigger] members[j]),
    ensures
        merge_members(worksets, members, desc) is Ok,
        merge_members(worksets, members, desc)->Ok_0 is Some,
        ({
            let w = merge_members(worksets, members, desc)->Ok_0->Some_0;
            let first = worksets[members[0]];
            &&& forall|k: int, x: Seq<char>|
                0 <= k < 4 ==> (#[trigger] united_list(w, k).contains(x) <==> exists|j: int|
                    0 <= j < members.len() && #[trigger] united_list(worksets[members[j]], k).contains(x))
            &&& forall|k: int| 0 <= k < 4 ==> united_list(first, k).is_prefix_of(#[trigger] united_list(w, k))
            &&& forall|k: int|
                0 <= k < 4 && united_list(first, k).no_duplicates() ==> #[trigger] united_list(w, k).no_duplicates()
            &&& w.submodules.shallow <==> exists|j: int|
                0 <= j < members.len() && #[trigger] worksets[members[j]].submodules.shallow
            &&& w.exclude == first.exclude
            &&& w.sparse_cone == first.sparse_cone
            &&& members.len() > 1 ==> w.description == Some(desc)
            &&& members.len() == 1 ==> w == first
        }),
    decreases members.len(),
{
    if members.len() == 1 {
        assert(members.drop_last() =~= Seq::<Seq<char>>::empty());
        let w = worksets[members[0]];
        assert forall|k: int, x: Seq<char>|
            0 <= k < 4 implies (#[trigger] united_list(w, k).contains(x) <==> exists|j: int|
                0 <= j < members.len() && #[trigger] united_list(worksets[members[j]], k).contains(x)) by {
            if united_list(w, k).contains(x) {
                assert(united_list(worksets[members[0]], k).contains(x));
            }
        }
        assert(w.submodules.shallow ==> worksets[members[0]].submodules.shallow);
    } else {
        let rest = members.drop_last();
        assert forall|j: int| 0 <= j < rest.len() implies worksets.contains_key(#[trigger] rest[j]) by {
            assert(rest[j] == members[j]);
        }
        lemma_merge_members(worksets, rest, desc);
        let m = merge_members(worksets, rest, desc)->Ok_0->Some_0;
        let l = worksets[members.last()];
        assert(worksets.contains_key(members[members.len() - 1]));
        let w = merge_into(m, l, desc);
        assert(merge_members(worksets, members, desc) == Ok::<Option<WorksetView>, Seq<char>>(Some(w)));
        assert(rest[0] == members[0]);
        assert forall|k: int| 0 <= k < 4 implies #[trigger] united_list(w, k) == union_into(
            united_list(m, k),
            united_list(l, k),
        ) by {}
        assert forall|k: int| 0 <= k < 4 implies {
            &&& united_list(worksets[members[0]], k).is_prefix_of(#[trigger] united_list(w, k))
            &&& (united_list(worksets[members[0]], k).no_duplicates() ==> united_list(w, k).no_duplicates())
            &&& forall|x: Seq<char>| #[trigger] united_list(w, k).contains(x) <==> exists|j: int|
                0 <= j < members.len() && #[trigger] united_list(worksets[members[j]], k).contains(x)
        } by {
            lemma_union_into(united_list(m, k), united_list(l, k));
            let f = united_list(worksets[members[0]], k);
            assert(f.is_prefix_of(united_list(m, k)));
            assert(f.is_prefix_of(united_list(w, k))) by {
                assert(forall|j: int| 0 <= j < f.len() ==> united_list(w, k)[j] == united_list(m, k)[j]);
            }
            assert forall|x: Seq<char>| #[trigger] united_list(w, k).contains(x) <==> exists|j: int|
                0 <= j < members.len() && #[trigger] united_list(worksets[members[j]], k).contains(x) by {
                if united_list(w, k).contains(x) {
                    if united_list(m, k).contains(x) {
                        let j = choose|j: int|
                            0 <= j < rest.len() && #[trigger] united_list(worksets[rest[j]], k).contains(x);
                        assert(rest[j] == members[j]);
                    } else {
                        assert(united_list(worksets[members[members.len() - 1]], k).contains(x));
                    }
                }
                if exists|j: int|
                    0 <= j < members.len() && #[trigger] united_list(worksets[members[j]], k).contains(x) {
                    let j = choose|j: int|
                        0 <= j < members.len() && #[trigger] united_list(worksets[members[j]], k).contains(x);
                    if j < rest.len() {
                        assert(rest[j] == members[j]);
                        assert(united_list(worksets[rest[j]], k).contains(x));
                    }
                }
            }
        }
        assert(w.submodules.shallow <==> exists|j: int|
            0 <= j < members.len() && #[trigger] worksets[members[j]].submodules.shallow) by {
            if m.submodules.shallow {
                let j = choose|j: int| 0 <= j < rest.len() && #[trigger] worksets[rest[j]].submodules.shallow;
                assert(rest[j] == members[j]);
            }
            if l.submodules.shallow {
                assert(worksets[members[members.len() - 1]].submodules.shallow);
            }
            if exists|j: int| 0 <= j < members.len() && #[trigger] worksets[members[j]].submodules.shallow {
                let j = choose|j: int| 0 <= j < members.len() && #[trigger] worksets[members[j]].submodules.shallow;
                if j < rest.len() {
                    assert(rest[j] == members[j]);
                    assert(worksets[rest[j]].submodules.shallow);
                }
            }
        }
    }
}

/// Composition succeeds exactly when every member is defined; a composite
/// then holds every entry of every member's united lists and nothing else,
/// starts with the first member's lists, adds no duplicates to them, is
/// shallow exactly when some member is, and keeps the first member's
/// exclusions and cone mode.
pub proof fn law_composition_unites_members(
    worksets: Map<Seq<char>, WorksetView>,
    names: Seq<Seq<char>>,
    name: Seq<char>,
)
    requires
        split_on(name, '+').len() > 1,
    ensures
        ({
            let members = split_on(name, '+');
            &&& (select_workset(worksets, names, name) is Ok <==> forall|j: int|
                0 <= j < members.len() ==> worksets.contains_key(#[trigger] members[j]))
            &&& select_workset(worksets, names, name) matches Ok(w) ==> {
                let first = worksets[members[0]];
                &&& forall|k: int, x: Seq<char>|
                    0 <= k < 4 ==> (#[trigger] united_list(w, k).contains(x) <==> exists|j: int|
                        0 <= j < members.len() && #[trigger] united_list(worksets[members[j]], k).contains(x))
                &&& forall|k: int| 0 <= k < 4 ==> united_list(first, k).is_prefix_of(#[trigger] united_list(w, k))
                &&& forall|k: int|
                    0 <= k < 4 && united_list(first, k).no_duplicates() ==> #[trigger] united_list(w, k).no_duplicates()
                &&& (w.submodules.shallow <==> exists|j: int|
                    0 <= j < members.len() && #[trigger] worksets[members[j]].submodules.shallow)
                &&& w.exclude == first.exclude
                &&& w.sparse_cone == first.sparse_cone
                &&& w.description == Some(composite_description(members))
            }
        }),
{
    let members = split_on(name, '+');
    let desc = composite_description(members);
    if forall|j: int| 0 <= j < members.len() ==> worksets.contains_key(#[trigger] members[j]) {
        lemma_merge_members(worksets, members, desc);
    } else {
        let j = choose|j: int| 0 <= j < members.len() && !worksets.contains_key(#[trigger] members[j]);
        lemma_merge_missing(worksets, members, desc, j);
    }
}

/// A member that is not defined makes the fold fail.
proof fn lemma_merge_missing(
    worksets: Map<Seq<char>, WorksetView>,
    members: Seq<Seq<char>>,
    desc: Seq<char>,
    j: int,
)
    requires
        0 <= j < members.len(),
        !worksets.contains_key(members[j]),
    ensures
        merge_members(worksets, members, desc) is Err,
    decreases members.len(),
{
    if j < members.len() - 1 {
        assert(members.drop_last()[j] == members[j]);
        lemma_merge_missing(worksets, members.drop_last(), desc, j);
    }
}

/// A single name selects exactly the profile stored under it.
pub proof fn law_single_name_is_lookup(
    worksets: Map<Seq<char>, WorksetView>,
    names: Seq<Seq<char>>,
    name: Seq<char>,
)
    requires
        !name.contains('+'),
    ensures
        worksets.contains_key(name) ==> select_workset(worksets, names, name) == Ok::<WorksetView, WorksetErrorView>(worksets[name]),
        !worksets.contains_key(name) ==> select_workset(worksets, names, name) == Err::<WorksetView, WorksetErrorView>(
            WorksetErrorView::NotFound { name, available: names },
        ),
{
    lemma_split_without_separator(name, '+');
}

} // verus!

verus! {

/// The profile `all` of the template: the whole tree.
pub open spec fn template_all() -> WorksetView {
    WorksetView {
        description: Some("Everything: the full tree, no sparse checkout"@),
        include_dirs: Seq::empty(),
        exclude: Seq::empty(),
        exclude_lfs: Seq::empty(),
        include_lfs: Seq::empty(),
        submodules: SubmoduleConfigView { shallow: true, skip: Seq::empty() },
        sparse_cone: true,
    }
}

/// The profile `server` of the template.
pub open spec fn template_server() -> WorksetView {
    WorksetView {
        description: Some("Backend server development"@),
        include_dirs: seq!["src/server"@, "src/shared"@],
        exclude: Seq::empty(),
        exclude_lfs: seq!["*.psd"@, "*.fbx"@],
        include_lfs: seq!["*.json"@, "*.toml"@],
        submodules: SubmoduleConfigView { shallow: true, skip: seq!["third_party/art-pipeline"@] },
        sparse_cone: true,
    }
}

/// The profile `client` of the template.
pub open spec fn template_client() -> WorksetView {
    WorksetView {
        description: Some("Game client work"@),
        include_dirs: seq!["src/client"@, "src/shared"@, "src/rendering"@],
        exclude: Seq::empty(),
        exclude_lfs: Seq::empty(),
        include_lfs: seq!["*.png"@, "*.atlas"@],
        submodules: SubmoduleConfigView { shallow: true, skip: Seq::empty() },
        sparse_cone: true,
    }
}

impl WorksetsConfig {
    /// The configuration `git workset init` writes: an `all` profile for the
    /// whole tree and two example profiles, `server` and `client`.
    pub fn template() -> (c: WorksetsConfig)
        ensures
            c.worksets() == Map::<Seq<char>, WorksetView>::empty().insert("all"@, template_all()).insert(
                "server"@,
                template_server(),
            ).insert("client"@, template_client()),
            c.sharing_setting() is None,
    {
        let mut c = WorksetsConfig::new();
        let all = Workset {
            description: Some(owned("Everything: the full tree, no sparse checkout")),
            include_dirs: Vec::new(),
            exclude: Vec::new(),
            exclude_lfs: Vec::new(),
            include_lfs: Vec::new(),
            submodules: SubmoduleConfig { shallow: true, skip: Vec::new() },
            sparse_cone: true,
        };
        assert(all@ =~= template_all());
        c.insert(owned("all"), all);
        let server = Workset {
            description: Some(owned("Backend server development")),
            include_dirs: vec![owned("src/server"), owned("src/shared")],
            exclude: Vec::new(),
            exclude_lfs: vec![owned("*.psd"), owned("*.fbx")],
            include_lfs: vec![owned("*.json"), owned("*.toml")],
            submodules: SubmoduleConfig { shallow: true, skip: vec![owned("third_party/art-pipeline")] },
            sparse_cone: true,
        };
        assert(server@ =~= template_server());
        c.insert(owned("server"), server);
        let client = Workset {
            description: Some(owned("Game client work")),
            include_dirs: vec![owned("src/client"), owned("src/shared"), owned("src/rendering")],
            exclude: Vec::new(),
            exclude_lfs: Vec::new(),
            include_lfs: vec![owned("*.png"), owned("*.atlas")],
            submodules: SubmoduleConfig { shallow: true, skip: Vec::new() },
            sparse_cone: true,
        };
        assert(client@ =~= template_client());
        c.insert(owned("client"), client);
        c
    }
}

/// A composite's description names the composition as it was written.
pub proof fn law_composite_description_names_it(name: Seq<char>)
    ensures
        composite_description(split_on(name, '+')) == "Composite: "@ + name,
{
    crate::text::lemma_join_split(name, '+');
}

/// A profile stored under a plain name is what selecting that name gives,
/// and storing it leaves every other stored profile as it was.
pub proof fn law_stored_profile_is_selected(
    worksets: Map<Seq<char>, WorksetView>,
    names: Seq<Seq<char>>,
    name: Seq<char>,
    w: WorksetView,
    other: Seq<char>,
)
    requires
        !name.contains('+'),
        !other.contains('+'),
        other != name,
    ensures
        select_workset(worksets.insert(name, w), names, name) == Ok::<WorksetView, WorksetErrorView>(w),
        select_workset(worksets.insert(name, w), names, other) == select_workset(worksets, names, other),
{
    law_single_name_is_lookup(worksets.insert(name, w), names, name);
    law_single_name_is_lookup(worksets.insert(name, w), names, other);
    law_single_name_is_lookup(worksets, names, other);
}

/// Each sharing mode reads back as itself from its own spelling, and the
/// two spellings differ.
pub proof fn law_sharing_spelling_round_trip(mode: SubmoduleSharing)
    ensures
        sharing_from_text(sharing_text(mode)) == Some(mode),
{
    reveal_strlit("shared");
    reveal_strlit("isolated");
    assert("shared"@ != "isolated"@) by {
        assert("shared"@.len() != "isolated"@.len());
    }
}

} // verus!
