//! Submodule handling: which sharing mode applies, which submodules a
//! profile wants, the git invocations that attach or clone them, and the
//! hardening of a shared submodule gitdir's configuration.
use vstd::prelude::*;

use crate::config::SubmoduleSharing;
use crate::git::{with_gitdir, gitdir_args};
use crate::text::{concat3, decimal, decimal_string, owned, same_text};

verus! {

// ---------------------------------------------------------------------------
// Which sharing mode applies
// ---------------------------------------------------------------------------

/// The sharing mode in force, by precedence: the command-line flag, the mode
/// recorded in the worktree, `git config workset.submoduleSharing`, the
/// `[submodules] sharing` of the profile file, and finally `shared`.
pub open spec fn sharing_precedence(
    flag: Option<SubmoduleSharing>,
    recorded: Option<SubmoduleSharing>,
    git_config: Option<SubmoduleSharing>,
    file: Option<SubmoduleSharing>,
) -> SubmoduleSharing {
    match flag {
        Some(m) => m,
        None => match recorded {
            Some(m) => m,
            None => match git_config {
                Some(m) => m,
                None => match file {
                    Some(m) => m,
                    None => SubmoduleSharing::Shared,
                },
            },
        },
    }
}

pub fn resolve_sharing(
    flag: Option<SubmoduleSharing>,
    recorded: Option<SubmoduleSharing>,
    git_config: Option<SubmoduleSharing>,
    file: Option<SubmoduleSharing>,
) -> (r: SubmoduleSharing)
    ensures
        r == sharing_precedence(flag, recorded, git_config, file),
{
    match flag {
        Some(m) => m,
        None => match recorded {
            Some(m) => m,
            None => match git_config {
                Some(m) => m,
                None => match file {
                    Some(m) => m,
                    None => SubmoduleSharing::Shared,
                },
            },
        },
    }
}

/// Without the command-line flag, the mode recorded in a worktree stays in
/// force whatever git config and the profile file say, so re-applying a
/// profile never converts a worktree silently; the flag beats everything.
pub proof fn law_recorded_mode_is_kept(
    flag: Option<SubmoduleSharing>,
    recorded: SubmoduleSharing,
    git_config: Option<SubmoduleSharing>,
    file: Option<SubmoduleSharing>,
)
    ensures
        sharing_precedence(None, Some(recorded), git_config, file) == recorded,
        flag matches Some(m) ==> sharing_precedence(flag, Some(recorded), git_config, file) == m,
{
}

/// The sharing mode follows its documented precedence: the command-line
/// flag over the mode recorded in the worktree, over `git config
/// workset.submoduleSharing`, over the profile file's `[submodules] sharing`,
/// and `shared` when none is set. Each source decides whenever every source
/// above it is unset, whatever the sources below it say.
pub proof fn law_sharing_precedence(
    m: SubmoduleSharing,
    recorded: Option<SubmoduleSharing>,
    git_config: Option<SubmoduleSharing>,
    file: Option<SubmoduleSharing>,
)
    ensures
        sharing_precedence(Some(m), recorded, git_config, file) == m,
        sharing_precedence(None, Some(m), git_config, file) == m,
        sharing_precedence(None, None, Some(m), file) == m,
        sharing_precedence(None, None, None, Some(m)) == m,
        sharing_precedence(None, None, None, None) == SubmoduleSharing::Shared,
{
}

/// The oldest git (2.20) that honours `extensions.worktreeConfig`.
pub open spec fn supports_worktree_config(version: (u32, u32)) -> bool {
    version.0 > 2 || (version.0 == 2 && version.1 >= 20)
}

pub fn version_supports_worktree_config(version: (u32, u32)) -> (r: bool)
    ensures
        r == supports_worktree_config(version),
{
    version.0 > 2 || (version.0 == 2 && version.1 >= 20)
}

/// The mode submodules are set up in: shared mode falls back to isolated in
/// the main worktree (which is the shared store itself) and with a git known
/// to be older than 2.20; an unknown git version does not force a fallback.
pub open spec fn setup_mode(
    requested: SubmoduleSharing,
    is_main_worktree: bool,
    git_version: Option<(u32, u32)>,
) -> SubmoduleSharing {
    if requested == SubmoduleSharing::Shared && is_main_worktree {
        SubmoduleSharing::Isolated
    } else if requested == SubmoduleSharing::Shared && (git_version matches Some(v)
        && !supports_worktree_config(v)) {
        SubmoduleSharing::Isolated
    } else {
        requested
    }
}

pub fn submodule_setup_mode(
    requested: SubmoduleSharing,
    is_main_worktree: bool,
    git_version: Option<(u32, u32)>,
) -> (r: SubmoduleSharing)
    ensures
        r == setup_mode(requested, is_main_worktree, git_version),
{
    let mut mode = requested;
    if mode == SubmoduleSharing::Shared && is_main_worktree {
        mode = SubmoduleSharing::Isolated;
    }
    if mode == SubmoduleSharing::Shared {
        match git_version {
            Some(v) => {
                if !version_supports_worktree_config(v) {
                    mode = SubmoduleSharing::Isolated;
                }
            },
            None => {},
        }
    }
    mode
}

// ---------------------------------------------------------------------------
// Which submodules a profile wants
// ---------------------------------------------------------------------------

pub open spec fn entries_view(entries: Seq<(String, String)>) -> Seq<(Seq<char>, Seq<char>)> {
    entries.map_values(|e: (String, String)| (e.0@, e.1@))
}

/// Is the submodule at `path` skipped by the profile?
pub open spec fn is_skipped(skip: Seq<Seq<char>>, entry: (Seq<char>, Seq<char>)) -> bool {
    skip.contains(entry.1)
}

/// The entries a profile skips.
pub open spec fn skipped_by(skip: Seq<Seq<char>>) -> spec_fn((Seq<char>, Seq<char>)) -> bool {
    |e: (Seq<char>, Seq<char>)| is_skipped(skip, e)
}

/// The entries a profile wants.
pub open spec fn wanted_by(skip: Seq<Seq<char>>) -> spec_fn((Seq<char>, Seq<char>)) -> bool {
    |e: (Seq<char>, Seq<char>)| !is_skipped(skip, e)
}

/// Split `(name, path)` submodule entries into those the profile skips and
/// those it wants, each in their original order.
pub fn partition_submodules(entries: &Vec<(String, String)>, skip: &Vec<String>) -> (r: (
    Vec<(String, String)>,
    Vec<(String, String)>,
))
    ensures
        entries_view(r.0@) == entries_view(entries@).filter(skipped_by(skip.deep_view())),
        entries_view(r.1@) == entries_view(entries@).filter(wanted_by(skip.deep_view())),
{
    let ghost sk = skip.deep_view();
    let ghost ev = entries_view(entries@);
    let ghost p = skipped_by(sk);
    let ghost q = wanted_by(sk);
    let mut skipped: Vec<(String, String)> = Vec::new();
    let mut wanted: Vec<(String, String)> = Vec::new();
    let n = entries.len();
    for i in 0..n
        invariant
            n == entries.len(),
            sk == skip.deep_view(),
            ev == entries_view(entries@),
            p == skipped_by(sk),
            q == wanted_by(sk),
            entries_view(skipped@) == ev.take(i as int).filter(p),
            entries_view(wanted@) == ev.take(i as int).filter(q),
    {
        proof {
            assert(ev.take(i + 1).drop_last() =~= ev.take(i as int));
            reveal(Seq::filter);
        }
        let name = entries[i].0.clone();
        let path = entries[i].1.clone();
        let is_skip = crate::config::holds_text(skip, path.as_str());
        let ghost e = ev[i as int];
        assert(e == (name@, path@));
        if is_skip {
            skipped.push((name, path));
            proof {
                assert(entries_view(skipped@) =~= ev.take(i as int).filter(p).push(e));
            }
        } else {
            wanted.push((name, path));
            proof {
                assert(entries_view(wanted@) =~= ev.take(i as int).filter(q).push(e));
            }
        }
    }
    proof {
        assert(ev.take(n as int) =~= ev);
    }
    (skipped, wanted)
}

/// Every submodule is either skipped or wanted, never both: the two lists
/// together are as long as the entries, and each holds only entries of its
/// kind.
pub proof fn law_partition_is_complete(entries: Seq<(Seq<char>, Seq<char>)>, skip: Seq<Seq<char>>)
    ensures
        entries.filter(skipped_by(skip)).len() + entries.filter(wanted_by(skip)).len() == entries.len(),
        forall|e: (Seq<char>, Seq<char>)| #[trigger] entries.filter(skipped_by(skip)).contains(e) ==> is_skipped(skip, e),
        forall|e: (Seq<char>, Seq<char>)| #[trigger] entries.filter(wanted_by(skip)).contains(e) ==> !is_skipped(skip, e),
    decreases entries.len(),
{
    broadcast use vstd::seq_lib::group_filter_ensures;
    reveal(Seq::filter);
    if entries.len() > 0 {
        law_partition_is_complete(entries.drop_last(), skip);
    }
    assert forall|e: (Seq<char>, Seq<char>)| #[trigger] entries.filter(skipped_by(skip)).contains(e) implies is_skipped(skip, e) by {
        let i = choose|i: int| 0 <= i < entries.filter(skipped_by(skip)).len() && entries.filter(skipped_by(skip))[i] == e;
        assert(skipped_by(skip)(entries.filter(skipped_by(skip))[i]));
    }
    assert forall|e: (Seq<char>, Seq<char>)| #[trigger] entries.filter(wanted_by(skip)).contains(e) implies !is_skipped(skip, e) by {
        let i = choose|i: int| 0 <= i < entries.filter(wanted_by(skip)).len() && entries.filter(wanted_by(skip))[i] == e;
        assert(wanted_by(skip)(entries.filter(wanted_by(skip))[i]));
    }
}

/// A submodule is skipped exactly when its path equals an entry of the skip
/// list (a skip entry that is only a prefix of a path does not skip it), and
/// wanted exactly when its path equals none.
pub proof fn law_skip_matches_whole_paths(entries: Seq<(Seq<char>, Seq<char>)>, skip: Seq<Seq<char>>)
    ensures
        forall|e: (Seq<char>, Seq<char>)|
            #[trigger] entries.contains(e) ==> (entries.filter(skipped_by(skip)).contains(e) <==> skip.contains(
                e.1,
            )),
        forall|e: (Seq<char>, Seq<char>)|
            #[trigger] entries.contains(e) ==> (entries.filter(wanted_by(skip)).contains(e) <==> !skip.contains(
                e.1,
            )),
{
    broadcast use vstd::seq_lib::group_filter_ensures;
    law_partition_is_complete(entries, skip);
    assert forall|e: (Seq<char>, Seq<char>)| #[trigger] entries.contains(e) implies (entries.filter(
        skipped_by(skip),
    ).contains(e) <==> skip.contains(e.1)) && (entries.filter(wanted_by(skip)).contains(e) <==> !skip.contains(
        e.1,
    )) by {
        let i = choose|i: int| 0 <= i < entries.len() && entries[i] == e;
        if skip.contains(e.1) {
            assert(skipped_by(skip)(entries[i]));
            entries.lemma_filter_contains(skipped_by(skip), i);
        } else {
            assert(wanted_by(skip)(entries[i]));
            entries.lemma_filter_contains(wanted_by(skip), i);
        }
    }
}

/// Counts for the per-carve summary line.
#[derive(Debug, Default)]
pub struct SubmoduleOutcome {
    pub shared: usize,
    pub cloned: usize,
    pub skipped: usize,
}

impl SubmoduleOutcome {
    /// The summary line: `submodules: <s> shared (<c> cloned), <k> skipped`.
    pub fn summary(&self) -> (r: String)
        ensures
            r@ == "submodules: "@ + decimal(self.shared as nat) + " shared ("@ + decimal(
                self.cloned as nat,
            ) + " cloned), "@ + decimal(self.skipped as nat) + " skipped"@,
    {
        let mut r = owned("submodules: ");
        r.append(decimal_string(self.shared as u64).as_str());
        r.append(" shared (");
        r.append(decimal_string(self.cloned as u64).as_str());
        r.append(" cloned), ");
        r.append(decimal_string(self.skipped as u64).as_str());
        r.append(" skipped");
        r
    }
}

// ---------------------------------------------------------------------------
// Git invocations for submodules
// ---------------------------------------------------------------------------

/// `submodule update --init [--depth 1] -- <paths>`: clone (or update) just
/// the listed submodules.
pub open spec fn update_args(shallow: bool, paths: Seq<Seq<char>>) -> Seq<Seq<char>> {
    let depth: Seq<Seq<char>> = if shallow { seq!["--depth"@, "1"@] } else { Seq::empty() };
    seq!["submodule"@, "update"@, "--init"@] + depth + seq!["--"@] + paths
}

pub fn submodule_update_args(shallow: bool, paths: &Vec<String>) -> (r: Vec<String>)
    ensures
        r.deep_view() == update_args(shallow, paths.deep_view()),
{
    let mut r = vec![owned("submodule"), owned("update"), owned("--init")];
    if shallow {
        r.push(owned("--depth"));
        r.push(owned("1"));
    }
    r.push(owned("--"));
    let ghost head = r.deep_view();
    let mut rest = crate::config::copy_strings(paths);
    r.append(&mut rest);
    proof {
        let depth: Seq<Seq<char>> = if shallow { seq!["--depth"@, "1"@] } else { Seq::empty() };
        assert(head =~= seq!["submodule"@, "update"@, "--init"@] + depth + seq!["--"@]);
        assert(r.deep_view() =~= head + paths.deep_view());
    }
    r
}

/// Mark a skipped submodule inactive in the worktree's own config, so that
/// `fetch` and `pull` leave it alone.
pub fn skip_submodule_args(name: &str) -> (r: Vec<String>)
    ensures
        r.deep_view() == seq!["config"@, "--worktree"@, "submodule."@ + name@ + ".active"@, "false"@],
{
    let r = vec![owned("config"), owned("--worktree"), concat3("submodule.", name, ".active"), owned("false")];
    assert(r.deep_view() =~= seq!["config"@, "--worktree"@, "submodule."@ + name@ + ".active"@, "false"@]);
    r
}

/// Attach `target` as a detached worktree of the shared submodule gitdir,
/// at the pinned commit.
pub fn attach_submodule_args(subgit: &str, target: &str, pin: &str) -> (r: Vec<String>)
    ensures
        r.deep_view() == with_gitdir(subgit@, seq!["worktree"@, "add"@, "--detach"@, target@, pin@]),
{
    let args = vec![owned("worktree"), owned("add"), owned("--detach"), owned(target), owned(pin)];
    assert(args.deep_view() =~= seq!["worktree"@, "add"@, "--detach"@, target@, pin@]);
    gitdir_args(subgit, args)
}

/// Detach a workset's submodule checkout from the shared gitdir.
pub fn detach_submodule_worktree(subgit: &str, target: &str) -> (r: Vec<String>)
    ensures
        r.deep_view() == with_gitdir(subgit@, seq!["worktree"@, "remove"@, "--force"@, target@]),
{
    let args = vec![owned("worktree"), owned("remove"), owned("--force"), owned(target)];
    assert(args.deep_view() =~= seq!["worktree"@, "remove"@, "--force"@, target@]);
    gitdir_args(subgit, args)
}

/// Clear stale worktree registrations of a gitdir.
pub fn prune_args(subgit: &str) -> (r: Vec<String>)
    ensures
        r.deep_view() == with_gitdir(subgit@, seq!["worktree"@, "prune"@]),
{
    let args = vec![owned("worktree"), owned("prune")];
    assert(args.deep_view() =~= seq!["worktree"@, "prune"@]);
    gitdir_args(subgit, args)
}

/// Fetch a pinned commit the shared store lacks: `fetch [--depth 1] origin <pin>`.
pub fn fetch_pin_args(subgit: &str, pin: &str, shallow: bool) -> (r: Vec<String>)
    ensures
        r.deep_view() == with_gitdir(
            subgit@,
            seq!["fetch"@] + (if shallow { seq!["--depth"@, "1"@] } else { Seq::<Seq<char>>::empty() })
                + seq!["origin"@, pin@],
        ),
{
    let mut args = vec![owned("fetch")];
    if shallow {
        args.push(owned("--depth"));
        args.push(owned("1"));
    }
    args.push(owned("origin"));
    args.push(owned(pin));
    assert(args.deep_view() =~= seq!["fetch"@] + (if shallow {
        seq!["--depth"@, "1"@]
    } else {
        Seq::<Seq<char>>::empty()
    }) + seq!["origin"@, pin@]);
    gitdir_args(subgit, args)
}

// ---------------------------------------------------------------------------
// Hardening a submodule gitdir's configuration
// ---------------------------------------------------------------------------

/// The two configuration files of a submodule gitdir.
#[derive(Clone, Copy, Debug, PartialEq, Eq, Structural)]
pub enum ConfigFile {
    /// `config`, read by every checkout of the gitdir.
    Shared,
    /// `config.worktree`, read by the main checkout once
    /// `extensions.worktreeConfig` is on.
    PerWorktree,
}

/// One change to a configuration file.
pub enum ConfigEdit {
    Assign { file: ConfigFile, key: String, value: String },
    Unset { file: ConfigFile, key: String },
}

pub enum ConfigEditView {
    Assign { file: ConfigFile, key: Seq<char>, value: Seq<char> },
    Unset { file: ConfigFile, key: Seq<char> },
}

impl View for ConfigEdit {
    type V = ConfigEditView;

    open spec fn view(&self) -> ConfigEditView {
        match self {
            ConfigEdit::Assign { file, key, value } => ConfigEditView::Assign { file: *file, key: key@, value: value@ },
            ConfigEdit::Unset { file, key } => ConfigEditView::Unset { file: *file, key: key@ },
        }
    }
}

pub open spec fn edits_view(edits: Seq<ConfigEdit>) -> Seq<ConfigEditView> {
    edits.map_values(|e: ConfigEdit| e@)
}

/// The edit that pins a checkout to its own absolute path: `core.worktree`
/// in its per-worktree config.
pub fn own_core_worktree_edit(checkout: &str) -> (e: ConfigEdit)
    ensures
        e@ == (ConfigEditView::Assign { file: ConfigFile::PerWorktree, key: "core.worktree"@, value: checkout@ }),
{
    ConfigEdit::Assign { file: ConfigFile::PerWorktree, key: owned("core.worktree"), value: owned(checkout) }
}

/// The settings of a submodule gitdir that decide where its main checkout
/// is: `extensions.worktreeConfig` and `core.worktree` in the shared config,
/// and `core.worktree` in the per-worktree config; each as `git config
/// --get` reads it (an empty value reads as absent).
pub struct GitdirSettings {
    pub worktree_config: Option<Seq<char>>,
    pub shared_core_worktree: Option<Seq<char>>,
    pub own_core_worktree: Option<Seq<char>>,
}

/// A value as it reads back after being written.
pub open spec fn read_back(v: Seq<char>) -> Option<Seq<char>> {
    if v.len() == 0 {
        None
    } else {
        Some(v)
    }
}

/// The settings after one edit.
pub open spec fn apply_edit(s: GitdirSettings, e: ConfigEditView) -> GitdirSettings {
    match e {
        ConfigEditView::Assign { file, key, value } => if file == ConfigFile::Shared && key
            == "extensions.worktreeConfig"@ {
            GitdirSettings { worktree_config: read_back(value), ..s }
        } else if file == ConfigFile::Shared && key == "core.worktree"@ {
            GitdirSettings { shared_core_worktree: read_back(value), ..s }
        } else if file == ConfigFile::PerWorktree && key == "core.worktree"@ {
            GitdirSettings { own_core_worktree: read_back(value), ..s }
        } else {
            s
        },
        ConfigEditView::Unset { file, key } => if file == ConfigFile::Shared && key
            == "extensions.worktreeConfig"@ {
            GitdirSettings { worktree_config: None, ..s }
        } else if file == ConfigFile::Shared && key == "core.worktree"@ {
            GitdirSettings { shared_core_worktree: None, ..s }
        } else if file == ConfigFile::PerWorktree && key == "core.worktree"@ {
            GitdirSettings { own_core_worktree: None, ..s }
        } else {
            s
        },
    }
}

/// The settings after a sequence of edits, in order.
pub open spec fn apply_edits(s: GitdirSettings, edits: Seq<ConfigEditView>) -> GitdirSettings
    decreases edits.len(),
{
    if edits.len() == 0 {
        s
    } else {
        apply_edit(apply_edits(s, edits.drop_last()), edits.last())
    }
}

/// The `core.worktree` git uses for the main checkout: the per-worktree
/// value when `extensions.worktreeConfig` is `true` and that value is set,
/// otherwise the shared one.
pub open spec fn effective_worktree(s: GitdirSettings) -> Option<Seq<char>> {
    if s.worktree_config == Some("true"@) && s.own_core_worktree is Some {
        s.own_core_worktree
    } else {
        s.shared_core_worktree
    }
}

/// Move `core.worktree` out of the shared config into the per-worktree one:
/// enable worktree config, copy the shared value over unless a per-worktree
/// value exists (or, when there is no value anywhere, record the main
/// checkout's path), and drop the shared value.
pub open spec fn harden_plan(
    shared_core_worktree: Option<Seq<char>>,
    own_core_worktree: Option<Seq<char>>,
    main_worktree: Option<Seq<char>>,
) -> Seq<ConfigEditView> {
    let enable = ConfigEditView::Assign {
        file: ConfigFile::Shared,
        key: "extensions.worktreeConfig"@,
        value: "true"@,
    };
    let rest: Seq<ConfigEditView> = match shared_core_worktree {
        Some(v) => {
            let copy: Seq<ConfigEditView> = if own_core_worktree is None {
                seq![ConfigEditView::Assign { file: ConfigFile::PerWorktree, key: "core.worktree"@, value: v }]
            } else {
                Seq::empty()
            };
            copy + seq![ConfigEditView::Unset { file: ConfigFile::Shared, key: "core.worktree"@ }]
        },
        None => if own_core_worktree is None && main_worktree is Some {
            seq![
                ConfigEditView::Assign {
                    file: ConfigFile::PerWorktree,
                    key: "core.worktree"@,
                    value: main_worktree->Some_0,
                },
            ]
        } else {
            Seq::empty()
        },
    };
    seq![enable] + rest
}

/// A gitdir without a shared `config` file is not a git directory.
#[derive(Debug)]
pub enum HardenError {
    NotAGitDir,
}

/// The edits that harden a submodule gitdir, from what its configuration
/// reads now. `main_worktree` is the absolute path of the main checkout when
/// one is given and exists.
pub fn harden_submodule_config(
    shared_config_exists: bool,
    shared_core_worktree: Option<String>,
    own_core_worktree: Option<String>,
    main_worktree: Option<String>,
) -> (r: Result<Vec<ConfigEdit>, HardenError>)
    ensures
        !shared_config_exists <==> r is Err,
        r matches Ok(edits) ==> edits_view(edits@) == harden_plan(
            crate::config::opt_text(shared_core_worktree),
            crate::config::opt_text(own_core_worktree),
            crate::config::opt_text(main_worktree),
        ),
{
    if !shared_config_exists {
        return Err(HardenError::NotAGitDir);
    }
    let mut edits = vec![
        ConfigEdit::Assign {
            file: ConfigFile::Shared,
            key: owned("extensions.worktreeConfig"),
            value: owned("true"),
        },
    ];
    let ghost first = edits_view(edits@);
    match shared_core_worktree {
        Some(v) => {
            if own_core_worktree.is_none() {
                edits.push(ConfigEdit::Assign { file: ConfigFile::PerWorktree, key: owned("core.worktree"), value: v });
            }
            edits.push(ConfigEdit::Unset { file: ConfigFile::Shared, key: owned("core.worktree") });
        },
        None => {
            if own_core_worktree.is_none() {
                if let Some(m) = main_worktree {
                    edits.push(
                        ConfigEdit::Assign { file: ConfigFile::PerWorktree, key: owned("core.worktree"), value: m },
                    );
                }
            }
        },
    }
    proof {
        assert(edits_view(edits@) =~~= harden_plan(
            crate::config::opt_text(shared_core_worktree),
            crate::config::opt_text(own_core_worktree),
            crate::config::opt_text(main_worktree),
        ));
    }
    Ok(edits)
}

/// The settings after hardening with `main_worktree` as the main checkout.
pub open spec fn hardened(s: GitdirSettings, main_worktree: Option<Seq<char>>) -> GitdirSettings {
    apply_edits(s, harden_plan(s.shared_core_worktree, s.own_core_worktree, main_worktree))
}

/// The one case in which hardening twice differs from hardening once: the
/// shared config holds an empty `core.worktree` (which, copied over, reads
/// as absent), the checkout has no value of its own, and a main checkout
/// path is given, so that the second run records that path. `git config
/// --get` never reads an empty value (see `config_value`), so settings read
/// from a gitdir are never in this case.
pub open spec fn empty_shared_value_case(s: GitdirSettings, main_worktree: Option<Seq<char>>) -> bool {
    &&& s.shared_core_worktree == Some(Seq::<char>::empty())
    &&& s.own_core_worktree is None
    &&& main_worktree matches Some(m) && m.len() > 0
}

/// Hardening an already hardened gitdir again (it still has its shared
/// config, so that call succeeds) changes nothing, and each run turns
/// worktree config on and leaves no `core.worktree` in the shared config.
pub proof fn law_hardening_is_idempotent(s: GitdirSettings, main_worktree: Option<Seq<char>>)
    requires
        !empty_shared_value_case(s, main_worktree),
    ensures
        ({
            let h = hardened(s, main_worktree);
            &&& h.shared_core_worktree is None
            &&& h.worktree_config == Some("true"@)
            &&& hardened(h, main_worktree) == h
        }),
{
    lemma_harden_outcome(s, main_worktree);
    let h = hardened(s, main_worktree);
    lemma_harden_outcome(h, main_worktree);
    let h2 = hardened(h, main_worktree);
    if h.own_core_worktree is None {
        if let Some(v) = s.shared_core_worktree {
            assert(v =~= Seq::<char>::empty());
        }
        if let Some(m) = main_worktree {
            assert(read_back(m) is None);
        }
    }
    assert(h2.own_core_worktree == h.own_core_worktree);
    assert(h2 == h);
}

/// Hardening pins the main checkout to the value it resolved to before: its
/// own value if it had one, else the shared one, else `main_worktree`; and
/// git then resolves it to that value. This holds unless the value copied
/// or recorded is empty (an empty value reads as absent).
pub proof fn law_hardening_pins_main_checkout(s: GitdirSettings, main_worktree: Option<Seq<char>>)
    requires
        s.own_core_worktree is None ==> (s.shared_core_worktree matches Some(v) ==> v.len() > 0),
        s.own_core_worktree is None && s.shared_core_worktree is None ==> (main_worktree matches Some(m)
            ==> m.len() > 0),
    ensures
        ({
            let h = hardened(s, main_worktree);
            &&& h.own_core_worktree == (if s.own_core_worktree is Some {
                s.own_core_worktree
            } else if s.shared_core_worktree is Some {
                s.shared_core_worktree
            } else {
                main_worktree
            })
            &&& effective_worktree(h) == h.own_core_worktree
        }),
{
    lemma_harden_outcome(s, main_worktree);
}

/// What one run of hardening leaves, case by case.
proof fn lemma_harden_outcome(s: GitdirSettings, main_worktree: Option<Seq<char>>)
    ensures
        ({
            let h = hardened(s, main_worktree);
            &&& h.shared_core_worktree is None
            &&& h.worktree_config == Some("true"@)
            &&& h.own_core_worktree == (if s.own_core_worktree is Some {
                s.own_core_worktree
            } else if s.shared_core_worktree is Some {
                read_back(s.shared_core_worktree->Some_0)
            } else if main_worktree is Some {
                read_back(main_worktree->Some_0)
            } else {
                None
            })
        }),
{
    reveal_strlit("true");
    reveal_strlit("core.worktree");
    reveal_strlit("extensions.worktreeConfig");
    assert("core.worktree"@ != "extensions.worktreeConfig"@) by {
        assert("core.worktree"@.len() != "extensions.worktreeConfig"@.len());
    }
    assert(read_back("true"@) == Some("true"@)) by {
        assert("true"@.len() == 4);
    }
    let plan = harden_plan(s.shared_core_worktree, s.own_core_worktree, main_worktree);
    lemma_apply_edits_unfold(s, plan);
    let s1 = apply_edit(s, plan[0]);
    assert(s1.worktree_config == Some("true"@));
    assert(s1.shared_core_worktree == s.shared_core_worktree);
    assert(s1.own_core_worktree == s.own_core_worktree);
    match s.shared_core_worktree {
        Some(v) => {
            if s.own_core_worktree is None {
                assert(plan.len() == 3);
                let s2 = apply_edit(s1, plan[1]);
                assert(s2.own_core_worktree == read_back(v));
                assert(s2.worktree_config == Some("true"@));
            } else {
                assert(plan.len() == 2);
            }
        },
        None => {
            if s.own_core_worktree is None && main_worktree is Some {
                assert(plan.len() == 2);
            } else {
                assert(plan.len() == 1);
            }
        },
    }
}

/// `apply_edits` over plans of up to three edits, spelled out.
pub proof fn lemma_apply_edits_unfold(s: GitdirSettings, edits: Seq<ConfigEditView>)
    requires
        edits.len() <= 3,
    ensures
        edits.len() == 0 ==> apply_edits(s, edits) == s,
        edits.len() == 1 ==> apply_edits(s, edits) == apply_edit(s, edits[0]),
        edits.len() == 2 ==> apply_edits(s, edits) == apply_edit(apply_edit(s, edits[0]), edits[1]),
        edits.len() == 3 ==> apply_edits(s, edits) == apply_edit(
            apply_edit(apply_edit(s, edits[0]), edits[1]),
            edits[2],
        ),
{
    reveal_with_fuel(apply_edits, 4);
    if edits.len() == 1 {
        assert(edits.drop_last() =~= Seq::<ConfigEditView>::empty());
    } else if edits.len() == 2 {
        assert(edits.drop_last().drop_last() =~= Seq::<ConfigEditView>::empty());
    } else if edits.len() == 3 {
        assert(edits.drop_last().drop_last().drop_last() =~= Seq::<ConfigEditView>::empty());
    }
}

/// The `core.worktree` value git will use for a checkout, from the values
/// `git config --get` reads: `extensions.worktreeConfig` in the shared config,
/// `core.worktree` in the checkout's per-worktree config, and `core.worktree`
/// in the shared config.
pub fn effective_core_worktree(
    worktree_config: Option<String>,
    own: Option<String>,
    shared: Option<String>,
) -> (r: Option<String>)
    ensures
        crate::config::opt_text(r) == effective_worktree(
            GitdirSettings {
                worktree_config: crate::config::opt_text(worktree_config),
                shared_core_worktree: crate::config::opt_text(shared),
                own_core_worktree: crate::config::opt_text(own),
            },
        ),
{
    let enabled = match &worktree_config {
        Some(v) => same_text(v.as_str(), "true"),
        None => false,
    };
    if enabled && own.is_some() {
        own
    } else {
        shared
    }
}

} // verus!

verus! {

/// Why a worktree is not removed: it has uncommitted changes (its `git
/// status --porcelain` output is not blank) and removal was not forced.
pub fn removal_refusal(force: bool, status_output: &str, worktree: &str) -> (r: Option<String>)
    ensures
        r is Some <==> (!force && !crate::text::is_blank(status_output@)),
        r matches Some(m) ==> m@ == worktree@
            + " contains modified or untracked files. Commit or stash them, or re-run with --force."@,
{
    if force || crate::text::text_is_blank(status_output) {
        None
    } else {
        Some(crate::text::concat2(
            worktree,
            " contains modified or untracked files. Commit or stash them, or re-run with --force.",
        ))
    }
}

/// Why an isolated submodule clone is not migrated to the shared store: it
/// has local modifications.
pub open spec fn migration_refusal_text(sub_path: Seq<char>, checkout: Seq<char>) -> Seq<char> {
    "submodule '"@ + sub_path + "' has local modifications in "@ + checkout
        + " and cannot be migrated to a shared object store.\nCommit or stash them, or re-run with --isolated-submodules."@
}

pub fn migration_refusal(sub_path: &str, checkout: &str) -> (m: String)
    ensures
        m@ == migration_refusal_text(sub_path@, checkout@),
{
    let mut m = concat3("submodule '", sub_path, "' has local modifications in ");
    m.append(checkout);
    m.append(
        " and cannot be migrated to a shared object store.\nCommit or stash them, or re-run with --isolated-submodules.",
    );
    m
}

/// A path without the `\\?\` verbatim prefix that Windows' canonical paths
/// carry and git does not understand; `\\?\UNC\` paths, which have no plain
/// form, are kept as they are.
pub open spec fn plain_path(path: Seq<char>) -> Seq<char> {
    match crate::text::strip_prefix(path, "\\\\?\\"@) {
        Some(rest) => if "UNC\\"@.is_prefix_of(rest) {
            path
        } else {
            rest
        },
        None => path,
    }
}

pub fn strip_verbatim(path: &str) -> (r: String)
    ensures
        r@ == plain_path(path@),
{
    match crate::text::text_strip_prefix(path, "\\\\?\\") {
        Some(rest) => {
            if crate::text::text_starts_with(rest.as_str(), "UNC\\") {
                owned(path)
            } else {
                rest
            }
        },
        None => owned(path),
    }
}

/// The duplicates as plain values: `(submodule path, checkout shown, dirty)`.
pub open spec fn duplicates_view(d: Seq<(String, String, bool)>) -> Seq<(Seq<char>, Seq<char>, bool)> {
    d.map_values(|t: (String, String, bool)| (t.0@, t.1@, t.2))
}

/// The refusal for the first dirty duplicate at or after `i`, if any.
pub open spec fn first_refusal(d: Seq<(Seq<char>, Seq<char>, bool)>, i: int) -> Option<Seq<char>>
    decreases d.len() - i,
{
    if i < 0 || i >= d.len() {
        None
    } else if d[i].2 {
        Some(migration_refusal_text(d[i].0, d[i].1))
    } else {
        first_refusal(d, i + 1)
    }
}

/// Before anything is deleted, shared mode refuses to migrate isolated
/// clones when one of them has local modifications. Each duplicate is
/// `(submodule path, checkout shown to the user, dirty)`; the refusal names
/// the first dirty one. Isolated mode migrates nothing and refuses nothing.
pub fn migration_check(mode: SubmoduleSharing, duplicates: &Vec<(String, String, bool)>) -> (r: Option<String>)
    ensures
        r is Some <==> (mode == SubmoduleSharing::Shared && exists|i: int|
            0 <= i < duplicates@.len() && (#[trigger] duplicates@[i]).2),
        r matches Some(m) ==> exists|i: int|
            0 <= i < duplicates@.len() && (#[trigger] duplicates@[i]).2 && (forall|j: int|
                0 <= j < i ==> !duplicates@[j].2) && m@ == migration_refusal_text(
                duplicates@[i].0@,
                duplicates@[i].1@,
            ),
        crate::config::opt_text(r) == (if mode == SubmoduleSharing::Shared {
            first_refusal(duplicates_view(duplicates@), 0)
        } else {
            None
        }),
{
    if mode != SubmoduleSharing::Shared {
        return None;
    }
    let ghost dv = duplicates_view(duplicates@);
    let n = duplicates.len();
    for i in 0..n
        invariant
            n == duplicates@.len(),
            dv == duplicates_view(duplicates@),
            mode == SubmoduleSharing::Shared,
            forall|j: int| 0 <= j < i ==> !duplicates@[j].2,
            first_refusal(dv, 0) == first_refusal(dv, i as int),
    {
        assert(dv[i as int] == (duplicates@[i as int].0@, duplicates@[i as int].1@, duplicates@[i as int].2));
        if duplicates[i].2 {
            let m = migration_refusal(duplicates[i].0.as_str(), duplicates[i].1.as_str());
            assert(duplicates@[i as int].2);
            return Some(m);
        }
    }
    None
}

/// The counts before any wanted submodule is handled: only the skipped ones.
pub fn start_outcome(skipped: usize) -> (r: SubmoduleOutcome)
    ensures
        r.shared == 0,
        r.cloned == 0,
        r.skipped == skipped,
{
    SubmoduleOutcome { shared: 0, cloned: 0, skipped }
}

/// Record one attempt to share a submodule: a success counts as shared; a
/// failure sends that submodule, and only it, to the isolated clones.
pub fn record_share_result(outcome: SubmoduleOutcome, isolated: Vec<String>, path: String, shared: bool) -> (r: (
    SubmoduleOutcome,
    Vec<String>,
))
    requires
        outcome.shared < usize::MAX,
    ensures
        r.0.shared == outcome.shared + (if shared { 1int } else { 0int }),
        r.0.cloned == outcome.cloned,
        r.0.skipped == outcome.skipped,
        r.1.deep_view() == (if shared { isolated.deep_view() } else { isolated.deep_view().push(path@) }),
{
    let mut isolated = isolated;
    if shared {
        (SubmoduleOutcome { shared: outcome.shared + 1, cloned: outcome.cloned, skipped: outcome.skipped }, isolated)
    } else {
        let ghost before = isolated.deep_view();
        isolated.push(path);
        assert(isolated.deep_view() =~= before.push(path@));
        (outcome, isolated)
    }
}

/// Record the isolated clones made for the submodules that were not shared.
pub fn record_clones(outcome: SubmoduleOutcome, cloned: usize) -> (r: SubmoduleOutcome)
    requires
        outcome.cloned + cloned <= usize::MAX,
    ensures
        r.shared == outcome.shared,
        r.cloned == outcome.cloned + cloned,
        r.skipped == outcome.skipped,
{
    SubmoduleOutcome { shared: outcome.shared, cloned: outcome.cloned + cloned, skipped: outcome.skipped }
}

/// The shared count and isolated paths after a sequence of share attempts
/// `(path, succeeded)`, from `(shared, isolated)`.
pub open spec fn after_share_attempts(
    shared: nat,
    isolated: Seq<Seq<char>>,
    attempts: Seq<(Seq<char>, bool)>,
) -> (nat, Seq<Seq<char>>)
    decreases attempts.len(),
{
    if attempts.len() == 0 {
        (shared, isolated)
    } else {
        let (s, i) = after_share_attempts(shared, isolated, attempts.drop_last());
        let (p, ok) = attempts.last();
        if ok {
            (s + 1, i)
        } else {
            (s, i.push(p))
        }
    }
}

proof fn lemma_share_attempts_account(attempts: Seq<(Seq<char>, bool)>)
    ensures
        after_share_attempts(0, Seq::empty(), attempts).0 + after_share_attempts(0, Seq::empty(), attempts).1.len()
            == attempts.len(),
        forall|k: int|
            0 <= k < attempts.len() && !(#[trigger] attempts[k]).1 ==> after_share_attempts(
                0,
                Seq::empty(),
                attempts,
            ).1.contains(attempts[k].0),
        forall|p: Seq<char>|
            #[trigger] after_share_attempts(0, Seq::empty(), attempts).1.contains(p) ==> exists|k: int|
                0 <= k < attempts.len() && !attempts[k].1 && attempts[k].0 == p,
    decreases attempts.len(),
{
    if attempts.len() > 0 {
        let rest = attempts.drop_last();
        lemma_share_attempts_account(rest);
        let (s, i) = after_share_attempts(0, Seq::empty(), rest);
        let (p, ok) = attempts.last();
        assert forall|k: int|
            0 <= k < attempts.len() && !(#[trigger] attempts[k]).1 implies after_share_attempts(
            0,
            Seq::empty(),
            attempts,
        ).1.contains(attempts[k].0) by {
            if k < attempts.len() - 1 {
                assert(rest[k] == attempts[k]);
                let t = choose|t: int| 0 <= t < i.len() && i[t] == rest[k].0;
                if !ok {
                    assert(i.push(p)[t] == attempts[k].0);
                }
            } else {
                assert(i.push(p)[i.len() as int] == p);
            }
        }
        assert forall|q: Seq<char>| #[trigger] after_share_attempts(0, Seq::empty(), attempts).1.contains(q) implies exists|k: int|
            0 <= k < attempts.len() && !attempts[k].1 && attempts[k].0 == q by {
            let out = after_share_attempts(0, Seq::empty(), attempts).1;
            let t = choose|t: int| 0 <= t < out.len() && out[t] == q;
            if t < i.len() {
                assert(i.contains(q));
                let k = choose|k: int| 0 <= k < rest.len() && !rest[k].1 && rest[k].0 == q;
                assert(attempts[k] == rest[k]);
            } else {
                assert(attempts[attempts.len() - 1] == (p, ok));
            }
        }
    }
}

/// Every submodule is accounted for once: the outcome starts at the skipped
/// count (`start_outcome`), each wanted submodule's share attempt is
/// recorded (`record_share_result`; in isolated mode every attempt counts as
/// failed), and the isolated paths are then cloned (`record_clones`). The
/// skipped, shared and cloned counts add up to the number of submodules, and
/// the clones are exactly the submodules whose sharing failed.
pub proof fn law_every_submodule_is_counted_once(
    entries: Seq<(Seq<char>, Seq<char>)>,
    skip: Seq<Seq<char>>,
    attempts: Seq<(Seq<char>, bool)>,
)
    requires
        attempts.len() == entries.filter(wanted_by(skip)).len(),
    ensures
        ({
            let (shared, isolated) = after_share_attempts(0, Seq::empty(), attempts);
            let skipped = entries.filter(skipped_by(skip)).len();
            let cloned = isolated.len();
            &&& skipped + shared + cloned == entries.len()
            &&& forall|k: int| 0 <= k < attempts.len() && !(#[trigger] attempts[k]).1 ==> isolated.contains(attempts[k].0)
            &&& forall|p: Seq<char>| #[trigger] isolated.contains(p) ==> exists|k: int|
                0 <= k < attempts.len() && !attempts[k].1 && attempts[k].0 == p
        }),
{
    law_partition_is_complete(entries, skip);
    lemma_share_attempts_account(attempts);
}

/// Where a submodule's shared gitdir is found: the main worktree's checkout
/// of it, else the gitdir under the main clone's `modules/` (the checkout
/// may have been deinitialized), else it is initialized there first.
#[derive(Clone, Copy, Debug, PartialEq, Eq, Structural)]
pub enum GitdirSource {
    MainCheckout,
    ModulesDir,
    Initialize,
}

pub fn choose_gitdir_source(checkout_gitdir_has_head: bool, modules_dir_has_head: bool) -> (r: GitdirSource)
    ensures
        r == (if checkout_gitdir_has_head {
            GitdirSource::MainCheckout
        } else if modules_dir_has_head {
            GitdirSource::ModulesDir
        } else {
            GitdirSource::Initialize
        }),
{
    if checkout_gitdir_has_head {
        GitdirSource::MainCheckout
    } else if modules_dir_has_head {
        GitdirSource::ModulesDir
    } else {
        GitdirSource::Initialize
    }
}

/// How a wanted submodule is attached to the shared store: a checkout that
/// already is a worktree of the shared gitdir is kept (and re-hardened); an
/// isolated clone left in the worktree's gitdir is removed first; otherwise
/// the checkout is attached directly.
#[derive(Clone, Copy, Debug, PartialEq, Eq, Structural)]
pub enum ShareStep {
    Reuse,
    MigrateThenAttach,
    Attach,
}

pub fn choose_share_step(already_shared: bool, isolated_clone_present: bool) -> (r: ShareStep)
    ensures
        r == (if already_shared {
            ShareStep::Reuse
        } else if isolated_clone_present {
            ShareStep::MigrateThenAttach
        } else {
            ShareStep::Attach
        }),
{
    if already_shared {
        ShareStep::Reuse
    } else if isolated_clone_present {
        ShareStep::MigrateThenAttach
    } else {
        ShareStep::Attach
    }
}

/// The `k`-th fetch tried for a pinned commit missing from the shared store:
/// first the commit itself, then (as some servers refuse arbitrary ids)
/// everything from `origin`.
pub open spec fn pin_fetch(subgit: Seq<char>, pin: Seq<char>, shallow: bool, k: int) -> Seq<Seq<char>> {
    if k == 0 {
        with_gitdir(
            subgit,
            seq!["fetch"@] + (if shallow { seq!["--depth"@, "1"@] } else { Seq::<Seq<char>>::empty() })
                + seq!["origin"@, pin],
        )
    } else {
        with_gitdir(subgit, seq!["fetch"@, "origin"@])
    }
}

/// The fetches tried, in order, for a pinned commit missing from the shared
/// store.
pub fn pin_fetch_attempts(subgit: &str, pin: &str, shallow: bool) -> (r: Vec<Vec<String>>)
    ensures
        r.len() == 2,
        r@[0].deep_view() == pin_fetch(subgit@, pin@, shallow, 0),
        r@[1].deep_view() == pin_fetch(subgit@, pin@, shallow, 1),
{
    let first = fetch_pin_args(subgit, pin, shallow);
    let all = vec![owned("fetch"), owned("origin")];
    assert(all.deep_view() =~= seq!["fetch"@, "origin"@]);
    let second = gitdir_args(subgit, all);
    vec![first, second]
}

/// The next step in making a pinned commit present in the shared store.
pub enum PinStep {
    /// The commit is there.
    Present,
    /// Run this fetch, then look again.
    Fetch(Vec<String>),
    /// Both fetches were tried and the commit is still missing.
    Unavailable(String),
}

/// After `fetches_done` fetches, with `present` telling whether the commit
/// is now in the store: stop if it is, else run the next fetch, else give up
/// with `commit <pin> is not available in the submodule remote`.
pub fn pin_step(subgit: &str, pin: &str, shallow: bool, fetches_done: usize, present: bool) -> (r: PinStep)
    ensures
        present <==> r is Present,
        !present && fetches_done < 2 ==> (r matches PinStep::Fetch(args) && args.deep_view() == pin_fetch(
            subgit@,
            pin@,
            shallow,
            fetches_done as int,
        )),
        !present && fetches_done >= 2 ==> (r matches PinStep::Unavailable(m) && m@ == "commit "@ + pin@
            + " is not available in the submodule remote"@),
{
    if present {
        PinStep::Present
    } else if fetches_done < 2 {
        let mut attempts = pin_fetch_attempts(subgit, pin, shallow);
        let args = attempts.remove(fetches_done);
        PinStep::Fetch(args)
    } else {
        PinStep::Unavailable(concat3("commit ", pin, " is not available in the submodule remote"))
    }
}

/// What is undone when attaching a checkout fails, so that nothing half
/// attached is left for the isolated fallback: the worktree is removed from
/// the shared gitdir and its registrations pruned (failures ignored).
pub fn attach_rollback(subgit: &str, target: &str) -> (r: Vec<Vec<String>>)
    ensures
        r.len() == 2,
        r@[0].deep_view() == with_gitdir(subgit@, seq!["worktree"@, "remove"@, "--force"@, target@]),
        r@[1].deep_view() == with_gitdir(subgit@, seq!["worktree"@, "prune"@]),
{
    vec![detach_submodule_worktree(subgit, target), prune_args(subgit)]
}

/// Why a submodule's gitdir cannot be found through the main worktree.
pub fn not_checked_out_message(sub_path: &str) -> (m: String)
    ensures
        m@ == "submodule '"@ + sub_path@ + "' is not checked out in the main worktree"@,
{
    concat3("submodule '", sub_path, "' is not checked out in the main worktree")
}

} // verus!
