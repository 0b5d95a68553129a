//! The git invocations behind each operation, as argument lists. Running them
//! is left to the caller; these functions decide what is run, in which order,
//! and which failures are tolerated.
use vstd::prelude::*;

use crate::config::{Workset, WorksetView};
use crate::text::{concat2, concat3, decimal, decimal_string, join, owned, seq_join};

verus! {

/// One git invocation: its arguments, and whether a failure is tolerated
/// rather than ending the operation.
pub struct GitCommand {
    pub args: Vec<String>,
    pub may_fail: bool,
}

#[verifier::ext_equal]
pub struct GitCommandView {
    pub args: Seq<Seq<char>>,
    pub may_fail: bool,
}

impl View for GitCommand {
    type V = GitCommandView;

    open spec fn view(&self) -> GitCommandView {
        GitCommandView { args: self.args.deep_view(), may_fail: self.may_fail }
    }
}

pub open spec fn commands_view(cmds: Seq<GitCommand>) -> Seq<GitCommandView> {
    cmds.map_values(|c: GitCommand| c@)
}

/// A command whose failure ends the operation.
pub open spec fn required(args: Seq<Seq<char>>) -> GitCommandView {
    GitCommandView { args, may_fail: false }
}

/// A command whose failure is ignored.
pub open spec fn optional(args: Seq<Seq<char>>) -> GitCommandView {
    GitCommandView { args, may_fail: true }
}

/// Arguments that address git at an explicit gitdir.
pub open spec fn with_gitdir(gitdir: Seq<char>, args: Seq<Seq<char>>) -> Seq<Seq<char>> {
    seq!["--git-dir"@, gitdir] + args
}

/// Prefix `args` with `--git-dir <gitdir>`. Submodule gitdirs are addressed
/// this way so the commands work even when the main checkout of the
/// submodule is missing.
pub fn gitdir_args(gitdir: &str, args: Vec<String>) -> (r: Vec<String>)
    ensures
        r.deep_view() == with_gitdir(gitdir@, args.deep_view()),
{
    let mut r = vec![owned("--git-dir"), owned(gitdir)];
    let ghost start = r.deep_view();
    let mut args = args;
    let ghost rest = args.deep_view();
    r.append(&mut args);
    proof {
        assert(r.deep_view() =~= start + rest);
        assert(start =~= seq!["--git-dir"@, gitdir@]);
    }
    r
}

// ---------------------------------------------------------------------------
// Sparse checkout
// ---------------------------------------------------------------------------

/// Cone mode is used when the profile asks for it and excludes nothing.
pub open spec fn cone_mode(w: WorksetView) -> bool {
    w.sparse_cone && w.exclude.len() == 0
}

/// The negated pattern that removes directory `dir` in non-cone mode.
pub open spec fn exclusion_pattern(dir: Seq<char>) -> Seq<char> {
    "!/"@ + dir + "/"@
}

/// The sparse-checkout patterns of a profile: its directories, then, when it
/// excludes anything, a catch-all `/*` if it names no directories, and a
/// negated pattern per excluded directory.
pub open spec fn sparse_patterns(w: WorksetView) -> Seq<Seq<char>> {
    if w.exclude.len() == 0 {
        w.include_dirs
    } else {
        let catch_all: Seq<Seq<char>> = if w.include_dirs.len() == 0 {
            seq!["/*"@]
        } else {
            Seq::empty()
        };
        w.include_dirs + catch_all + w.exclude.map_values(|d: Seq<char>| exclusion_pattern(d))
    }
}

/// The cone mode and the patterns for `git sparse-checkout set`.
pub fn build_sparse_args(workset: &Workset) -> (r: (bool, Vec<String>))
    ensures
        r.0 == cone_mode(workset@),
        r.1.deep_view() == sparse_patterns(workset@),
{
    let use_cone = workset.sparse_cone && workset.exclude.len() == 0;
    let mut patterns = crate::config::copy_strings(&workset.include_dirs);
    if workset.exclude.len() > 0 {
        if patterns.len() == 0 {
            patterns.push(owned("/*"));
        }
        let ghost base = patterns.deep_view();
        let n = workset.exclude.len();
        for i in 0..n
            invariant
                n == workset.exclude.len(),
                patterns.deep_view() == base + workset.exclude.deep_view().take(i as int).map_values(
                    |d: Seq<char>| exclusion_pattern(d),
                ),
        {
            let p = concat3("!/", workset.exclude[i].as_str(), "/");
            let ghost before = patterns.deep_view();
            patterns.push(p);
            assert(patterns.deep_view() =~= before.push(exclusion_pattern(workset.exclude.deep_view()[i as int])));
            proof {
                assert(workset.exclude.deep_view().take(i + 1).map_values(|d: Seq<char>| exclusion_pattern(d))
                    =~= workset.exclude.deep_view().take(i as int).map_values(
                    |d: Seq<char>| exclusion_pattern(d),
                ).push(exclusion_pattern(workset.exclude.deep_view()[i as int])));
                assert(patterns.deep_view() =~= base + workset.exclude.deep_view().take(i + 1).map_values(
                    |d: Seq<char>| exclusion_pattern(d),
                ));
            }
        }
        proof {
            assert(workset.exclude.deep_view().take(n as int) =~= workset.exclude.deep_view());
            if workset.include_dirs.len() == 0 {
                assert(base =~= workset.include_dirs.deep_view() + seq!["/*"@]);
            } else {
                assert(base =~= workset.include_dirs.deep_view() + Seq::<Seq<char>>::empty());
            }
        }
    }
    (use_cone, patterns)
}

/// `git sparse-checkout init` then `set`, for a profile that narrows the tree.
pub open spec fn sparse_setup(w: WorksetView) -> Seq<GitCommandView> {
    let init: Seq<Seq<char>> = if cone_mode(w) {
        seq!["sparse-checkout"@, "init"@, "--cone"@]
    } else {
        seq!["sparse-checkout"@, "init"@]
    };
    let tail: Seq<Seq<char>> = if cone_mode(w) { Seq::empty() } else { seq!["--no-cone"@] };
    seq![required(init), required(seq!["sparse-checkout"@, "set"@] + sparse_patterns(w) + tail)]
}

/// Does the profile narrow the tree at all?
pub open spec fn is_sparse(w: WorksetView) -> bool {
    w.include_dirs.len() > 0 || w.exclude.len() > 0
}

fn sparse_setup_commands(workset: &Workset) -> (r: Vec<GitCommand>)
    ensures
        commands_view(r@) == sparse_setup(workset@),
{
    let (use_cone, patterns) = build_sparse_args(workset);
    let init = if use_cone {
        vec![owned("sparse-checkout"), owned("init"), owned("--cone")]
    } else {
        vec![owned("sparse-checkout"), owned("init")]
    };
    let mut set = vec![owned("sparse-checkout"), owned("set")];
    let ghost head = set.deep_view();
    let mut patterns = patterns;
    let ghost pv = patterns.deep_view();
    set.append(&mut patterns);
    let ghost with_patterns = set.deep_view();
    if !use_cone {
        set.push(owned("--no-cone"));
    }
    let r = vec![GitCommand { args: init, may_fail: false }, GitCommand { args: set, may_fail: false }];
    proof {
        assert(with_patterns =~= head + pv);
        assert(head =~= seq!["sparse-checkout"@, "set"@]);
        let tail: Seq<Seq<char>> = if use_cone { Seq::empty() } else { seq!["--no-cone"@] };
        assert(r@[1]@.args =~= seq!["sparse-checkout"@, "set"@] + sparse_patterns(workset@) + tail);
        assert(commands_view(r@) =~~= sparse_setup(workset@));
    }
    r
}

/// The commands that apply a profile's sparse checkout to a worktree. A
/// profile that narrows nothing disables sparse checkout instead, tolerating
/// a failure (it may never have been enabled).
pub open spec fn sparse_checkout_plan(w: WorksetView) -> Seq<GitCommandView> {
    if is_sparse(w) {
        sparse_setup(w)
    } else {
        seq![optional(seq!["sparse-checkout"@, "disable"@])]
    }
}

pub fn apply_sparse_checkout(workset: &Workset) -> (r: Vec<GitCommand>)
    ensures
        commands_view(r@) == sparse_checkout_plan(workset@),
{
    if workset.include_dirs.len() == 0 && workset.exclude.len() == 0 {
        let r = vec![GitCommand { args: vec![owned("sparse-checkout"), owned("disable")], may_fail: true }];
        proof {
            assert(commands_view(r@) =~~= sparse_checkout_plan(workset@));
        }
        r
    } else {
        sparse_setup_commands(workset)
    }
}

/// A profile that narrows nothing turns sparse checkout off; one that
/// excludes directories uses non-cone mode with a negated pattern for each
/// excluded directory; every named directory is in the pattern set.
pub proof fn law_sparse_checkout_shapes(w: WorksetView)
    ensures
        !is_sparse(w) ==> sparse_checkout_plan(w) == seq![optional(seq!["sparse-checkout"@, "disable"@])],
        is_sparse(w) ==> sparse_checkout_plan(w).len() == 2 && !sparse_checkout_plan(w)[0].may_fail
            && !sparse_checkout_plan(w)[1].may_fail,
        is_sparse(w) && w.exclude.len() > 0 ==> {
            let set = sparse_checkout_plan(w)[1].args;
            &&& !cone_mode(w)
            &&& set.last() == "--no-cone"@
            &&& forall|i: int| 0 <= i < w.exclude.len() ==> set.contains(exclusion_pattern(#[trigger] w.exclude[i]))
        },
        is_sparse(w) ==> forall|i: int|
            0 <= i < w.include_dirs.len() ==> sparse_checkout_plan(w)[1].args.contains(#[trigger] w.include_dirs[i]),
{
    if is_sparse(w) {
        let tail: Seq<Seq<char>> = if cone_mode(w) { Seq::empty() } else { seq!["--no-cone"@] };
        let set = seq!["sparse-checkout"@, "set"@] + sparse_patterns(w) + tail;
        assert(sparse_checkout_plan(w)[1].args == set);
        assert forall|i: int| 0 <= i < w.include_dirs.len() implies set.contains(#[trigger] w.include_dirs[i]) by {
            assert(sparse_patterns(w)[i] == w.include_dirs[i]);
            assert(set[i + 2] == w.include_dirs[i]);
        }
        if w.exclude.len() > 0 {
            let catch_all: Seq<Seq<char>> = if w.include_dirs.len() == 0 { seq!["/*"@] } else { Seq::empty() };
            let negated = w.exclude.map_values(|d: Seq<char>| exclusion_pattern(d));
            assert forall|i: int| 0 <= i < w.exclude.len() implies set.contains(exclusion_pattern(#[trigger] w.exclude[i])) by {
                let at = 2 + w.include_dirs.len() + catch_all.len() + i;
                assert(negated[i] == exclusion_pattern(w.exclude[i]));
                assert(set[at] == exclusion_pattern(w.exclude[i]));
            }
        }
    }
}

/// The settings that keep a worktree's configuration to itself.
pub open spec fn worktree_config_plan() -> Seq<GitCommandView> {
    seq![
        required(seq!["config"@, "extensions.worktreeConfig"@, "true"@]),
        required(seq!["config"@, "--worktree"@, "fetch.recurseSubmodules"@, "on-demand"@]),
        required(seq!["config"@, "--worktree"@, "submodule.recurse"@, "false"@]),
    ]
}

/// Enable worktree-scoped config, and keep `fetch` from recursing into
/// submodules that are not active in this worktree.
pub fn enable_worktree_config() -> (r: Vec<GitCommand>)
    ensures
        commands_view(r@) == worktree_config_plan(),
{
    let r = vec![
        GitCommand { args: vec![owned("config"), owned("extensions.worktreeConfig"), owned("true")], may_fail: false },
        GitCommand {
            args: vec![owned("config"), owned("--worktree"), owned("fetch.recurseSubmodules"), owned("on-demand")],
            may_fail: false,
        },
        GitCommand {
            args: vec![owned("config"), owned("--worktree"), owned("submodule.recurse"), owned("false")],
            may_fail: false,
        },
    ];
    proof {
        assert(commands_view(r@) =~~= worktree_config_plan());
    }
    r
}

// ---------------------------------------------------------------------------
// LFS
// ---------------------------------------------------------------------------

/// Worktree-scoped LFS fetch filters from the profile's patterns, then an
/// `lfs pull` when there is any filter.
pub open spec fn lfs_plan(w: WorksetView) -> Seq<GitCommandView> {
    let fetch_in: Seq<GitCommandView> = if w.include_lfs.len() > 0 {
        seq![required(seq!["config"@, "--worktree"@, "lfs.fetchinclude"@, seq_join(w.include_lfs, ","@)])]
    } else {
        Seq::empty()
    };
    let fetch_out: Seq<GitCommandView> = if w.exclude_lfs.len() > 0 {
        seq![required(seq!["config"@, "--worktree"@, "lfs.fetchexclude"@, seq_join(w.exclude_lfs, ","@)])]
    } else {
        Seq::empty()
    };
    let pull: Seq<GitCommandView> = if w.include_lfs.len() > 0 || w.exclude_lfs.len() > 0 {
        seq![required(seq!["lfs"@, "pull"@])]
    } else {
        Seq::empty()
    };
    fetch_in + fetch_out + pull
}

/// The LFS content a profile asks for is pulled: the plan ends with a
/// required `lfs pull` exactly when the profile has an include or an
/// exclude pattern (either alone suffices), after one `config --worktree`
/// per non-empty pattern list; a profile with neither does nothing.
pub proof fn law_lfs_pull_follows_any_filter(w: WorksetView)
    ensures
        lfs_plan(w).len() > 0 <==> (w.include_lfs.len() > 0 || w.exclude_lfs.len() > 0),
        (w.include_lfs.len() > 0 || w.exclude_lfs.len() > 0) ==> lfs_plan(w).last() == required(
            seq!["lfs"@, "pull"@],
        ),
        lfs_plan(w).len() == (if w.include_lfs.len() > 0 { 1int } else { 0int }) + (if w.exclude_lfs.len() > 0 {
            1int
        } else {
            0int
        }) + (if w.include_lfs.len() > 0 || w.exclude_lfs.len() > 0 { 1int } else { 0int }),
        w.include_lfs.len() > 0 ==> lfs_plan(w)[0] == required(
            seq!["config"@, "--worktree"@, "lfs.fetchinclude"@, seq_join(w.include_lfs, ","@)],
        ),
        w.exclude_lfs.len() > 0 ==> lfs_plan(w)[if w.include_lfs.len() > 0 { 1int } else { 0int }] == required(
            seq!["config"@, "--worktree"@, "lfs.fetchexclude"@, seq_join(w.exclude_lfs, ","@)],
        ),
{
}

pub fn configure_lfs(workset: &Workset) -> (r: Vec<GitCommand>)
    ensures
        commands_view(r@) == lfs_plan(workset@),
{
    let mut r: Vec<GitCommand> = Vec::new();
    if workset.include_lfs.len() > 0 {
        let value = join(&workset.include_lfs, ",");
        r.push(
            GitCommand {
                args: vec![owned("config"), owned("--worktree"), owned("lfs.fetchinclude"), value],
                may_fail: false,
            },
        );
    }
    let ghost first = commands_view(r@);
    if workset.exclude_lfs.len() > 0 {
        let value = join(&workset.exclude_lfs, ",");
        r.push(
            GitCommand {
                args: vec![owned("config"), owned("--worktree"), owned("lfs.fetchexclude"), value],
                may_fail: false,
            },
        );
    }
    let ghost second = commands_view(r@);
    if workset.include_lfs.len() > 0 || workset.exclude_lfs.len() > 0 {
        r.push(GitCommand { args: vec![owned("lfs"), owned("pull")], may_fail: false });
    }
    proof {
        let w = workset@;
        let fetch_in: Seq<GitCommandView> = if w.include_lfs.len() > 0 {
            seq![required(seq!["config"@, "--worktree"@, "lfs.fetchinclude"@, seq_join(w.include_lfs, ","@)])]
        } else {
            Seq::empty()
        };
        let fetch_out: Seq<GitCommandView> = if w.exclude_lfs.len() > 0 {
            seq![required(seq!["config"@, "--worktree"@, "lfs.fetchexclude"@, seq_join(w.exclude_lfs, ","@)])]
        } else {
            Seq::empty()
        };
        assert(first =~~= fetch_in);
        assert(second =~~= fetch_in + fetch_out);
        assert(commands_view(r@) =~~= lfs_plan(workset@));
    }
    r
}

// ---------------------------------------------------------------------------
// History
// ---------------------------------------------------------------------------

/// `fetch --deepen <n>` for more history, or `fetch --unshallow` for all of it.
pub open spec fn deepen_args(depth: Option<u32>) -> Seq<Seq<char>> {
    match depth {
        Some(n) => seq!["fetch"@, "--deepen"@, decimal(n as nat)],
        None => seq!["fetch"@, "--unshallow"@],
    }
}

pub fn deepen(depth: Option<u32>) -> (r: Vec<String>)
    ensures
        r.deep_view() == deepen_args(depth),
{
    let r = match depth {
        Some(n) => vec![owned("fetch"), owned("--deepen"), decimal_string(n as u64)],
        None => vec![owned("fetch"), owned("--unshallow")],
    };
    assert(r.deep_view() =~= deepen_args(depth));
    r
}

// ---------------------------------------------------------------------------
// Worktrees
// ---------------------------------------------------------------------------

/// How to handle branch creation when adding a worktree.
pub enum WorktreeBranch {
    /// Check out an existing branch or commit.
    Existing(String),
    /// Create a new branch (`-b`).
    Create(String),
    /// Create or reset a branch (`-B`).
    ForceCreate(String),
    /// Let git decide (a new branch named after the path's last component).
    Auto,
}

pub enum WorktreeBranchView {
    Existing(Seq<char>),
    Create(Seq<char>),
    ForceCreate(Seq<char>),
    Auto,
}

impl View for WorktreeBranch {
    type V = WorktreeBranchView;

    open spec fn view(&self) -> WorktreeBranchView {
        match self {
            WorktreeBranch::Existing(b) => WorktreeBranchView::Existing(b@),
            WorktreeBranch::Create(b) => WorktreeBranchView::Create(b@),
            WorktreeBranch::ForceCreate(b) => WorktreeBranchView::ForceCreate(b@),
            WorktreeBranch::Auto => WorktreeBranchView::Auto,
        }
    }
}

pub open spec fn opt_seq(o: Option<Seq<char>>) -> Seq<Seq<char>> {
    match o {
        Some(c) => seq![c],
        None => Seq::empty(),
    }
}

/// `git worktree add [-b|-B <name>] <path> [<commit-ish>]`: an existing branch
/// follows the path; a start point follows it only when a branch is created.
pub open spec fn worktree_add_args(
    path: Seq<char>,
    branch: WorktreeBranchView,
    commit_ish: Option<Seq<char>>,
) -> Seq<Seq<char>> {
    let head = seq!["worktree"@, "add"@];
    match branch {
        WorktreeBranchView::Existing(b) => head + seq![path, b],
        WorktreeBranchView::Create(b) => head + seq!["-b"@, b, path] + opt_seq(commit_ish),
        WorktreeBranchView::ForceCreate(b) => head + seq!["-B"@, b, path] + opt_seq(commit_ish),
        WorktreeBranchView::Auto => head + seq![path],
    }
}

/// A created branch (`-b` or `-B`) starts at the given commit-ish, passed
/// last, after the path; without one it starts at `HEAD`. An existing
/// branch is checked out as it is and an automatic one is named by git, so
/// neither takes a start point.
pub proof fn law_created_branch_starts_at_commit_ish(
    path: Seq<char>,
    b: Seq<char>,
    c: Seq<char>,
    commit_ish: Option<Seq<char>>,
)
    ensures
        worktree_add_args(path, WorktreeBranchView::Create(b), Some(c)) == seq![
            "worktree"@,
            "add"@,
            "-b"@,
            b,
            path,
            c,
        ],
        worktree_add_args(path, WorktreeBranchView::ForceCreate(b), Some(c)) == seq![
            "worktree"@,
            "add"@,
            "-B"@,
            b,
            path,
            c,
        ],
        worktree_add_args(path, WorktreeBranchView::Create(b), Some(c)).last() == c,
        worktree_add_args(path, WorktreeBranchView::ForceCreate(b), Some(c)).last() == c,
        worktree_add_args(path, WorktreeBranchView::Create(b), None) == seq!["worktree"@, "add"@, "-b"@, b, path],
        worktree_add_args(path, WorktreeBranchView::ForceCreate(b), None) == seq![
            "worktree"@,
            "add"@,
            "-B"@,
            b,
            path,
        ],
        worktree_add_args(path, WorktreeBranchView::Existing(b), commit_ish) == seq!["worktree"@, "add"@, path, b],
        worktree_add_args(path, WorktreeBranchView::Auto, commit_ish) == seq!["worktree"@, "add"@, path],
{
    assert(worktree_add_args(path, WorktreeBranchView::Create(b), Some(c)) =~= seq![
        "worktree"@,
        "add"@,
        "-b"@,
        b,
        path,
        c,
    ]);
    assert(worktree_add_args(path, WorktreeBranchView::ForceCreate(b), Some(c)) =~= seq![
        "worktree"@,
        "add"@,
        "-B"@,
        b,
        path,
        c,
    ]);
    assert(worktree_add_args(path, WorktreeBranchView::Create(b), None) =~= seq![
        "worktree"@,
        "add"@,
        "-b"@,
        b,
        path,
    ]);
    assert(worktree_add_args(path, WorktreeBranchView::ForceCreate(b), None) =~= seq![
        "worktree"@,
        "add"@,
        "-B"@,
        b,
        path,
    ]);
    assert(worktree_add_args(path, WorktreeBranchView::Existing(b), commit_ish) =~= seq![
        "worktree"@,
        "add"@,
        path,
        b,
    ]);
    assert(worktree_add_args(path, WorktreeBranchView::Auto, commit_ish) =~= seq!["worktree"@, "add"@, path]);
}

pub open spec fn opt_str_view(o: Option<&str>) -> Option<Seq<char>> {
    match o {
        Some(s) => Some(s@),
        None => None,
    }
}

/// The arguments that create a worktree at `path` (run with LFS smudging off).
pub fn add_worktree(path: &str, branch: &WorktreeBranch, commit_ish: Option<&str>) -> (r: Vec<String>)
    ensures
        r.deep_view() == worktree_add_args(path@, branch@, opt_str_view(commit_ish)),
{
    let mut r = vec![owned("worktree"), owned("add")];
    match branch {
        WorktreeBranch::Existing(b) => {
            r.push(owned(path));
            r.push(b.clone());
        },
        WorktreeBranch::Create(b) => {
            r.push(owned("-b"));
            r.push(b.clone());
            r.push(owned(path));
            if let Some(c) = commit_ish {
                r.push(owned(c));
            }
        },
        WorktreeBranch::ForceCreate(b) => {
            r.push(owned("-B"));
            r.push(b.clone());
            r.push(owned(path));
            if let Some(c) = commit_ish {
                r.push(owned(c));
            }
        },
        WorktreeBranch::Auto => {
            r.push(owned(path));
        },
    }
    assert(r.deep_view() =~= worktree_add_args(path@, branch@, opt_str_view(commit_ish)));
    r
}

/// The branch handling that the `-b`, `-B` and `<commit-ish>` options of
/// `carve` select, and the start point passed with it.
pub open spec fn branch_choice(
    create: Option<Seq<char>>,
    force_create: Option<Seq<char>>,
    commit_ish: Option<Seq<char>>,
) -> (WorktreeBranchView, Option<Seq<char>>) {
    match create {
        Some(b) => (WorktreeBranchView::Create(b), commit_ish),
        None => match force_create {
            Some(b) => (WorktreeBranchView::ForceCreate(b), commit_ish),
            None => match commit_ish {
                Some(c) => (WorktreeBranchView::Existing(c), None),
                None => (WorktreeBranchView::Auto, None),
            },
        },
    }
}

pub open spec fn opt_string_view(o: Option<String>) -> Option<Seq<char>> {
    match o {
        Some(s) => Some(s@),
        None => None,
    }
}

/// Decide the branch handling of `carve`: `-b` creates, `-B` creates or
/// resets (both starting at the commit-ish, if given), a lone commit-ish is
/// checked out, and with none of them git names a new branch after the path.
pub fn choose_worktree_branch(
    create: Option<String>,
    force_create: Option<String>,
    commit_ish: Option<String>,
) -> (r: (WorktreeBranch, Option<String>))
    ensures
        (r.0@, opt_string_view(r.1)) == branch_choice(
            opt_string_view(create),
            opt_string_view(force_create),
            opt_string_view(commit_ish),
        ),
{
    match create {
        Some(b) => (WorktreeBranch::Create(b), commit_ish),
        None => match force_create {
            Some(b) => (WorktreeBranch::ForceCreate(b), commit_ish),
            None => match commit_ish {
                Some(c) => (WorktreeBranch::Existing(c), None),
                None => (WorktreeBranch::Auto, None),
            },
        },
    }
}

/// The revision whose committed configuration `carve` reads: the
/// commit-ish when one is given, else `HEAD`.
pub fn config_revision(commit_ish: Option<&str>) -> (r: String)
    ensures
        r@ == (match commit_ish {
            Some(c) => c@,
            None => "HEAD"@,
        }),
{
    match commit_ish {
        Some(c) => owned(c),
        None => owned("HEAD"),
    }
}

/// The history depth of a clone: `--shallow` means one commit.
pub fn effective_depth(shallow: bool, depth: Option<u32>) -> (r: Option<u32>)
    ensures
        r == (if shallow { Some(1u32) } else { depth }),
{
    if shallow {
        Some(1)
    } else {
        depth
    }
}

/// The steps of a sparse clone: `git init` (run where the clone is made), the
/// remote and sparse setup (run inside it), the fetch (run with LFS smudging
/// off), and the checkout.
pub struct SparseClonePlan {
    pub init: Vec<String>,
    pub setup: Vec<GitCommand>,
    pub fetch: Vec<String>,
    pub checkout: Vec<String>,
}

pub open spec fn fetch_args(depth: Option<u32>, refspec: Seq<char>) -> Seq<Seq<char>> {
    let d: Seq<Seq<char>> = match depth {
        Some(n) => seq!["--depth"@, decimal(n as nat)],
        None => Seq::empty(),
    };
    seq!["fetch"@] + d + seq!["origin"@, refspec]
}

/// A depth limits the clone's fetch whatever is fetched, a named branch or
/// the remote's `HEAD`: `fetch --depth <n> origin <refspec>`; without one the
/// whole history is fetched.
pub proof fn law_depth_limits_every_fetch(n: u32, refspec: Seq<char>)
    ensures
        fetch_args(Some(n), refspec) == seq!["fetch"@, "--depth"@, decimal(n as nat), "origin"@, refspec],
        fetch_args(Some(n), "HEAD"@) == seq!["fetch"@, "--depth"@, decimal(n as nat), "origin"@, "HEAD"@],
        fetch_args(None, refspec) == seq!["fetch"@, "origin"@, refspec],
{
    assert(fetch_args(Some(n), refspec) =~= seq!["fetch"@, "--depth"@, decimal(n as nat), "origin"@, refspec]);
    assert(fetch_args(Some(n), "HEAD"@) =~= seq!["fetch"@, "--depth"@, decimal(n as nat), "origin"@, "HEAD"@]);
    assert(fetch_args(None, refspec) =~= seq!["fetch"@, "origin"@, refspec]);
}

pub open spec fn checkout_args(branch: Option<Seq<char>>) -> Seq<Seq<char>> {
    match branch {
        Some(b) => seq!["checkout"@, "-b"@, b, "origin/"@ + b],
        None => seq!["checkout"@, "FETCH_HEAD"@],
    }
}

/// Clone via init, sparse setup, fetch and checkout, so that sparse checkout
/// is configured before anything is checked out.
pub fn sparse_clone(url: &str, path: &str, branch: Option<&str>, depth: Option<u32>, workset: &Workset) -> (r:
    SparseClonePlan)
    ensures
        r.init.deep_view() == seq!["init"@, path@],
        commands_view(r.setup@) == seq![required(seq!["remote"@, "add"@, "origin"@, url@])] + (if is_sparse(
            workset@,
        ) {
            sparse_setup(workset@)
        } else {
            Seq::empty()
        }),
        r.fetch.deep_view() == fetch_args(depth, match branch {
            Some(b) => b@,
            None => "HEAD"@,
        }),
        r.checkout.deep_view() == checkout_args(opt_str_view(branch)),
{
    let init = vec![owned("init"), owned(path)];
    let mut setup = vec![
        GitCommand { args: vec![owned("remote"), owned("add"), owned("origin"), owned(url)], may_fail: false },
    ];
    let ghost remote = commands_view(setup@);
    if workset.include_dirs.len() > 0 || workset.exclude.len() > 0 {
        let mut sparse = sparse_setup_commands(workset);
        let ghost sv = sparse@;
        setup.append(&mut sparse);
        proof {
            assert(commands_view(setup@) =~= remote + commands_view(sv));
        }
    }
    let mut fetch = vec![owned("fetch")];
    if let Some(d) = depth {
        fetch.push(owned("--depth"));
        fetch.push(decimal_string(d as u64));
    }
    fetch.push(owned("origin"));
    match branch {
        Some(b) => fetch.push(owned(b)),
        None => fetch.push(owned("HEAD")),
    }
    let checkout = match branch {
        Some(b) => vec![owned("checkout"), owned("-b"), owned(b), concat2("origin/", b)],
        None => vec![owned("checkout"), owned("FETCH_HEAD")],
    };
    proof {
        assert(init.deep_view() =~= seq!["init"@, path@]);
        assert(remote =~~= seq![required(seq!["remote"@, "add"@, "origin"@, url@])]);
        assert(fetch.deep_view() =~= fetch_args(depth, match branch {
            Some(b) => b@,
            None => "HEAD"@,
        }));
        assert(checkout.deep_view() =~= checkout_args(opt_str_view(branch)));
        if !is_sparse(workset@) {
            assert(commands_view(setup@) =~= remote + Seq::<GitCommandView>::empty());
        }
    }
    SparseClonePlan { init, setup, fetch, checkout }
}

/// The directory, beside the clone, into which `clone` first fetches just
/// enough of the remote to read its profile file: `.<name>-config-probe`.
pub fn probe_dir_name(clone_name: &str) -> (r: String)
    ensures
        r@ == "."@ + clone_name@ + "-config-probe"@,
{
    concat3(".", clone_name, "-config-probe")
}

/// The minimal clone that reads the remote's profile file before the real
/// clone: one commit, no checkout, no file contents beyond what is read,
/// of the requested branch when one is given.
pub fn probe_clone_args(url: &str, branch: Option<&str>, dir: &str) -> (r: Vec<String>)
    ensures
        r.deep_view() == seq!["clone"@, "--depth"@, "1"@, "--no-checkout"@, "--filter=blob:none"@] + (match branch {
            Some(b) => seq!["--branch"@, b@],
            None => Seq::<Seq<char>>::empty(),
        }) + seq![url@, dir@],
{
    let mut r = vec![owned("clone"), owned("--depth"), owned("1"), owned("--no-checkout"), owned("--filter=blob:none")];
    if let Some(b) = branch {
        r.push(owned("--branch"));
        r.push(owned(b));
    }
    r.push(owned(url));
    r.push(owned(dir));
    assert(r.deep_view() =~= seq!["clone"@, "--depth"@, "1"@, "--no-checkout"@, "--filter=blob:none"@] + (match branch {
        Some(b) => seq!["--branch"@, b@],
        None => Seq::<Seq<char>>::empty(),
    }) + seq![url@, dir@]);
    r
}

} // verus!
