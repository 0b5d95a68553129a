use git_workset::config::{SubmoduleConfig, Workset};
use git_workset::git::{
    add_worktree, apply_sparse_checkout, build_sparse_args, choose_worktree_branch,
    config_revision, configure_lfs, deepen, effective_depth, enable_worktree_config,
    gitdir_args, sparse_clone, GitCommand, WorktreeBranch,
};

fn strings(items: &[&str]) -> Vec<String> {
    items.iter().map(|s| s.to_string()).collect()
}

fn workset(dirs: &[&str], exclude: &[&str], cone: bool) -> Workset {
    Workset {
        description: None,
        include_dirs: strings(dirs),
        exclude: strings(exclude),
        exclude_lfs: vec![],
        include_lfs: vec![],
        submodules: SubmoduleConfig { shallow: true, skip: vec![] },
        sparse_cone: cone,
    }
}

fn args(c: &GitCommand) -> Vec<&str> {
    c.args.iter().map(|s| s.as_str()).collect()
}

#[test]
fn directories_alone_use_cone_mode() {
    let (cone, patterns) = build_sparse_args(&workset(&["src/server", "src/shared"], &[], true));
    assert!(cone);
    assert_eq!(patterns, strings(&["src/server", "src/shared"]));
}

#[test]
fn exclusions_force_non_cone_patterns() {
    let (cone, patterns) = build_sparse_args(&workset(&[], &["assets", "docs/big"], true));
    assert!(!cone);
    assert_eq!(patterns, strings(&["/*", "!/assets/", "!/docs/big/"]));
    let (cone, patterns) = build_sparse_args(&workset(&["src"], &["src/gen"], true));
    assert!(!cone);
    assert_eq!(patterns, strings(&["src", "!/src/gen/"]));
}

#[test]
fn sparse_checkout_commands_follow_the_mode() {
    let plan = apply_sparse_checkout(&workset(&["src/server"], &[], true));
    assert_eq!(plan.len(), 2);
    assert_eq!(args(&plan[0]), vec!["sparse-checkout", "init", "--cone"]);
    assert_eq!(args(&plan[1]), vec!["sparse-checkout", "set", "src/server"]);
    assert!(plan.iter().all(|c| !c.may_fail));

    let plan = apply_sparse_checkout(&workset(&[], &["assets"], true));
    assert_eq!(args(&plan[0]), vec!["sparse-checkout", "init"]);
    assert_eq!(args(&plan[1]), vec!["sparse-checkout", "set", "/*", "!/assets/", "--no-cone"]);

    let plan = apply_sparse_checkout(&workset(&["src"], &[], false));
    assert_eq!(args(&plan[1]), vec!["sparse-checkout", "set", "src", "--no-cone"]);
}

#[test]
fn empty_profile_disables_sparse_checkout() {
    let plan = apply_sparse_checkout(&workset(&[], &[], true));
    assert_eq!(plan.len(), 1);
    assert_eq!(args(&plan[0]), vec!["sparse-checkout", "disable"]);
    assert!(plan[0].may_fail);
}

#[test]
fn worktree_config_isolates_settings() {
    let plan = enable_worktree_config();
    let all: Vec<Vec<&str>> = plan.iter().map(args).collect();
    assert_eq!(
        all,
        vec![
            vec!["config", "extensions.worktreeConfig", "true"],
            vec!["config", "--worktree", "fetch.recurseSubmodules", "on-demand"],
            vec!["config", "--worktree", "submodule.recurse", "false"],
        ]
    );
}

#[test]
fn lfs_filters_are_joined_and_pulled() {
    let mut w = workset(&[], &[], true);
    assert!(configure_lfs(&w).is_empty());
    w.include_lfs = strings(&["*.png", "*.atlas"]);
    w.exclude_lfs = strings(&["*.psd"]);
    let plan = configure_lfs(&w);
    let all: Vec<Vec<&str>> = plan.iter().map(args).collect();
    assert_eq!(
        all,
        vec![
            vec!["config", "--worktree", "lfs.fetchinclude", "*.png,*.atlas"],
            vec!["config", "--worktree", "lfs.fetchexclude", "*.psd"],
            vec!["lfs", "pull"],
        ]
    );
}

#[test]
fn deepen_by_count_or_fully() {
    assert_eq!(deepen(Some(25)), strings(&["fetch", "--deepen", "25"]));
    assert_eq!(deepen(Some(0)), strings(&["fetch", "--deepen", "0"]));
    assert_eq!(deepen(Some(4294967295)), strings(&["fetch", "--deepen", "4294967295"]));
    assert_eq!(deepen(None), strings(&["fetch", "--unshallow"]));
}

#[test]
fn worktree_add_arguments_per_branch_mode() {
    let p = "/tmp/wt";
    assert_eq!(
        add_worktree(p, &WorktreeBranch::Existing("main".into()), None),
        strings(&["worktree", "add", "/tmp/wt", "main"])
    );
    assert_eq!(
        add_worktree(p, &WorktreeBranch::Create("feature/x".into()), Some("v2.0")),
        strings(&["worktree", "add", "-b", "feature/x", "/tmp/wt", "v2.0"])
    );
    assert_eq!(
        add_worktree(p, &WorktreeBranch::ForceCreate("stale".into()), None),
        strings(&["worktree", "add", "-B", "stale", "/tmp/wt"])
    );
    assert_eq!(add_worktree(p, &WorktreeBranch::Auto, Some("ignored")), strings(&["worktree", "add", "/tmp/wt"]));
}

#[test]
fn carve_options_select_the_branch_mode() {
    let (b, c) = choose_worktree_branch(Some("new".into()), None, Some("HEAD~1".into()));
    assert!(matches!(b, WorktreeBranch::Create(ref n) if n == "new"));
    assert_eq!(c.as_deref(), Some("HEAD~1"));
    let (b, c) = choose_worktree_branch(None, Some("reset".into()), None);
    assert!(matches!(b, WorktreeBranch::ForceCreate(ref n) if n == "reset"));
    assert!(c.is_none());
    let (b, c) = choose_worktree_branch(None, None, Some("existing".into()));
    assert!(matches!(b, WorktreeBranch::Existing(ref n) if n == "existing"));
    assert!(c.is_none());
    let (b, _) = choose_worktree_branch(None, None, None);
    assert!(matches!(b, WorktreeBranch::Auto));
    assert_eq!(config_revision(Some("custom-config")), "custom-config");
    assert_eq!(config_revision(None), "HEAD");
}

#[test]
fn shallow_flag_means_depth_one() {
    assert_eq!(effective_depth(true, None), Some(1));
    assert_eq!(effective_depth(false, Some(7)), Some(7));
    assert_eq!(effective_depth(false, None), None);
}

#[test]
fn sparse_clone_configures_before_fetching() {
    let w = workset(&["src/server"], &[], true);
    let plan = sparse_clone("file:///origin", "/tmp/c", Some("main"), Some(1), &w);
    assert_eq!(plan.init, strings(&["init", "/tmp/c"]));
    let setup: Vec<Vec<&str>> = plan.setup.iter().map(args).collect();
    assert_eq!(
        setup,
        vec![
            vec!["remote", "add", "origin", "file:///origin"],
            vec!["sparse-checkout", "init", "--cone"],
            vec!["sparse-checkout", "set", "src/server"],
        ]
    );
    assert_eq!(plan.fetch, strings(&["fetch", "--depth", "1", "origin", "main"]));
    assert_eq!(plan.checkout, strings(&["checkout", "-b", "main", "origin/main"]));

    let full = workset(&[], &[], true);
    let plan = sparse_clone("u", "/tmp/d", None, None, &full);
    assert_eq!(plan.setup.len(), 1);
    assert_eq!(plan.fetch, strings(&["fetch", "origin", "HEAD"]));
    assert_eq!(plan.checkout, strings(&["checkout", "FETCH_HEAD"]));
}

#[test]
fn gitdir_prefix() {
    assert_eq!(
        gitdir_args("/r/.git/modules/ext/lib", strings(&["worktree", "prune"])),
        strings(&["--git-dir", "/r/.git/modules/ext/lib", "worktree", "prune"])
    );
}
