use git_workset::config::SubmoduleSharing::{Isolated, Shared};
use git_workset::doctor::{checks_superproject_links, respond, DoctorRepair, Issue};
use git_workset::git::{probe_clone_args, probe_dir_name};
use git_workset::submodules::{
    attach_rollback, choose_gitdir_source, choose_share_step, migration_check,
    not_checked_out_message, pin_fetch_attempts, record_clones, record_share_result,
    start_outcome, GitdirSource, ShareStep,
};

fn strings(items: &[&str]) -> Vec<String> {
    items.iter().map(|s| s.to_string()).collect()
}

fn duplicate(path: &str, checkout: &str, dirty: bool) -> (String, String, bool) {
    (path.to_string(), checkout.to_string(), dirty)
}

#[test]
fn doctor_without_fix_repairs_nothing() {
    let issue = Issue::new("D3", "1 orphaned superproject worktree registration(s): /w".to_string());
    let (issue, action) = respond(issue, Some(DoctorRepair::PruneSuperproject), false);
    assert!(action.is_none());
    assert!(!issue.fixed);
    assert_eq!(issue.code, "D3");
    assert_eq!(issue.message, "1 orphaned superproject worktree registration(s): /w");
}

#[test]
fn doctor_with_fix_hands_back_the_repair() {
    let issue = Issue::new("D5", "dupes".to_string());
    let (issue, action) = respond(issue, None, true);
    assert!(action.is_none());
    assert!(!issue.fixed);

    let issue = Issue::new("D3", "prunable".to_string());
    let repair = DoctorRepair::PruneSubmodule { gitdir: "/r/.git/modules/lib".to_string() };
    let (issue, action) = respond(issue, Some(repair), true);
    assert!(issue.fixed);
    assert_eq!(issue.message, "prunable");
    match action {
        Some(DoctorRepair::PruneSubmodule { gitdir }) => assert_eq!(gitdir, "/r/.git/modules/lib"),
        _ => panic!("expected the submodule prune"),
    }
}

#[test]
fn superproject_links_checked_only_without_broken_submodule_links() {
    assert!(checks_superproject_links(false));
    assert!(!checks_superproject_links(true));
}

#[test]
fn migration_refused_for_the_first_dirty_clone_in_shared_mode() {
    let dupes = vec![
        duplicate("a", "/w/a", false),
        duplicate("b", "/w/b", true),
        duplicate("c", "/w/c", true),
    ];
    assert_eq!(
        migration_check(Shared, &dupes).unwrap(),
        "submodule 'b' has local modifications in /w/b and cannot be migrated to a shared object store.\n\
         Commit or stash them, or re-run with --isolated-submodules."
    );
    assert_eq!(migration_check(Isolated, &dupes), None);
    assert_eq!(migration_check(Shared, &vec![duplicate("a", "/w/a", false)]), None);
    assert_eq!(migration_check(Shared, &vec![]), None);
}

#[test]
fn failed_share_falls_back_for_that_submodule_only() {
    let outcome = start_outcome(2);
    assert_eq!((outcome.shared, outcome.cloned, outcome.skipped), (0, 0, 2));
    let (outcome, isolated) = record_share_result(outcome, vec![], "a".to_string(), true);
    let (outcome, isolated) = record_share_result(outcome, isolated, "b".to_string(), false);
    let (outcome, isolated) = record_share_result(outcome, isolated, "c".to_string(), true);
    assert_eq!(isolated, strings(&["b"]));
    assert_eq!((outcome.shared, outcome.cloned, outcome.skipped), (2, 0, 2));
    let outcome = record_clones(outcome, isolated.len());
    assert_eq!((outcome.shared, outcome.cloned, outcome.skipped), (2, 1, 2));
    assert_eq!(outcome.shared + outcome.cloned + outcome.skipped, 5);
    assert_eq!(outcome.summary(), "submodules: 2 shared (1 cloned), 2 skipped");
}

#[test]
fn gitdir_lookup_order() {
    assert_eq!(choose_gitdir_source(true, true), GitdirSource::MainCheckout);
    assert_eq!(choose_gitdir_source(true, false), GitdirSource::MainCheckout);
    assert_eq!(choose_gitdir_source(false, true), GitdirSource::ModulesDir);
    assert_eq!(choose_gitdir_source(false, false), GitdirSource::Initialize);
}

#[test]
fn share_step_reuses_migrates_or_attaches() {
    assert_eq!(choose_share_step(true, true), ShareStep::Reuse);
    assert_eq!(choose_share_step(false, true), ShareStep::MigrateThenAttach);
    assert_eq!(choose_share_step(false, false), ShareStep::Attach);
}

#[test]
fn pin_fetch_tries_the_commit_then_everything() {
    let attempts = pin_fetch_attempts("/g", "abc123", true);
    assert_eq!(attempts.len(), 2);
    assert_eq!(attempts[0], strings(&["--git-dir", "/g", "fetch", "--depth", "1", "origin", "abc123"]));
    assert_eq!(attempts[1], strings(&["--git-dir", "/g", "fetch", "origin"]));
    let deep = pin_fetch_attempts("/g", "abc123", false);
    assert_eq!(deep[0], strings(&["--git-dir", "/g", "fetch", "origin", "abc123"]));
}

#[test]
fn failed_attach_is_rolled_back() {
    let undo = attach_rollback("/g", "/w/lib");
    assert_eq!(undo.len(), 2);
    assert_eq!(undo[0], strings(&["--git-dir", "/g", "worktree", "remove", "--force", "/w/lib"]));
    assert_eq!(undo[1], strings(&["--git-dir", "/g", "worktree", "prune"]));
}

#[test]
fn submodule_not_checked_out_is_named() {
    assert_eq!(
        not_checked_out_message("ext/lib"),
        "submodule 'ext/lib' is not checked out in the main worktree"
    );
}

#[test]
fn probe_clone_reads_just_the_profile_file() {
    assert_eq!(probe_dir_name("repo"), ".repo-config-probe");
    assert_eq!(
        probe_clone_args("https://x/r.git", Some("dev"), "/t/.repo-config-probe"),
        strings(&[
            "clone",
            "--depth",
            "1",
            "--no-checkout",
            "--filter=blob:none",
            "--branch",
            "dev",
            "https://x/r.git",
            "/t/.repo-config-probe",
        ])
    );
    assert_eq!(
        probe_clone_args("u", None, "d"),
        strings(&["clone", "--depth", "1", "--no-checkout", "--filter=blob:none", "u", "d"])
    );
}
