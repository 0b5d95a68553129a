use git_workset::config::SubmoduleSharing::{Isolated, Shared};
use git_workset::doctor::{repair_for, respond, DoctorRepair, Finding, Issue};
use git_workset::setup::{SetupAction, SetupEvent, SubmoduleSetup};
use git_workset::submodules::{own_core_worktree_edit, pin_step, ConfigEdit, ConfigFile, PinStep};

fn strings(items: &[&str]) -> Vec<String> {
    items.iter().map(|s| s.to_string()).collect()
}

fn clean(path: &str) -> (String, String, bool) {
    (path.to_string(), format!("/w/{}", path), false)
}

fn dirty(path: &str) -> (String, String, bool) {
    (path.to_string(), format!("/w/{}", path), true)
}

#[test]
fn shared_setup_shares_clones_failures_and_hardens_each() {
    let (s, a) = SubmoduleSetup::start(Shared, strings(&["a", "b", "c"]), 1);
    assert!(matches!(a, SetupAction::Inspect));
    let (s, a) = s.step(SetupEvent::Inspected(vec![clean("b")]));
    assert!(matches!(a, SetupAction::Share(0)));
    let (s, a) = s.step(SetupEvent::ShareAttempted(true));
    assert!(matches!(a, SetupAction::Share(1)));
    let (s, a) = s.step(SetupEvent::ShareAttempted(false));
    assert!(matches!(a, SetupAction::Share(2)));
    let (s, a) = s.step(SetupEvent::ShareAttempted(false));
    match a {
        SetupAction::Clone(paths) => assert_eq!(paths, strings(&["b", "c"])),
        _ => panic!("expected the batch clone"),
    }
    let o = s.outcome();
    assert_eq!((o.shared, o.cloned, o.skipped), (1, 0, 1));
    let (s, a) = s.step(SetupEvent::Cloned);
    match a {
        SetupAction::Harden(p) => assert_eq!(p, "b"),
        _ => panic!("expected hardening of b"),
    }
    let (s, a) = s.step(SetupEvent::Hardened);
    match a {
        SetupAction::Harden(p) => assert_eq!(p, "c"),
        _ => panic!("expected hardening of c"),
    }
    let (s, a) = s.step(SetupEvent::Hardened);
    assert!(matches!(a, SetupAction::Finish));
    let o = s.outcome();
    assert_eq!((o.shared, o.cloned, o.skipped), (1, 2, 1));
    assert_eq!(o.summary(), "submodules: 1 shared (2 cloned), 1 skipped");
}

#[test]
fn dirty_clone_refuses_before_any_attach() {
    let (s, _) = SubmoduleSetup::start(Shared, strings(&["a", "b"]), 0);
    let (s, a) = s.step(SetupEvent::Inspected(vec![clean("a"), dirty("b")]));
    match a {
        SetupAction::Refuse(m) => assert_eq!(
            m,
            "submodule 'b' has local modifications in /w/b and cannot be migrated to a shared object store.\n\
             Commit or stash them, or re-run with --isolated-submodules."
        ),
        _ => panic!("expected the refusal"),
    }
    let (s, a) = s.step(SetupEvent::ShareAttempted(true));
    assert!(matches!(a, SetupAction::Finish));
    let o = s.outcome();
    assert_eq!((o.shared, o.cloned, o.skipped), (0, 0, 0));
}

#[test]
fn isolated_setup_clones_everything_then_hardens() {
    let (s, a) = SubmoduleSetup::start(Isolated, strings(&["a", "b"]), 0);
    match a {
        SetupAction::Clone(paths) => assert_eq!(paths, strings(&["a", "b"])),
        _ => panic!("expected the batch clone"),
    }
    let (s, a) = s.step(SetupEvent::Cloned);
    assert!(matches!(a, SetupAction::Harden(ref p) if p == "a"));
    let (s, a) = s.step(SetupEvent::Hardened);
    assert!(matches!(a, SetupAction::Harden(ref p) if p == "b"));
    let (s, a) = s.step(SetupEvent::Hardened);
    assert!(matches!(a, SetupAction::Finish));
    let o = s.outcome();
    assert_eq!((o.shared, o.cloned), (0, 2));
}

#[test]
fn answer_out_of_turn_changes_nothing() {
    let (s, _) = SubmoduleSetup::start(Shared, strings(&["a"]), 0);
    let (s, a) = s.step(SetupEvent::Cloned);
    assert!(matches!(a, SetupAction::Inspect));
    let (_, a) = s.step(SetupEvent::Inspected(vec![]));
    assert!(matches!(a, SetupAction::Share(0)));
}

#[test]
fn all_shared_finishes_without_cloning() {
    let (s, _) = SubmoduleSetup::start(Shared, strings(&["a"]), 2);
    let (s, _) = s.step(SetupEvent::Inspected(vec![]));
    let (s, a) = s.step(SetupEvent::ShareAttempted(true));
    assert!(matches!(a, SetupAction::Finish));
    assert_eq!(s.outcome().summary(), "submodules: 1 shared (0 cloned), 2 skipped");
}

#[test]
fn doctor_repairs_exactly_d1_to_d4() {
    assert!(repair_for(Finding::OldGit).is_none());
    assert!(repair_for(Finding::DuplicateStores).is_none());
    assert!(matches!(repair_for(Finding::OrphanedRegistrations), Some(DoctorRepair::PruneSuperproject)));
    match repair_for(Finding::SharedCoreWorktree { gitdir: "/g".into(), main_checkout: "/r/lib".into() }) {
        Some(DoctorRepair::Harden { gitdir, main_checkout }) => {
            assert_eq!(gitdir, "/g");
            assert_eq!(main_checkout, "/r/lib");
        }
        _ => panic!("expected hardening"),
    }
    match repair_for(Finding::ClobberedCoreWorktree {
        linked: false,
        shared_has_core_worktree: true,
        checkout: "/r/lib".into(),
    }) {
        Some(DoctorRepair::PinCheckout { edits, cleanup }) => {
            assert_eq!(edits.len(), 2);
            assert!(matches!(&edits[1], ConfigEdit::Assign { file: ConfigFile::PerWorktree, key, value }
                if key == "core.worktree" && value == "/r/lib"));
            assert!(matches!(cleanup, Some(ConfigEdit::Unset { file: ConfigFile::Shared, .. })));
        }
        _ => panic!("expected the pinning edits"),
    }
    assert!(matches!(
        repair_for(Finding::OrphanedSubmoduleRegistrations { gitdir: "/g".into() }),
        Some(DoctorRepair::PruneSubmodule { ref gitdir }) if gitdir == "/g"
    ));
    assert!(matches!(
        repair_for(Finding::BrokenSubmoduleCheckout { gitdir: "/g".into() }),
        Some(DoctorRepair::RepairLinks { submodule_gitdir: Some(ref g) }) if g == "/g"
    ));
    assert!(matches!(
        repair_for(Finding::BrokenWorktree),
        Some(DoctorRepair::RepairLinks { submodule_gitdir: None })
    ));
    let (issue, action) = respond(Issue::new("D5", "dupes".into()), repair_for(Finding::DuplicateStores), true);
    assert!(action.is_none() && !issue.fixed);
    let (issue, action) =
        respond(Issue::new("D4", "broken".into()), repair_for(Finding::BrokenWorktree), true);
    assert!(action.is_some() && issue.fixed);
}

#[test]
fn pin_fetch_steps_stop_retry_then_fail() {
    assert!(matches!(pin_step("/g", "abc", true, 0, true), PinStep::Present));
    match pin_step("/g", "abc", true, 0, false) {
        PinStep::Fetch(args) => {
            assert_eq!(args, strings(&["--git-dir", "/g", "fetch", "--depth", "1", "origin", "abc"]))
        }
        _ => panic!("expected the pin fetch"),
    }
    match pin_step("/g", "abc", true, 1, false) {
        PinStep::Fetch(args) => assert_eq!(args, strings(&["--git-dir", "/g", "fetch", "origin"])),
        _ => panic!("expected the full fetch"),
    }
    match pin_step("/g", "abc", true, 2, false) {
        PinStep::Unavailable(m) => assert_eq!(m, "commit abc is not available in the submodule remote"),
        _ => panic!("expected failure"),
    }
    assert!(matches!(pin_step("/g", "abc", true, 2, true), PinStep::Present));
}

#[test]
fn own_core_worktree_edit_pins_the_path() {
    assert!(matches!(
        own_core_worktree_edit("/w/lib"),
        ConfigEdit::Assign { file: ConfigFile::PerWorktree, ref key, ref value }
            if key == "core.worktree" && value == "/w/lib"
    ));
}
