use git_workset::config::SubmoduleSharing::{Isolated, Shared};
use git_workset::doctor::{
    broken_submodule_checkout_issue, broken_worktree_issue, clobbered_core_worktree_issue,
    core_worktree_repair, duplicate_stores_issue, exit_status, orphaned_registrations_issue,
    orphaned_submodule_registrations_issue, shared_core_worktree_issue, version_issue, Issue,
};
use git_workset::submodules::{
    attach_submodule_args, detach_submodule_worktree, effective_core_worktree, fetch_pin_args,
    harden_submodule_config, migration_refusal, partition_submodules, prune_args, removal_refusal,
    resolve_sharing, skip_submodule_args, strip_verbatim, submodule_setup_mode,
    submodule_update_args, ConfigEdit, ConfigFile, SubmoduleOutcome,
};

fn strings(items: &[&str]) -> Vec<String> {
    items.iter().map(|s| s.to_string()).collect()
}

#[test]
fn sharing_precedence_flag_recorded_git_file_default() {
    assert_eq!(resolve_sharing(None, None, None, None), Shared);
    assert_eq!(resolve_sharing(None, None, None, Some(Isolated)), Isolated);
    assert_eq!(resolve_sharing(None, None, Some(Shared), Some(Isolated)), Shared);
    assert_eq!(resolve_sharing(Some(Isolated), None, Some(Shared), Some(Shared)), Isolated);
    assert_eq!(resolve_sharing(None, Some(Isolated), Some(Shared), Some(Shared)), Isolated);
    assert_eq!(resolve_sharing(Some(Shared), Some(Isolated), None, None), Shared);
}

#[test]
fn shared_mode_falls_back_where_it_cannot_work() {
    assert_eq!(submodule_setup_mode(Shared, false, Some((2, 43))), Shared);
    assert_eq!(submodule_setup_mode(Shared, true, Some((2, 43))), Isolated);
    assert_eq!(submodule_setup_mode(Shared, false, Some((2, 19))), Isolated);
    assert_eq!(submodule_setup_mode(Shared, false, Some((2, 20))), Shared);
    assert_eq!(submodule_setup_mode(Shared, false, Some((1, 99))), Isolated);
    assert_eq!(submodule_setup_mode(Shared, false, None), Shared);
    assert_eq!(submodule_setup_mode(Isolated, false, Some((3, 0))), Isolated);
}

#[test]
fn skipped_and_wanted_submodules() {
    let entries = vec![
        ("ext/lib".to_string(), "ext/lib".to_string()),
        ("lib2".to_string(), "ext/lib2".to_string()),
        ("tools".to_string(), "third_party/tools".to_string()),
    ];
    let (skipped, wanted) = partition_submodules(&entries, &strings(&["ext/lib2", "ext/lib"]));
    assert_eq!(skipped, vec![entries[0].clone(), entries[1].clone()]);
    assert_eq!(wanted, vec![entries[2].clone()]);
    let (skipped, wanted) = partition_submodules(&entries, &strings(&["lib2"]));
    assert!(skipped.is_empty(), "skip matches paths, not names");
    assert_eq!(wanted, entries);
}

#[test]
fn summary_line() {
    let o = SubmoduleOutcome { shared: 1, cloned: 0, skipped: 1 };
    assert_eq!(o.summary(), "submodules: 1 shared (0 cloned), 1 skipped");
    let o = SubmoduleOutcome::default();
    assert_eq!(o.summary(), "submodules: 0 shared (0 cloned), 0 skipped");
}

#[test]
fn submodule_arguments() {
    assert_eq!(
        submodule_update_args(true, &strings(&["ext/lib"])),
        strings(&["submodule", "update", "--init", "--depth", "1", "--", "ext/lib"])
    );
    assert_eq!(
        submodule_update_args(false, &strings(&["a", "b"])),
        strings(&["submodule", "update", "--init", "--", "a", "b"])
    );
    assert_eq!(
        skip_submodule_args("ext/lib"),
        strings(&["config", "--worktree", "submodule.ext/lib.active", "false"])
    );
    assert_eq!(
        attach_submodule_args("/g", "/w/ext/lib", "abc"),
        strings(&["--git-dir", "/g", "worktree", "add", "--detach", "/w/ext/lib", "abc"])
    );
    assert_eq!(
        detach_submodule_worktree("/g", "/w/ext/lib"),
        strings(&["--git-dir", "/g", "worktree", "remove", "--force", "/w/ext/lib"])
    );
    assert_eq!(prune_args("/g"), strings(&["--git-dir", "/g", "worktree", "prune"]));
    assert_eq!(
        fetch_pin_args("/g", "abc", true),
        strings(&["--git-dir", "/g", "fetch", "--depth", "1", "origin", "abc"])
    );
    assert_eq!(fetch_pin_args("/g", "abc", false), strings(&["--git-dir", "/g", "fetch", "origin", "abc"]));
}

fn describe(e: &ConfigEdit) -> String {
    match e {
        ConfigEdit::Assign { file, key, value } => format!("set {:?} {} {}", file, key, value),
        ConfigEdit::Unset { file, key } => format!("unset {:?} {}", file, key),
    }
}

#[test]
fn hardening_moves_core_worktree_out_of_shared_config() {
    let edits = harden_submodule_config(true, Some("../../../ext/lib".into()), None, Some("/r/ext/lib".into()))
        .unwrap();
    let text: Vec<String> = edits.iter().map(describe).collect();
    assert_eq!(
        text,
        vec![
            "set Shared extensions.worktreeConfig true",
            "set PerWorktree core.worktree ../../../ext/lib",
            "unset Shared core.worktree",
        ]
    );
    // Already hardened: only the (idempotent) enable remains.
    let edits = harden_submodule_config(true, None, Some("../../../ext/lib".into()), Some("/r/ext/lib".into()))
        .unwrap();
    assert_eq!(edits.len(), 1);
    // Nothing recorded anywhere: the main checkout's path is pinned.
    let edits = harden_submodule_config(true, None, None, Some("/r/ext/lib".into())).unwrap();
    assert_eq!(describe(&edits[1]), "set PerWorktree core.worktree /r/ext/lib");
    assert!(harden_submodule_config(false, None, None, None).is_err());
    assert!(matches!(&edits[0], ConfigEdit::Assign { file: ConfigFile::Shared, .. }));
}

#[test]
fn effective_core_worktree_honours_worktree_config() {
    let own = Some("/own".to_string());
    let shared = Some("/shared".to_string());
    assert_eq!(effective_core_worktree(Some("true".into()), own.clone(), shared.clone()), own);
    assert_eq!(effective_core_worktree(Some("false".into()), own.clone(), shared.clone()), shared);
    assert_eq!(effective_core_worktree(None, own.clone(), shared.clone()), shared);
    assert_eq!(effective_core_worktree(Some("true".into()), None, shared.clone()), shared);
}

#[test]
fn refusals_name_the_way_out() {
    assert!(removal_refusal(false, "", "/w").is_none());
    assert!(removal_refusal(false, " \n\t", "/w").is_none());
    assert!(removal_refusal(true, " M file", "/w").is_none());
    let m = removal_refusal(false, " M src/server/hello.txt\n", "/w").unwrap();
    assert!(m.contains("--force"));
    assert!(m.starts_with("/w contains modified"));
    let m = migration_refusal("ext/lib", "/w/ext/lib");
    assert!(m.contains("ext/lib") && m.contains("--isolated-submodules"));
}

#[test]
fn verbatim_prefix() {
    assert_eq!(strip_verbatim(r"\\?\C:\repo"), r"C:\repo");
    assert_eq!(strip_verbatim(r"\\?\UNC\server\share"), r"\\?\UNC\server\share");
    assert_eq!(strip_verbatim("/home/x"), "/home/x");
}

#[test]
fn doctor_checks() {
    let i = version_issue(Shared, Some((2, 17))).unwrap();
    assert_eq!(i.code, "D6");
    assert!(i.message.starts_with("git 2.17 predates"));
    assert!(version_issue(Shared, Some((2, 20))).is_none());
    assert!(version_issue(Isolated, Some((1, 0))).is_none());
    assert!(version_issue(Shared, None).is_none());

    let i = orphaned_registrations_issue(&strings(&["/a", "/b"])).unwrap();
    assert_eq!(i.code, "D3");
    assert_eq!(i.message, "2 orphaned superproject worktree registration(s): /a, /b");
    assert!(orphaned_registrations_issue(&vec![]).is_none());

    let i = shared_core_worktree_issue("ext/lib", true, 3).unwrap();
    assert_eq!(i.code, "D1");
    assert!(i.message.contains("while 3 checkouts"));
    assert!(shared_core_worktree_issue("ext/lib", true, 1).is_none());
    assert!(shared_core_worktree_issue("ext/lib", false, 3).is_none());

    let i = clobbered_core_worktree_issue("/r/ext/lib", "/nonexistent/path", false).unwrap();
    assert_eq!(i.code, "D2");
    assert_eq!(i.message, "core.worktree for /r/ext/lib resolves to '/nonexistent/path' instead of the checkout itself");
    assert!(clobbered_core_worktree_issue("/r", "/r", true).is_none());

    let i = orphaned_submodule_registrations_issue("ext/lib", &strings(&["/gone"])).unwrap();
    assert_eq!(i.message, "submodule 'ext/lib' has 1 orphaned worktree registration(s): /gone");
    assert_eq!(broken_submodule_checkout_issue("/w/ext").code, "D4");
    assert!(broken_worktree_issue("/w").message.contains("git worktree repair"));

    let i = duplicate_stores_issue(Shared, &strings(&["/a/modules", "/b/modules"]), "1.5 MiB").unwrap();
    assert_eq!(i.code, "D5");
    assert!(i.message.starts_with("2 duplicate submodule object store(s) using 1.5 MiB."));
    assert!(i.message.ends_with("\n    /a/modules\n    /b/modules"));
    assert!(duplicate_stores_issue(Isolated, &strings(&["/a"]), "1 B").is_none());

    let mut issue = Issue::new("D2", "x".to_string());
    assert!(!issue.fixed);
    issue.mark_fixed();
    assert!(issue.fixed);
    let issues = vec![issue];
    assert_eq!(exit_status(&issues, false), 1);
    assert_eq!(exit_status(&issues, true), 0);
    assert_eq!(exit_status(&vec![], false), 0);

    let (edits, cleanup) = core_worktree_repair(false, true, "/r/ext/lib");
    assert_eq!(edits.len(), 2);
    assert_eq!(describe(&edits[1]), "set PerWorktree core.worktree /r/ext/lib");
    assert_eq!(describe(&cleanup.unwrap()), "unset Shared core.worktree");
    assert!(core_worktree_repair(true, true, "/x").1.is_none());
}
