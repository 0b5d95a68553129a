use git_workset::porcelain::{
    list_worktrees_in, parse_decimal_u32, parse_git_version, parse_submodule_entries,
    prunable_worktrees, short_commit_id,
};
use git_workset::porcelain::config_value;
use git_workset::text::{decimal_string, join, split_at_char, split_lines, trim};

fn pair(a: &str, b: &str) -> (String, String) {
    (a.to_string(), b.to_string())
}

#[test]
fn gitmodules_path_entries() {
    let out = "submodule.ext/lib.path ext/lib\nsubmodule.ext/lib2.path ext/lib2";
    assert_eq!(parse_submodule_entries(out), vec![pair("ext/lib", "ext/lib"), pair("ext/lib2", "ext/lib2")]);
}

#[test]
fn gitmodules_lines_of_another_shape_are_ignored() {
    let out = "submodule.a.url x\nnot-a-key\nsubmodule.b.path dir with space\r\nsubmodule..path empty\n";
    assert_eq!(
        parse_submodule_entries(out),
        vec![pair("b", "dir with space"), pair("", "empty")]
    );
    assert!(parse_submodule_entries("").is_empty());
}

#[test]
fn git_version_forms() {
    assert_eq!(parse_git_version("git version 2.43.0"), Some((2, 43)));
    assert_eq!(parse_git_version("git version 2.39.3 (Apple Git-145)"), Some((2, 39)));
    assert_eq!(parse_git_version("git version 2"), Some((2, 0)));
    assert_eq!(parse_git_version("git version 3.x"), Some((3, 0)));
    assert_eq!(parse_git_version("git version"), None);
    assert_eq!(parse_git_version("git version 9a.1"), None);
    assert_eq!(parse_git_version("  git\tversion\n1.8.5.6  "), Some((1, 8)));
}

#[test]
fn unsigned_parse_like_std() {
    for s in ["0", "17", "+5", "4294967295", "4294967296", "", "+", "-1", "1_0", "٣"] {
        assert_eq!(parse_decimal_u32(s), s.parse::<u32>().ok(), "input {:?}", s);
    }
}

#[test]
fn worktree_listing() {
    let out = "worktree /repo\nHEAD 0123456789abcdef\nbranch refs/heads/main\n\n\
               worktree /repo-wt\nHEAD fedcba9876543210\ndetached\n\n\
               worktree /repo-x\nHEAD abc\nbranch refs/heads/list-test";
    assert_eq!(
        list_worktrees_in(out),
        vec![
            pair("/repo", "main"),
            pair("/repo-wt", "(detached fedcba98)"),
            pair("/repo-x", "list-test"),
        ]
    );
}

#[test]
fn worktree_listing_short_ids_and_blank_lines() {
    assert_eq!(list_worktrees_in("worktree /a\nHEAD abc\n"), vec![pair("/a", "(detached abc)")]);
    assert_eq!(list_worktrees_in("\n\nHEAD 123\n"), Vec::<(String, String)>::new());
    assert_eq!(short_commit_id("0123456789"), "01234567");
    assert_eq!(short_commit_id("ab"), "ab");
    assert_eq!(short_commit_id("éééé"), "éééé");
}

#[test]
fn prunable_entries() {
    let out = "worktree /repo\nHEAD 1\nbranch refs/heads/main\n\n\
               worktree /gone\nHEAD 2\ndetached\nprunable gitdir file points to non-existent location\n\n\
               worktree /ok\nHEAD 3\n";
    assert_eq!(prunable_worktrees(out), vec!["/gone".to_string()]);
    assert!(prunable_worktrees("worktree /a\n").is_empty());
}

#[test]
fn text_helpers_match_std() {
    for s in ["", "a", "a\n", "a\r\nb", "\n", "a\n\nb\r", "x\r\n\r\n"] {
        let ours = split_lines(s);
        let std: Vec<String> = s.lines().map(|l| l.to_string()).collect();
        assert_eq!(ours, std, "input {:?}", s);
    }
    for s in ["", "a+b", "+", "a++b", "abc"] {
        let ours = split_at_char(s, '+');
        let std: Vec<String> = s.split('+').map(|l| l.to_string()).collect();
        assert_eq!(ours, std, "input {:?}", s);
    }
    assert_eq!(join(&vec!["a".to_string(), "b".to_string()], ", "), "a, b");
    assert_eq!(join(&vec![], ", "), "");
    assert_eq!(decimal_string(0), "0");
    assert_eq!(decimal_string(1234567890123), "1234567890123");
    assert_eq!(decimal_string(u64::MAX), u64::MAX.to_string());
}

#[test]
fn trimming_and_config_values_match_std() {
    for s in ["", "  ", "a", " a b \n", "\u{3000}x\u{a0}", "\t\r\nvalue\n"] {
        assert_eq!(trim(s), s.trim(), "input {:?}", s);
    }
    assert_eq!(config_value("true\n"), Some("true".to_string()));
    assert_eq!(config_value("\n"), None);
    assert_eq!(config_value(""), None);
}
