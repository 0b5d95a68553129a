use git_workset::config::{
    ConfigError, SubmoduleConfig, SubmoduleSharing, Workset, WorksetError, WorksetsConfig,
};

fn strings(items: &[&str]) -> Vec<String> {
    items.iter().map(|s| s.to_string()).collect()
}

fn profile(description: &str, dirs: &[&str], skip: &[&str], shallow: bool) -> Workset {
    Workset {
        description: Some(description.to_string()),
        include_dirs: strings(dirs),
        exclude: vec![],
        exclude_lfs: vec![],
        include_lfs: vec![],
        submodules: SubmoduleConfig { shallow, skip: strings(skip) },
        sparse_cone: true,
    }
}

/// The profiles of the repository the command-line tests set up.
fn sample_config() -> WorksetsConfig {
    let mut c = WorksetsConfig::new();
    c.insert(
        "backend".to_string(),
        profile("Backend services", &["src/server", "src/shared"], &["ext/lib", "ext/lib2"], true),
    );
    c.insert(
        "frontend".to_string(),
        profile("Frontend client", &["src/client", "src/shared"], &["ext/lib", "ext/lib2"], false),
    );
    c.insert(
        "with-sub".to_string(),
        profile("Backend plus the ext/lib submodule", &["src/server", "ext"], &["ext/lib2"], false),
    );
    let mut no_assets = profile("Everything except assets", &[], &[], true);
    no_assets.exclude = strings(&["assets"]);
    c.insert("no-assets".to_string(), no_assets);
    c
}

#[test]
fn single_profile_is_returned_as_stored() {
    let c = sample_config();
    let w = c.get_workset("backend").unwrap();
    assert_eq!(w.description.as_deref(), Some("Backend services"));
    assert_eq!(w.include_dirs, strings(&["src/server", "src/shared"]));
    assert_eq!(w.submodules.skip, strings(&["ext/lib", "ext/lib2"]));
    assert!(w.submodules.shallow);
}

#[test]
fn composite_profile_unites_directories_in_order() {
    let c = sample_config();
    let w = c.get_workset("backend+frontend").unwrap();
    assert_eq!(w.include_dirs, strings(&["src/server", "src/shared", "src/client"]));
    assert_eq!(w.submodules.skip, strings(&["ext/lib", "ext/lib2"]));
    assert!(w.submodules.shallow, "shallow if either member is");
    assert_eq!(w.description.as_deref(), Some("Composite: backend+frontend"));
}

#[test]
fn composite_shallow_only_when_some_member_is() {
    let c = sample_config();
    let w = c.get_workset("frontend+with-sub").unwrap();
    assert!(!w.submodules.shallow);
    assert_eq!(w.include_dirs, strings(&["src/client", "src/shared", "src/server", "ext"]));
    assert_eq!(w.submodules.skip, strings(&["ext/lib", "ext/lib2"]));
}

#[test]
fn composing_a_profile_with_itself_changes_no_list() {
    let c = sample_config();
    let w = c.get_workset("backend+backend").unwrap();
    assert_eq!(w.include_dirs, strings(&["src/server", "src/shared"]));
    assert_eq!(w.submodules.skip, strings(&["ext/lib", "ext/lib2"]));
}

#[test]
fn composite_keeps_first_members_exclusions() {
    let c = sample_config();
    let w = c.get_workset("no-assets+backend").unwrap();
    assert_eq!(w.exclude, strings(&["assets"]));
    let w = c.get_workset("backend+no-assets").unwrap();
    assert!(w.exclude.is_empty());
}

#[test]
fn unknown_profile_lists_the_available_ones() {
    let c = sample_config();
    let err = c.get_workset("nonexistent").unwrap_err();
    match &err {
        WorksetError::NotFound { name, available } => {
            assert_eq!(name, "nonexistent");
            assert_eq!(available, &strings(&["backend", "frontend", "no-assets", "with-sub"]));
        }
        other => panic!("unexpected error {:?}", other),
    }
    assert_eq!(
        err.message(),
        "Workset 'nonexistent' not found. Available: backend, frontend, no-assets, with-sub"
    );
    assert!(err.message().contains("not found"));
}

#[test]
fn unknown_member_of_a_composition_is_named() {
    let c = sample_config();
    let err = c.get_workset("backend+nope+alsonope").unwrap_err();
    match &err {
        WorksetError::MissingMember { name } => assert_eq!(name, "nope"),
        other => panic!("unexpected error {:?}", other),
    }
    assert_eq!(err.message(), "Workset 'nope' not found");
}

#[test]
fn trailing_plus_names_an_empty_member() {
    let c = sample_config();
    match c.get_workset("backend+").unwrap_err() {
        WorksetError::MissingMember { name } => assert_eq!(name, ""),
        other => panic!("unexpected error {:?}", other),
    }
}

#[test]
fn names_are_kept_in_string_order_and_insert_replaces() {
    let mut c = WorksetsConfig::new();
    assert!(c.insert("zeta".to_string(), profile("z", &[], &[], true)).is_none());
    assert!(c.insert("alpha".to_string(), profile("a", &[], &[], true)).is_none());
    assert!(c.insert("Beta".to_string(), profile("b", &[], &[], true)).is_none());
    assert!(c.insert("alp".to_string(), profile("p", &[], &[], true)).is_none());
    assert_eq!(c.names_list(), strings(&["Beta", "alp", "alpha", "zeta"]));
    let prev = c.insert("alpha".to_string(), profile("second", &["x"], &[], false)).unwrap();
    assert_eq!(prev.description.as_deref(), Some("a"));
    assert_eq!(c.len(), 4);
    let now = c.get("alpha").unwrap();
    assert_eq!(now.description.as_deref(), Some("second"));
    assert_eq!(now.include_dirs, strings(&["x"]));
    assert!(c.get("beta").is_none());
}

#[test]
fn template_offers_a_full_tree_profile() {
    let t = WorksetsConfig::template();
    assert_eq!(t.names_list(), strings(&["all", "client", "server"]));
    let all = t.get_workset("all").unwrap();
    assert!(all.include_dirs.is_empty());
    assert!(all.exclude.is_empty());
    let server = t.get_workset("server").unwrap();
    assert_eq!(server.include_dirs, strings(&["src/server", "src/shared"]));
    assert_eq!(server.exclude_lfs, strings(&["*.psd", "*.fbx"]));
    assert_eq!(server.include_lfs, strings(&["*.json", "*.toml"]));
    assert_eq!(server.submodules.skip, strings(&["third_party/art-pipeline"]));
    let client = t.get_workset("client").unwrap();
    assert_eq!(client.include_dirs, strings(&["src/client", "src/shared", "src/rendering"]));
    assert_eq!(t.sharing(), None);
}

#[test]
fn sharing_modes_read_back_and_bad_values_name_the_options() {
    assert_eq!(SubmoduleSharing::parse("shared").unwrap(), SubmoduleSharing::Shared);
    assert_eq!(SubmoduleSharing::parse("isolated").unwrap(), SubmoduleSharing::Isolated);
    for m in [SubmoduleSharing::Shared, SubmoduleSharing::Isolated] {
        assert_eq!(SubmoduleSharing::parse(m.as_str()).unwrap(), m);
    }
    let err = SubmoduleSharing::parse("sometimes").unwrap_err();
    let ConfigError::InvalidSharing { value } = &err;
    assert_eq!(value, "sometimes");
    let msg = err.message();
    assert!(msg.contains("shared") && msg.contains("isolated"), "{}", msg);
    assert!(SubmoduleSharing::parse("Shared").is_err());
}

#[test]
fn submodule_defaults_are_shallow_with_nothing_skipped() {
    let d = SubmoduleConfig::default();
    assert!(d.shallow);
    assert!(d.skip.is_empty());
    assert!(git_workset::default_true());
}
