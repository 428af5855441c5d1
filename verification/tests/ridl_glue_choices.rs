use mquickjs_rs::ridl_glue::{
    build_mode, check_config_version, choose_app_id, choose_manifest, choose_target_dir, normalize_app_id,
    paths_equal, select_root_package, CargoPackage, ConfigError, ManifestSource,
};

#[test]
fn app_id_is_normalized_package_name() {
    assert_eq!(normalize_app_id("my-app.v2"), "my_app_v2");
    assert_eq!(normalize_app_id("plain_name9"), "plain_name9");
    assert_eq!(normalize_app_id("ünï"), "_n_");
    assert_eq!(normalize_app_id(&normalize_app_id("a-b")), normalize_app_id("a-b"));
}

#[test]
fn app_id_priority() {
    assert_eq!(choose_app_id(Some("env".to_string()), Some("cfg".to_string()), "pkg-name"), "env");
    assert_eq!(choose_app_id(None, Some("cfg".to_string()), "pkg-name"), "cfg");
    assert_eq!(choose_app_id(None, None, "pkg-name"), "pkg_name");
}

#[test]
fn target_dir_priority() {
    assert_eq!(choose_target_dir(Some("/env".to_string()), Some("/cfg".to_string())), Some("/env".to_string()));
    assert_eq!(choose_target_dir(None, Some("/cfg".to_string())), Some("/cfg".to_string()));
    assert_eq!(choose_target_dir(None, None), None);
}

#[test]
fn manifest_priority() {
    match choose_manifest(Some("/env/Cargo.toml".to_string()), Some("/root".to_string())) {
        Some(ManifestSource::Env(p)) => assert_eq!(p, "/env/Cargo.toml"),
        _ => panic!("expected the environment's manifest"),
    }
    match choose_manifest(None, Some("/root".to_string())) {
        Some(ManifestSource::ConfigRoot(d)) => assert_eq!(d, "/root"),
        _ => panic!("expected the configuration's root"),
    }
    assert!(choose_manifest(None, None).is_none());
}

#[test]
fn build_mode_of_profiles() {
    assert_eq!(build_mode(&Some("release".to_string())), "release");
    assert_eq!(build_mode(&Some("debug".to_string())), "debug");
    assert_eq!(build_mode(&Some("bench".to_string())), "debug");
    assert_eq!(build_mode(&None), "debug");
}

#[test]
fn config_version_one_only() {
    assert!(check_config_version(1).is_ok());
    assert_eq!(check_config_version(2), Err(ConfigError::UnsupportedVersion(2)));
}

#[test]
fn root_package_is_first_with_manifest() {
    let pkgs = vec![
        CargoPackage { name: "a".to_string(), manifest_path: "/x/Cargo.toml".to_string() },
        CargoPackage { name: "b".to_string(), manifest_path: "/y/Cargo.toml".to_string() },
        CargoPackage { name: "c".to_string(), manifest_path: "/y/Cargo.toml".to_string() },
    ];
    let p = select_root_package(&pkgs, &"/y/Cargo.toml".to_string()).unwrap();
    assert_eq!(p.name, "b");
    assert!(select_root_package(&pkgs, &"/z/Cargo.toml".to_string()).is_none());
}

#[test]
fn paths_compare_by_component() {
    let eq = |a: &str, b: &str| paths_equal(&a.to_string(), &b.to_string());
    assert!(eq("/y/Cargo.toml", "/y/Cargo.toml"));
    assert!(eq("/y//Cargo.toml", "/y/Cargo.toml"));
    assert!(eq("/y/./Cargo.toml", "/y/Cargo.toml"));
    assert!(eq("/y/Cargo.toml/", "/y/Cargo.toml"));
    assert!(eq("a/b/.", "a/b"));
    assert!(!eq("./a", "a"));
    assert!(!eq("/a", "a"));
    assert!(!eq("/y/../y/Cargo.toml", "/y/Cargo.toml"));
    assert!(eq("", ""));
    assert!(!eq("/", ""));
}

#[test]
fn root_package_matches_equal_paths() {
    let pkgs = vec![
        CargoPackage { name: "a".to_string(), manifest_path: "/x/Cargo.toml".to_string() },
        CargoPackage { name: "b".to_string(), manifest_path: "/y//Cargo.toml".to_string() },
    ];
    let p = select_root_package(&pkgs, &"/y/./Cargo.toml".to_string()).unwrap();
    assert_eq!(p.name, "b");
}
