use ubrn_napi::contract::{
    detect_scaffolding_contract_version, finds_outdated, forced_contract, version_spoken, Metadata,
    MetadataError, Node, Package,
};

fn package(id: &str, name: &str, major: u64, minor: u64) -> Package {
    Package {
        id: id.into(),
        name: name.into(),
        major,
        minor,
        manifest_path: format!("/w/{id}/Cargo.toml"),
    }
}

fn node(id: &str, deps: &[&str]) -> Node {
    Node {
        id: id.into(),
        deps: deps.iter().map(|s| s.to_string()).collect(),
    }
}

/// A root that reaches a UniFFI of the given version through a helper and a cycle.
fn metadata(name: &str, major: u64, minor: u64) -> Metadata {
    Metadata {
        packages: vec![
            package("root", "root", 0, 1),
            package("helper", "helper", 1, 0),
            package("u", name, major, minor),
            package("stray", "uniffi", 0, 1),
        ],
        resolve: Some(vec![
            node("root", &["helper"]),
            node("helper", &["root", "helper", "u", "unknown"]),
            node("u", &[]),
            node("stray", &["u"]),
        ]),
    }
}

fn detect(metadata: &Metadata) -> u32 {
    detect_scaffolding_contract_version(metadata, "/w/./root//Cargo.toml").unwrap()
}

#[test]
fn an_old_uniffi_anywhere_below_the_root_means_the_old_contract() {
    for (name, major, minor, version) in [
        ("uniffi", 0, 29, 29),
        ("uniffi", 0, 30, 30),
        ("uniffi", 1, 0, 30),
        ("uniffi_core", 0, 25, 29),
        ("uniffi_core", 0, 31, 30),
        ("uniffi_macros", 0, 28, 30),
    ] {
        assert_eq!(detect(&metadata(name, major, minor)), version, "{name} {major}.{minor}");
    }
}

#[test]
fn a_package_that_is_not_depended_on_does_not_count() {
    let all = metadata("uniffi", 0, 31);
    let nodes = all.resolve.unwrap();
    assert!(!finds_outdated(&all.packages, &nodes, "root"));
    assert!(finds_outdated(&all.packages, &nodes, "stray"));
    assert!(!finds_outdated(&all.packages, &nodes, "nobody"));
}

#[test]
fn what_depends_on_an_outdated_package_is_outdated() {
    let all = metadata("uniffi", 0, 29);
    let nodes = all.resolve.unwrap();
    for id in ["u", "helper", "root", "stray"] {
        assert!(finds_outdated(&all.packages, &nodes, id), "{id}");
    }
}

#[test]
fn paths_are_compared_by_their_components() {
    let all = metadata("uniffi", 0, 29);
    for path in ["/w/./root//Cargo.toml", "/w/root/Cargo.toml/"] {
        assert_eq!(detect_scaffolding_contract_version(&all, path).unwrap(), 29);
    }
    for path in ["w/root/Cargo.toml", "/w/root", "/w/x/../root/Cargo.toml"] {
        assert!(detect_scaffolding_contract_version(&all, path).is_err(), "{path}");
    }
}

#[test]
fn the_first_package_at_the_path_is_the_root() {
    let all = metadata("uniffi", 0, 31);
    let version = |same: [bool; 4]| version_spoken(&all, "p", &same.to_vec()).ok();
    assert_eq!(version([true, false, false, true]), Some(30));
    assert_eq!(version([false, false, false, true]), Some(29));
    assert_eq!(version([false; 4]), None);
}

#[test]
fn the_last_of_an_id_counts() {
    let mut all = metadata("uniffi", 0, 29);
    all.packages.push(package("u", "uniffi", 0, 31));
    assert_eq!(detect(&all), 30);
    if let Some(nodes) = &mut all.resolve {
        nodes.push(node("root", &["stray"]));
    }
    assert_eq!(detect(&all), 29);
}

#[test]
fn metadata_can_lack_the_root_or_the_graph() {
    let mut all = metadata("uniffi", 0, 29);
    let error = detect_scaffolding_contract_version(&all, "/w/none/Cargo.toml").unwrap_err();
    assert_eq!(
        error.message(),
        "Failed to find root package for /w/none/Cargo.toml in cargo metadata"
    );
    all.resolve = None;
    let error = detect_scaffolding_contract_version(&all, "/w/root/Cargo.toml").unwrap_err();
    assert!(matches!(error, MetadataError::NoResolve));
    assert_eq!(
        error.message(),
        "Cargo metadata did not include dependency resolution graph"
    );
}

#[test]
fn the_old_contract_is_forced_once() {
    assert_eq!(forced_contract(false, Some(29)), Some("29"));
    assert_eq!(forced_contract(true, Some(29)), None);
    assert_eq!(forced_contract(false, Some(30)), None);
    assert_eq!(forced_contract(false, None), None);
}
