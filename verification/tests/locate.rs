use cargo_subcommand::manifest::{Manifest, Package, Workspace};
use cargo_subcommand::observe::Loaded;
use cargo_subcommand::select::{find_member_named, member_in_dir};
use cargo_subcommand::utils::{
    canonicalize, find_manifest, find_package_manifest_in_workspace, find_workspace,
};
use cargo_subcommand::{Error, Observations, Query};

fn package(name: &str) -> Manifest {
    Manifest {
        workspace: None,
        package: Some(Package { name: name.to_string(), autobins: true, autoexamples: true }),
        lib: None,
        bins: vec![],
        examples: vec![],
    }
}

fn workspace(members: &[&str], own: Option<&str>) -> Manifest {
    Manifest {
        workspace: Some(Workspace {
            default_members: vec![],
            members: members.iter().map(|m| m.to_string()).collect(),
        }),
        package: own.map(|name| Package {
            name: name.to_string(),
            autobins: true,
            autoexamples: true,
        }),
        lib: None,
        bins: vec![],
        examples: vec![],
    }
}

/// A workspace at /ws with the members /ws/crates/a and /ws/crates/b, and a
/// stray package at /ws/stray which the workspace does not list.
fn a_workspace(own: Option<&str>) -> Observations {
    let mut seen = Observations::new();
    for dir in ["/ws", "/ws/crates/a", "/ws/crates/b", "/ws/stray", "/ws/crates"] {
        seen.canonical.put(dir.to_string(), Ok(dir.to_string()));
    }
    seen.manifests.put("/ws/Cargo.toml".to_string(), Loaded::Found(workspace(&["crates/*"], own)));
    seen.manifests.put("/ws/crates/Cargo.toml".to_string(), Loaded::Missing("No such file or directory (os error 2)".to_string()));
    seen.manifests.put("/ws/crates/a/Cargo.toml".to_string(), Loaded::Found(package("a")));
    seen.manifests.put("/ws/crates/b/Cargo.toml".to_string(), Loaded::Found(package("b")));
    seen.manifests.put("/ws/stray/Cargo.toml".to_string(), Loaded::Found(package("stray")));
    seen.globs.put(
        "/ws/crates/*".to_string(),
        Ok(vec![Ok("/ws/crates/a".to_string()), Ok("/ws/crates/b".to_string())]),
    );
    seen
}

#[test]
fn canonicalize_reads_the_observation() {
    let mut seen = Observations::new();
    seen.canonical.put("/link".to_string(), Ok("/real".to_string()));
    seen.canonical.put(".".to_string(), Ok("/cwd".to_string()));
    seen.canonical.put("/gone".to_string(), Err("No such file or directory".to_string()));
    assert_eq!(canonicalize("/link", &seen), Ok("/real".to_string()));
    assert_eq!(canonicalize("", &seen), Ok("/cwd".to_string()));
    assert_eq!(
        canonicalize("/gone", &seen),
        Err(Error::Io("/gone".to_string(), "No such file or directory".to_string()))
    );
    assert_eq!(
        canonicalize("/unknown", &seen),
        Err(Error::Unobserved(Query::Canonical("/unknown".to_string())))
    );
}

#[test]
fn manifest_is_found_in_the_nearest_ancestor() {
    let mut seen = Observations::new();
    seen.canonical.put("/proj/src/bin".to_string(), Ok("/proj/src/bin".to_string()));
    seen.manifests.put("/proj/src/bin/Cargo.toml".to_string(), Loaded::Missing("No such file or directory (os error 2)".to_string()));
    seen.manifests.put("/proj/src/Cargo.toml".to_string(), Loaded::Missing("No such file or directory (os error 2)".to_string()));
    seen.manifests.put("/proj/Cargo.toml".to_string(), Loaded::Found(package("demo")));
    seen.manifests.put("/Cargo.toml".to_string(), Loaded::Found(package("outer")));
    let (path, manifest) = find_manifest("/proj/src/bin", &seen).unwrap();
    assert_eq!(path, "/proj/Cargo.toml");
    assert_eq!(manifest.package.as_ref().unwrap().name, "demo");
}

#[test]
fn manifest_search_starts_from_the_canonical_path() {
    let mut seen = Observations::new();
    seen.canonical.put("link".to_string(), Ok("/real/proj".to_string()));
    seen.manifests.put("/real/proj/Cargo.toml".to_string(), Loaded::Found(package("demo")));
    let (path, _) = find_manifest("link", &seen).unwrap();
    assert_eq!(path, "/real/proj/Cargo.toml");
}

#[test]
fn manifest_may_be_nowhere() {
    let mut seen = Observations::new();
    seen.canonical.put("/a/b".to_string(), Ok("/a/b".to_string()));
    seen.manifests.put("/a/b/Cargo.toml".to_string(), Loaded::Missing("No such file or directory (os error 2)".to_string()));
    seen.manifests.put("/a/Cargo.toml".to_string(), Loaded::Missing("No such file or directory (os error 2)".to_string()));
    seen.manifests.put("/Cargo.toml".to_string(), Loaded::Missing("No such file or directory (os error 2)".to_string()));
    assert_eq!(find_manifest("/a/b", &seen).unwrap_err(), Error::ManifestNotFound);
    assert!(find_workspace("/a/b", &seen).unwrap().is_none());
}

#[test]
fn manifest_that_cannot_be_read_ends_the_search() {
    let mut seen = Observations::new();
    seen.canonical.put("/a/b".to_string(), Ok("/a/b".to_string()));
    seen.manifests.put("/a/b/Cargo.toml".to_string(), Loaded::Missing("No such file or directory (os error 2)".to_string()));
    seen.manifests.put(
        "/a/Cargo.toml".to_string(),
        Loaded::Malformed("expected `=`".to_string()),
    );
    assert_eq!(
        find_manifest("/a/b", &seen).unwrap_err(),
        Error::Toml("/a/Cargo.toml".to_string(), "expected `=`".to_string())
    );
    assert_eq!(
        find_workspace("/a/b", &seen).unwrap_err(),
        Error::Toml("/a/Cargo.toml".to_string(), "expected `=`".to_string())
    );
    seen.manifests.put(
        "/a/Cargo.toml".to_string(),
        Loaded::Unreadable("permission denied".to_string()),
    );
    assert_eq!(
        find_manifest("/a/b", &seen).unwrap_err(),
        Error::Io("/a/Cargo.toml".to_string(), "permission denied".to_string())
    );
}

#[test]
fn manifest_search_asks_for_what_it_lacks() {
    let mut seen = Observations::new();
    assert_eq!(
        find_manifest("/a", &seen).unwrap_err(),
        Error::Unobserved(Query::Canonical("/a".to_string()))
    );
    seen.canonical.put("/a".to_string(), Ok("/a".to_string()));
    assert_eq!(
        find_manifest("/a", &seen).unwrap_err(),
        Error::Unobserved(Query::Manifest("/a/Cargo.toml".to_string()))
    );
    seen.manifests.put("/a/Cargo.toml".to_string(), Loaded::Missing("No such file or directory (os error 2)".to_string()));
    assert_eq!(
        find_manifest("/a", &seen).unwrap_err(),
        Error::Unobserved(Query::Manifest("/Cargo.toml".to_string()))
    );
}

#[test]
fn workspace_is_found_above_the_package() {
    let seen = a_workspace(None);
    let (path, manifest) = find_workspace("/ws/crates/a", &seen).unwrap().unwrap();
    assert_eq!(path, "/ws/Cargo.toml");
    assert!(manifest.workspace.is_some());
    let (path, _) = find_manifest("/ws/crates/a", &seen).unwrap();
    assert_eq!(path, "/ws/crates/a/Cargo.toml");
}

#[test]
fn members_are_expanded_in_order() {
    let seen = a_workspace(None);
    let root = workspace(&["crates/*"], None);
    let members = root.members("/ws", &seen).unwrap();
    let dirs: Vec<&str> = members.iter().map(|m| m.dir.as_str()).collect();
    assert_eq!(dirs, vec!["/ws/crates/a", "/ws/crates/b"]);
    let paths: Vec<&str> = members.iter().map(|m| m.path.as_str()).collect();
    assert_eq!(paths, vec!["/ws/crates/a/Cargo.toml", "/ws/crates/b/Cargo.toml"]);
    assert!(member_in_dir(&members, "/ws/crates/b"));
    assert!(!member_in_dir(&members, "/ws/stray"));
    assert_eq!(find_member_named(&members, "b"), Some(1));
    assert_eq!(find_member_named(&members, "stray"), None);
}

#[test]
fn members_of_several_patterns() {
    let mut seen = a_workspace(None);
    seen.globs.put("/ws/stray".to_string(), Ok(vec![Ok("/ws/stray".to_string())]));
    seen.globs.put("/ws/none/*".to_string(), Ok(vec![]));
    let root = workspace(&["stray", "none/*", "crates/*"], None);
    let members = root.members("/ws", &seen).unwrap();
    let dirs: Vec<&str> = members.iter().map(|m| m.dir.as_str()).collect();
    assert_eq!(dirs, vec!["/ws/stray", "/ws/crates/a", "/ws/crates/b"]);
}

#[test]
fn members_of_no_workspace() {
    let seen = a_workspace(None);
    assert_eq!(package("a").members("/ws", &seen).unwrap_err(), Error::ManifestNotAWorkspace);
}

#[test]
fn member_with_a_nested_workspace_is_refused() {
    let mut seen = a_workspace(None);
    seen.manifests.put(
        "/ws/crates/b/Cargo.toml".to_string(),
        Loaded::Found(workspace(&[], Some("b"))),
    );
    let root = workspace(&["crates/*"], None);
    assert_eq!(
        root.members("/ws", &seen).unwrap_err(),
        Error::UnexpectedWorkspace("/ws/crates/b/Cargo.toml".to_string())
    );
}

#[test]
fn member_without_a_package_is_refused() {
    let mut seen = a_workspace(None);
    let mut bare = package("a");
    bare.package = None;
    seen.manifests.put("/ws/crates/a/Cargo.toml".to_string(), Loaded::Found(bare));
    let root = workspace(&["crates/*"], None);
    assert_eq!(
        root.members("/ws", &seen).unwrap_err(),
        Error::NoPackageInManifest("/ws/crates/a/Cargo.toml".to_string())
    );
}

#[test]
fn member_without_a_manifest_is_refused() {
    let mut seen = a_workspace(None);
    seen.manifests.put("/ws/crates/b/Cargo.toml".to_string(), Loaded::Missing("No such file or directory (os error 2)".to_string()));
    let root = workspace(&["crates/*"], None);
    assert_eq!(
        root.members("/ws", &seen).unwrap_err(),
        Error::Io(
            "/ws/crates/b/Cargo.toml".to_string(),
            "No such file or directory (os error 2)".to_string()
        )
    );
}

#[test]
fn member_patterns_can_fail() {
    let mut seen = a_workspace(None);
    seen.globs.put("/ws/crates/*".to_string(), Err("invalid pattern".to_string()));
    let root = workspace(&["crates/*"], None);
    assert_eq!(
        root.members("/ws", &seen).unwrap_err(),
        Error::GlobPatternError("invalid pattern".to_string())
    );
    seen.globs.put(
        "/ws/crates/*".to_string(),
        Ok(vec![Ok("/ws/crates/a".to_string()), Err("permission denied".to_string())]),
    );
    assert_eq!(
        root.members("/ws", &seen).unwrap_err(),
        Error::Glob("permission denied".to_string())
    );
    let other = workspace(&["unseen/*"], None);
    assert_eq!(
        other.members("/ws", &seen).unwrap_err(),
        Error::Unobserved(Query::Glob("/ws/unseen/*".to_string()))
    );
}

#[test]
fn package_is_found_by_name_among_the_members() {
    let seen = a_workspace(None);
    let root = find_workspace("/ws/crates/a", &seen).unwrap().unwrap();
    let potential = find_manifest("/ws/crates/a", &seen).unwrap();
    let (path, manifest) =
        find_package_manifest_in_workspace(&root, potential, Some("b"), &seen).unwrap();
    assert_eq!(path, "/ws/crates/b/Cargo.toml");
    assert_eq!(manifest.package.as_ref().unwrap().name, "b");
}

#[test]
fn package_of_the_workspace_root_is_found_by_name() {
    let seen = a_workspace(Some("root"));
    let root = find_workspace("/ws/crates/a", &seen).unwrap().unwrap();
    let potential = find_manifest("/ws/crates/a", &seen).unwrap();
    let (path, manifest) =
        find_package_manifest_in_workspace(&root, potential, Some("root"), &seen).unwrap();
    assert_eq!(path, "/ws/Cargo.toml");
    assert_eq!(manifest.package.as_ref().unwrap().name, "root");
}

#[test]
fn unknown_package_is_not_found_in_the_workspace() {
    let seen = a_workspace(Some("root"));
    let root = find_workspace("/ws/crates/a", &seen).unwrap().unwrap();
    let potential = find_manifest("/ws/crates/a", &seen).unwrap();
    assert_eq!(
        find_package_manifest_in_workspace(&root, potential, Some("nobody"), &seen).unwrap_err(),
        Error::PackageNotFound("/ws/Cargo.toml".to_string(), "nobody".to_string())
    );
    let potential = find_manifest("/ws/crates/a", &seen).unwrap();
    assert_eq!(
        find_package_manifest_in_workspace(&root, potential, Some("stray"), &seen).unwrap_err(),
        Error::PackageNotFound("/ws/Cargo.toml".to_string(), "stray".to_string())
    );
}

#[test]
fn without_a_name_the_starting_package_is_taken() {
    let seen = a_workspace(None);
    let root = find_workspace("/ws/crates/b", &seen).unwrap().unwrap();
    let potential = find_manifest("/ws/crates/b", &seen).unwrap();
    let (path, manifest) = find_package_manifest_in_workspace(&root, potential, None, &seen).unwrap();
    assert_eq!(path, "/ws/crates/b/Cargo.toml");
    assert_eq!(manifest.package.as_ref().unwrap().name, "b");
}

#[test]
fn virtual_root_without_a_name_has_no_package() {
    let seen = a_workspace(None);
    let root = find_workspace("/ws", &seen).unwrap().unwrap();
    let potential = find_manifest("/ws", &seen).unwrap();
    assert_eq!(
        find_package_manifest_in_workspace(&root, potential, None, &seen).unwrap_err(),
        Error::NoPackageInManifest("/ws/Cargo.toml".to_string())
    );
}

#[test]
fn unclaimed_package_below_a_workspace_is_refused() {
    let seen = a_workspace(None);
    let root = find_workspace("/ws/stray", &seen).unwrap().unwrap();
    let potential = find_manifest("/ws/stray", &seen).unwrap();
    assert_eq!(potential.0, "/ws/stray/Cargo.toml");
    assert_eq!(
        find_package_manifest_in_workspace(&root, potential, None, &seen).unwrap_err(),
        Error::ManifestNotInWorkspace {
            manifest: "/ws/stray/Cargo.toml".to_string(),
            workspace_manifest: "/ws/Cargo.toml".to_string(),
        }
    );
    let potential = find_manifest("/ws/stray", &seen).unwrap();
    assert!(matches!(
        find_package_manifest_in_workspace(&root, potential, Some("a"), &seen),
        Err(Error::ManifestNotInWorkspace { .. })
    ));
}

#[test]
fn package_alone_resolves_to_itself() {
    let manifest = package("demo");
    let (path, chosen) = manifest.map_nonvirtual_package("/proj/Cargo.toml".to_string(), None).unwrap();
    assert_eq!(path, "/proj/Cargo.toml");
    assert_eq!(chosen.package.as_ref().unwrap().name, "demo");
    let (path, _) =
        manifest.map_nonvirtual_package("/proj/Cargo.toml".to_string(), Some("demo")).unwrap();
    assert_eq!(path, "/proj/Cargo.toml");
}

#[test]
fn package_alone_must_carry_the_requested_name() {
    let manifest = package("demo");
    assert_eq!(
        manifest.map_nonvirtual_package("/proj/Cargo.toml".to_string(), Some("other")).unwrap_err(),
        Error::PackageNotFound("/proj/Cargo.toml".to_string(), "other".to_string())
    );
}

#[test]
fn package_alone_must_be_a_package() {
    let mut bare = package("demo");
    bare.package = None;
    assert_eq!(
        bare.map_nonvirtual_package("/proj/Cargo.toml".to_string(), None).unwrap_err(),
        Error::NoPackageInManifest("/proj/Cargo.toml".to_string())
    );
    let root = workspace(&[], Some("demo"));
    assert_eq!(
        root.map_nonvirtual_package("/proj/Cargo.toml".to_string(), None).unwrap_err(),
        Error::UnexpectedWorkspace("/proj/Cargo.toml".to_string())
    );
}

#[test]
fn manifest_is_read_from_the_observations() {
    let mut seen = Observations::new();
    seen.manifests.put("/a/Cargo.toml".to_string(), Loaded::Found(package("a")));
    seen.manifests.put("/b/Cargo.toml".to_string(), Loaded::Missing("No such file or directory (os error 2)".to_string()));
    assert_eq!(
        Manifest::parse_from_toml("/a/Cargo.toml", &seen).unwrap().package.as_ref().unwrap().name,
        "a"
    );
    assert_eq!(
        Manifest::parse_from_toml("/b/Cargo.toml", &seen).unwrap_err(),
        Error::Io("/b/Cargo.toml".to_string(), "No such file or directory (os error 2)".to_string())
    );
    assert_eq!(
        Manifest::parse_from_toml("/c/Cargo.toml", &seen).unwrap_err(),
        Error::Unobserved(Query::Manifest("/c/Cargo.toml".to_string()))
    );
}

#[test]
fn observations_keep_the_latest_answer() {
    let mut seen = Observations::new();
    assert!(!seen.is_answered(&Query::IsFile("/a".to_string())));
    assert!(!seen.is_answered(&Query::CurrentDir));
    seen.files.put("/a".to_string(), false);
    seen.files.put("/b".to_string(), true);
    seen.files.put("/a".to_string(), true);
    seen.current_dir = Some(Ok("/cwd".to_string()));
    assert_eq!(seen.files.find("/a"), Some(&true));
    assert_eq!(seen.files.find("/b"), Some(&true));
    assert_eq!(seen.files.find("/c"), None);
    assert!(seen.is_answered(&Query::IsFile("/a".to_string())));
    assert!(seen.is_answered(&Query::CurrentDir));
    assert!(!seen.is_answered(&Query::Listing("/a".to_string())));
}
