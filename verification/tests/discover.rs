use cargo_subcommand::discover::{
    choose_artifacts, declare_bins, find_artifacts, find_main_file, list_rust_files, retain_named,
    rust_files_in, Artifacts,
};
use cargo_subcommand::manifest::{Bin, Example, Lib, Manifest, Package};
use cargo_subcommand::observe::{DirEntry, Listing};
use cargo_subcommand::{Args, Artifact, ArtifactType, Error, Observations, Query};

fn no_args() -> Args {
    Args {
        quiet: false,
        package: vec![],
        workspace: false,
        exclude: vec![],
        lib: false,
        bin: vec![],
        bins: false,
        example: vec![],
        examples: false,
        release: false,
        profile: None,
        features: vec![],
        all_features: false,
        no_default_features: false,
        target: None,
        target_dir: None,
        manifest_path: None,
    }
}

fn package(name: &str) -> Manifest {
    Manifest {
        workspace: None,
        package: Some(Package { name: name.to_string(), autobins: true, autoexamples: true }),
        lib: None,
        bins: vec![],
        examples: vec![],
    }
}

fn bin(name: &str, path: Option<&str>) -> Bin {
    Bin { name: name.to_string(), path: path.map(|p| p.to_string()) }
}

fn example(name: &str, path: Option<&str>) -> Example {
    Example { name: name.to_string(), path: path.map(|p| p.to_string()) }
}

fn file(name: &str) -> DirEntry {
    DirEntry { name: name.to_string(), is_file: true }
}

fn dir(name: &str) -> DirEntry {
    DirEntry { name: name.to_string(), is_file: false }
}

fn artifact(name: &str, path: &str, kind: ArtifactType) -> Artifact {
    Artifact { name: name.to_string(), path: path.to_string(), kind }
}

/// A package at /proj with nothing in it.
fn empty_package() -> Observations {
    let mut seen = Observations::new();
    seen.files.put("/proj/src/main.rs".to_string(), false);
    seen.files.put("/proj/src/lib.rs".to_string(), false);
    seen.listings.put("/proj/src/bin".to_string(), Listing::Absent);
    seen.listings.put("/proj/examples".to_string(), Listing::Absent);
    seen
}

fn found(manifest: &Manifest, seen: &Observations) -> Result<Artifacts, Error> {
    find_artifacts(manifest, manifest.package.as_ref().unwrap().name.as_str(), "/proj", seen)
}

#[test]
fn empty_package_has_no_artifacts() {
    let seen = empty_package();
    let all = found(&package("demo"), &seen).unwrap();
    assert_eq!(all.lib, None);
    assert!(all.bins.is_empty());
    assert!(all.examples.is_empty());
}

#[test]
fn conventional_files_are_discovered() {
    let mut seen = empty_package();
    seen.files.put("/proj/src/main.rs".to_string(), true);
    seen.files.put("/proj/src/lib.rs".to_string(), true);
    seen.listings.put(
        "/proj/src/bin".to_string(),
        Listing::Entries(vec![file("tool.rs"), file("notes.txt"), dir("nested.rs"), file("other.rs")]),
    );
    seen.listings.put("/proj/examples".to_string(), Listing::Entries(vec![file("hello.rs")]));
    let all = found(&package("demo"), &seen).unwrap();
    assert_eq!(all.lib, Some(artifact("demo", "src/lib.rs", ArtifactType::Lib)));
    assert_eq!(
        all.bins,
        vec![
            artifact("demo", "src/main.rs", ArtifactType::Bin),
            artifact("tool", "src/bin/tool.rs", ArtifactType::Bin),
            artifact("other", "src/bin/other.rs", ArtifactType::Bin),
        ]
    );
    assert_eq!(all.examples, vec![artifact("hello", "examples/hello.rs", ArtifactType::Example)]);
}

#[test]
fn declared_binary_is_not_overridden_by_a_discovered_file() {
    let mut seen = empty_package();
    seen.listings.put(
        "/proj/src/bin".to_string(),
        Listing::Entries(vec![file("custom.rs"), file("foo.rs")]),
    );
    let mut manifest = package("demo");
    manifest.bins = vec![bin("foo", Some("src/bin/custom.rs"))];
    let all = found(&manifest, &seen).unwrap();
    let foos: Vec<&Artifact> = all.bins.iter().filter(|a| a.name == "foo").collect();
    assert_eq!(foos, vec![&artifact("foo", "src/bin/custom.rs", ArtifactType::Bin)]);
    assert_eq!(all.bins, vec![artifact("foo", "src/bin/custom.rs", ArtifactType::Bin)]);
}

#[test]
fn two_binaries_of_one_name_are_a_duplicate() {
    let seen = Observations::new();
    let mut manifest = package("demo");
    manifest.bins = vec![bin("foo", Some("a.rs")), bin("bar", Some("b.rs")), bin("foo", Some("c.rs"))];
    assert_eq!(found(&manifest, &seen).unwrap_err(), Error::DuplicateBin("foo".to_string()));
    assert_eq!(
        declare_bins(&manifest.bins, "/proj", &seen).unwrap_err(),
        Error::DuplicateBin("foo".to_string())
    );
}

#[test]
fn two_examples_of_one_name_are_a_duplicate() {
    let seen = Observations::new();
    let mut manifest = package("demo");
    manifest.examples = vec![example("foo", Some("a.rs")), example("foo", Some("a.rs"))];
    assert_eq!(found(&manifest, &seen).unwrap_err(), Error::DuplicateExample("foo".to_string()));
}

#[test]
fn binary_and_example_may_share_a_name() {
    let seen = empty_package();
    let mut manifest = package("demo");
    manifest.bins = vec![bin("foo", Some("a.rs"))];
    manifest.examples = vec![example("foo", Some("b.rs"))];
    let all = found(&manifest, &seen).unwrap();
    assert_eq!(all.bins, vec![artifact("foo", "a.rs", ArtifactType::Bin)]);
    assert_eq!(all.examples, vec![artifact("foo", "b.rs", ArtifactType::Example)]);
}

#[test]
fn declared_target_is_found_by_convention() {
    let mut seen = empty_package();
    seen.files.put("/proj/src/bin/flat.rs".to_string(), true);
    seen.files.put("/proj/src/bin/nested.rs".to_string(), false);
    seen.files.put("/proj/src/bin/nested/main.rs".to_string(), true);
    seen.files.put("/proj/examples/demo.rs".to_string(), false);
    seen.files.put("/proj/examples/demo/main.rs".to_string(), true);
    let mut manifest = package("demo");
    manifest.bins = vec![bin("flat", None), bin("nested", None)];
    manifest.examples = vec![example("demo", None)];
    let all = found(&manifest, &seen).unwrap();
    assert_eq!(
        all.bins,
        vec![
            artifact("flat", "src/bin/flat.rs", ArtifactType::Bin),
            artifact("nested", "src/bin/nested/main.rs", ArtifactType::Bin),
        ]
    );
    assert_eq!(
        all.examples,
        vec![artifact("demo", "examples/demo/main.rs", ArtifactType::Example)]
    );
    assert_eq!(
        find_main_file("/proj", ArtifactType::Bin, "flat", &seen),
        Ok(Some("src/bin/flat.rs".to_string()))
    );
    assert_eq!(
        find_main_file("/proj", ArtifactType::Example, "demo", &seen),
        Ok(Some("examples/demo/main.rs".to_string()))
    );
    assert_eq!(
        find_main_file("/other", ArtifactType::Bin, "flat", &seen),
        Err(Error::Unobserved(Query::IsFile("/other/src/bin/flat.rs".to_string())))
    );
}

#[test]
fn declared_target_without_a_file_is_not_found() {
    let mut seen = empty_package();
    seen.files.put("/proj/src/bin/ghost.rs".to_string(), false);
    seen.files.put("/proj/src/bin/ghost/main.rs".to_string(), false);
    seen.files.put("/proj/examples/ghost.rs".to_string(), false);
    seen.files.put("/proj/examples/ghost/main.rs".to_string(), false);
    let mut manifest = package("demo");
    manifest.bins = vec![bin("ghost", None)];
    assert_eq!(found(&manifest, &seen).unwrap_err(), Error::BinNotFound("ghost".to_string()));
    let mut manifest = package("demo");
    manifest.examples = vec![example("ghost", None)];
    assert_eq!(found(&manifest, &seen).unwrap_err(), Error::ExampleNotFound("ghost".to_string()));
    assert_eq!(find_main_file("/proj", ArtifactType::Example, "ghost", &seen), Ok(None));
}

#[test]
fn missing_file_comes_before_the_duplicate() {
    let mut seen = empty_package();
    seen.files.put("/proj/src/bin/foo.rs".to_string(), false);
    seen.files.put("/proj/src/bin/foo/main.rs".to_string(), false);
    let mut manifest = package("demo");
    manifest.bins = vec![bin("foo", Some("a.rs")), bin("foo", None)];
    assert_eq!(found(&manifest, &seen).unwrap_err(), Error::BinNotFound("foo".to_string()));
}

#[test]
fn discovered_file_with_a_taken_name_is_skipped() {
    let mut seen = empty_package();
    seen.files.put("/proj/src/main.rs".to_string(), true);
    seen.listings.put(
        "/proj/src/bin".to_string(),
        Listing::Entries(vec![file("demo.rs"), file("extra.rs")]),
    );
    let all = found(&package("demo"), &seen).unwrap();
    assert_eq!(
        all.bins,
        vec![
            artifact("demo", "src/main.rs", ArtifactType::Bin),
            artifact("extra", "src/bin/extra.rs", ArtifactType::Bin),
        ]
    );
}

#[test]
fn discovered_file_that_is_already_a_source_is_skipped() {
    let mut seen = empty_package();
    seen.files.put("/proj/src/main.rs".to_string(), true);
    seen.listings.put("/proj/src/bin".to_string(), Listing::Entries(vec![file("tool.rs")]));
    let mut manifest = package("demo");
    manifest.bins = vec![bin("renamed", Some("src/bin/tool.rs")), bin("entry", Some("src/main.rs"))];
    let all = found(&manifest, &seen).unwrap();
    assert_eq!(
        all.bins,
        vec![
            artifact("renamed", "src/bin/tool.rs", ArtifactType::Bin),
            artifact("entry", "src/main.rs", ArtifactType::Bin),
        ]
    );
}

#[test]
fn discovery_can_be_turned_off() {
    let mut seen = Observations::new();
    seen.files.put("/proj/src/lib.rs".to_string(), false);
    let mut manifest = package("demo");
    manifest.package =
        Some(Package { name: "demo".to_string(), autobins: false, autoexamples: false });
    manifest.bins = vec![bin("only", Some("only.rs"))];
    let all = found(&manifest, &seen).unwrap();
    assert_eq!(all.bins, vec![artifact("only", "only.rs", ArtifactType::Bin)]);
    assert!(all.examples.is_empty());
}

#[test]
fn discovery_of_one_kind_can_be_turned_off() {
    let mut seen = empty_package();
    seen.files.put("/proj/src/main.rs".to_string(), true);
    seen.listings.put("/proj/examples".to_string(), Listing::Entries(vec![file("hello.rs")]));
    let mut manifest = package("demo");
    manifest.package =
        Some(Package { name: "demo".to_string(), autobins: true, autoexamples: false });
    let all = found(&manifest, &seen).unwrap();
    assert_eq!(all.bins, vec![artifact("demo", "src/main.rs", ArtifactType::Bin)]);
    assert!(all.examples.is_empty());
    manifest.package =
        Some(Package { name: "demo".to_string(), autobins: false, autoexamples: true });
    let all = found(&manifest, &seen).unwrap();
    assert!(all.bins.is_empty());
    assert_eq!(all.examples, vec![artifact("hello", "examples/hello.rs", ArtifactType::Example)]);
}

#[test]
fn declared_library_takes_its_defaults() {
    let seen = empty_package();
    let mut manifest = package("demo");
    manifest.lib = Some(Lib { name: None, path: None });
    assert_eq!(
        found(&manifest, &seen).unwrap().lib,
        Some(artifact("demo", "src/lib.rs", ArtifactType::Lib))
    );
    manifest.lib = Some(Lib { name: Some("core".to_string()), path: Some("core/lib.rs".to_string()) });
    assert_eq!(
        found(&manifest, &seen).unwrap().lib,
        Some(artifact("core", "core/lib.rs", ArtifactType::Lib))
    );
}

#[test]
fn discovery_asks_for_what_it_lacks() {
    let mut seen = Observations::new();
    let manifest = package("demo");
    assert_eq!(
        found(&manifest, &seen).unwrap_err(),
        Error::Unobserved(Query::IsFile("/proj/src/main.rs".to_string()))
    );
    seen.files.put("/proj/src/main.rs".to_string(), false);
    assert_eq!(
        found(&manifest, &seen).unwrap_err(),
        Error::Unobserved(Query::Listing("/proj/src/bin".to_string()))
    );
    seen.listings.put("/proj/src/bin".to_string(), Listing::Absent);
    assert_eq!(
        found(&manifest, &seen).unwrap_err(),
        Error::Unobserved(Query::Listing("/proj/examples".to_string()))
    );
    seen.listings.put(
        "/proj/examples".to_string(),
        Listing::Unreadable("permission denied".to_string()),
    );
    assert_eq!(
        found(&manifest, &seen).unwrap_err(),
        Error::Io("/proj/examples".to_string(), "permission denied".to_string())
    );
    seen.listings.put("/proj/examples".to_string(), Listing::Absent);
    assert_eq!(
        found(&manifest, &seen).unwrap_err(),
        Error::Unobserved(Query::IsFile("/proj/src/lib.rs".to_string()))
    );
}

#[test]
fn rust_files_are_listed_by_path() {
    let mut seen = Observations::new();
    seen.listings.put(
        "/proj/src/bin".to_string(),
        Listing::Entries(vec![file("b.rs"), dir("d"), file("a.rs"), file(".rs"), file("c.txt")]),
    );
    seen.listings.put("/proj/none".to_string(), Listing::Absent);
    assert_eq!(
        list_rust_files("/proj/src/bin", &seen),
        Ok(vec!["/proj/src/bin/b.rs".to_string(), "/proj/src/bin/a.rs".to_string()])
    );
    assert_eq!(
        rust_files_in("/proj/src/bin", &seen),
        Ok(vec!["b.rs".to_string(), "a.rs".to_string()])
    );
    assert_eq!(list_rust_files("/proj/none", &seen), Ok(vec![]));
    assert_eq!(
        list_rust_files("/proj/unseen", &seen),
        Err(Error::Unobserved(Query::Listing("/proj/unseen".to_string())))
    );
}

fn some_artifacts() -> Artifacts {
    Artifacts {
        lib: Some(artifact("demo", "src/lib.rs", ArtifactType::Lib)),
        bins: vec![
            artifact("demo", "src/main.rs", ArtifactType::Bin),
            artifact("tool", "src/bin/tool.rs", ArtifactType::Bin),
            artifact("other", "src/bin/other.rs", ArtifactType::Bin),
        ],
        examples: vec![
            artifact("hello", "examples/hello.rs", ArtifactType::Example),
            artifact("world", "examples/world.rs", ArtifactType::Example),
        ],
    }
}

#[test]
fn request_without_targets_keeps_everything() {
    let kept = choose_artifacts(some_artifacts(), &no_args());
    assert_eq!(kept.lib, some_artifacts().lib);
    assert_eq!(kept.bins, some_artifacts().bins);
    assert_eq!(kept.examples, some_artifacts().examples);
}

#[test]
fn request_for_the_library_keeps_only_it() {
    let mut args = no_args();
    args.lib = true;
    let kept = choose_artifacts(some_artifacts(), &args);
    assert_eq!(kept.lib, some_artifacts().lib);
    assert!(kept.bins.is_empty());
    assert!(kept.examples.is_empty());
}

#[test]
fn request_for_named_targets_keeps_those() {
    let mut args = no_args();
    args.bin = vec!["other".to_string(), "demo".to_string(), "absent".to_string()];
    args.example = vec!["world".to_string()];
    let kept = choose_artifacts(some_artifacts(), &args);
    assert_eq!(kept.lib, None);
    assert_eq!(
        kept.bins,
        vec![
            artifact("demo", "src/main.rs", ArtifactType::Bin),
            artifact("other", "src/bin/other.rs", ArtifactType::Bin),
        ]
    );
    assert_eq!(kept.examples, vec![artifact("world", "examples/world.rs", ArtifactType::Example)]);
}

#[test]
fn request_for_all_of_a_kind_keeps_the_kind() {
    let mut args = no_args();
    args.bins = true;
    let kept = choose_artifacts(some_artifacts(), &args);
    assert_eq!(kept.lib, None);
    assert_eq!(kept.bins, some_artifacts().bins);
    assert!(kept.examples.is_empty());
    let mut args = no_args();
    args.examples = true;
    args.bin = vec!["tool".to_string()];
    let kept = choose_artifacts(some_artifacts(), &args);
    assert_eq!(kept.bins, vec![artifact("tool", "src/bin/tool.rs", ArtifactType::Bin)]);
    assert_eq!(kept.examples, some_artifacts().examples);
}

#[test]
fn retain_keeps_the_order_of_the_artifacts() {
    let all = some_artifacts().bins;
    let kept = retain_named(&all, &vec!["tool".to_string(), "demo".to_string()]);
    let names: Vec<&str> = kept.iter().map(|a| a.name.as_str()).collect();
    assert_eq!(names, vec!["demo", "tool"]);
    assert!(retain_named(&all, &vec![]).is_empty());
}

#[test]
fn declared_file_found_by_convention_is_not_discovered_again() {
    let mut seen = empty_package();
    seen.files.put("/proj/src/bin/tool.rs".to_string(), true);
    seen.listings.put(
        "/proj/src/bin".to_string(),
        Listing::Entries(vec![file("tool.rs"), file("extra.rs")]),
    );
    let mut manifest = package("demo");
    manifest.bins = vec![bin("tool", None)];
    let all = found(&manifest, &seen).unwrap();
    assert_eq!(
        all.bins,
        vec![
            artifact("tool", "src/bin/tool.rs", ArtifactType::Bin),
            artifact("extra", "src/bin/extra.rs", ArtifactType::Bin),
        ]
    );
}

#[test]
fn sources_are_relative_unless_declared_otherwise() {
    let mut seen = empty_package();
    seen.files.put("/proj/src/main.rs".to_string(), true);
    seen.files.put("/proj/src/lib.rs".to_string(), true);
    seen.files.put("/proj/src/bin/conventional.rs".to_string(), true);
    seen.listings.put("/proj/src/bin".to_string(), Listing::Entries(vec![file("found.rs")]));
    seen.listings.put("/proj/examples".to_string(), Listing::Entries(vec![file("hello.rs")]));
    let mut manifest = package("demo");
    manifest.bins = vec![bin("explicit", Some("/elsewhere/main.rs")), bin("conventional", None)];
    let all = found(&manifest, &seen).unwrap();
    let absolute: Vec<&str> = all
        .bins
        .iter()
        .chain(all.examples.iter())
        .chain(all.lib.iter())
        .filter(|a| a.path.starts_with('/'))
        .map(|a| a.name.as_str())
        .collect();
    assert_eq!(absolute, vec!["explicit"]);
    assert_eq!(all.bins.len(), 4);
}

#[test]
fn two_declarations_may_name_one_source() {
    let seen = empty_package();
    let mut manifest = package("demo");
    manifest.bins = vec![bin("one", Some("src/shared.rs")), bin("two", Some("src/shared.rs"))];
    let all = found(&manifest, &seen).unwrap();
    assert_eq!(
        all.bins,
        vec![
            artifact("one", "src/shared.rs", ArtifactType::Bin),
            artifact("two", "src/shared.rs", ArtifactType::Bin),
        ]
    );
}
