use cargo_subcommand::config::{Build, Config, EnvEntry};
use cargo_subcommand::manifest::{Bin, Manifest, Package, Workspace};
use cargo_subcommand::observe::{DirEntry, Listing, Loaded};
use cargo_subcommand::subcommand::{artifact_below, build_dir_below};
use cargo_subcommand::{
    Args, Artifact, ArtifactType, CrateType, EnvError, EnvOption, Environment, Error, Observations,
    Profile, Query, Subcommand,
};

fn no_args() -> Args {
    Args {
        quiet: false,
        package: vec![],
        workspace: false,
        exclude: vec![],
        lib: false,
        bin: vec![],
        bins: false,
        example: vec![],
        examples: false,
        release: false,
        profile: None,
        features: vec![],
        all_features: false,
        no_default_features: false,
        target: None,
        target_dir: None,
        manifest_path: None,
    }
}

fn package(name: &str) -> Manifest {
    Manifest {
        workspace: None,
        package: Some(Package { name: name.to_string(), autobins: true, autoexamples: true }),
        lib: None,
        bins: vec![],
        examples: vec![],
    }
}

fn file(name: &str) -> DirEntry {
    DirEntry { name: name.to_string(), is_file: true }
}

fn artifact(name: &str, path: &str, kind: ArtifactType) -> Artifact {
    Artifact { name: name.to_string(), path: path.to_string(), kind }
}

/// What is observed of a package directory without any source file.
fn bare_package(seen: &mut Observations, dir: &str) {
    seen.canonical.put(dir.to_string(), Ok(dir.to_string()));
    seen.files.put(format!("{dir}/.cargo/config.toml"), false);
    seen.files.put(format!("{dir}/src/main.rs"), false);
    seen.files.put(format!("{dir}/src/lib.rs"), false);
    seen.listings.put(format!("{dir}/src/bin"), Listing::Absent);
    seen.listings.put(format!("{dir}/examples"), Listing::Absent);
}

/// A package `demo` at /proj, outside any workspace, with a library, a main
/// binary, one more binary and one example. The process works in /proj/src.
fn a_project() -> Observations {
    let mut seen = Observations::new();
    seen.current_dir = Some(Ok("/proj/src".to_string()));
    seen.canonical.put("/proj/src".to_string(), Ok("/proj/src".to_string()));
    seen.manifests.put("/proj/src/Cargo.toml".to_string(), Loaded::Missing("No such file or directory (os error 2)".to_string()));
    seen.manifests.put("/proj/Cargo.toml".to_string(), Loaded::Found(package("demo")));
    seen.manifests.put("/Cargo.toml".to_string(), Loaded::Missing("No such file or directory (os error 2)".to_string()));
    bare_package(&mut seen, "/proj");
    seen.files.put("/.cargo/config.toml".to_string(), false);
    seen.files.put("/proj/src/main.rs".to_string(), true);
    seen.files.put("/proj/src/lib.rs".to_string(), true);
    seen.listings.put("/proj/src/bin".to_string(), Listing::Entries(vec![file("tool.rs")]));
    seen.listings.put("/proj/examples".to_string(), Listing::Entries(vec![file("hello.rs")]));
    seen
}

/// A workspace at /ws with its own package `root` and the members `a` and
/// `b` below /ws/crates. The process works in /ws/crates/a.
fn a_workspace() -> Observations {
    let mut seen = Observations::new();
    seen.current_dir = Some(Ok("/ws/crates/a".to_string()));
    let mut root = package("root");
    root.workspace =
        Some(Workspace { default_members: vec![], members: vec!["crates/*".to_string()] });
    seen.manifests.put("/ws/Cargo.toml".to_string(), Loaded::Found(root));
    seen.manifests.put("/ws/crates/Cargo.toml".to_string(), Loaded::Missing("No such file or directory (os error 2)".to_string()));
    seen.manifests.put("/ws/crates/a/Cargo.toml".to_string(), Loaded::Found(package("a")));
    seen.manifests.put("/ws/crates/b/Cargo.toml".to_string(), Loaded::Found(package("b")));
    seen.globs.put(
        "/ws/crates/*".to_string(),
        Ok(vec![Ok("/ws/crates/a".to_string()), Ok("/ws/crates/b".to_string())]),
    );
    for dir in ["/ws", "/ws/crates/a", "/ws/crates/b"] {
        bare_package(&mut seen, dir);
    }
    seen.files.put("/ws/crates/.cargo/config.toml".to_string(), false);
    seen.files.put("/.cargo/config.toml".to_string(), false);
    seen.files.put("/ws/crates/b/src/main.rs".to_string(), true);
    seen
}

fn names(cmd: &Subcommand) -> Vec<String> {
    cmd.artifacts().iter().map(|a| a.name.clone()).collect()
}

#[test]
fn project_outside_a_workspace_resolves_to_its_own_package() {
    let seen = a_project();
    let mut env = Environment::new();
    let cmd = Subcommand::new(no_args(), &seen, &mut env).unwrap();
    assert_eq!(cmd.package(), "demo");
    assert_eq!(cmd.manifest(), "/proj/Cargo.toml");
    assert_eq!(cmd.workspace_manifest(), None);
    assert_eq!(cmd.target_dir(), "/proj/target");
    assert_eq!(cmd.profile(), &Profile::Dev);
    assert_eq!(cmd.target(), None);
    assert!(!cmd.quiet());
    assert!(cmd.config().is_none());
    assert_eq!(cmd.args(), &no_args());
    assert_eq!(
        cmd.artifacts(),
        vec![
            &artifact("demo", "src/lib.rs", ArtifactType::Lib),
            &artifact("demo", "src/main.rs", ArtifactType::Bin),
            &artifact("tool", "src/bin/tool.rs", ArtifactType::Bin),
            &artifact("hello", "examples/hello.rs", ArtifactType::Example),
        ]
    );
}

#[test]
fn host_triple_is_that_of_the_build() {
    let seen = a_project();
    let mut env = Environment::new();
    let cmd = Subcommand::new(no_args(), &seen, &mut env).unwrap();
    assert!(!cmd.host_triple().is_empty());
    assert!(cmd.host_triple().contains('-'));
    let chosen = Subcommand::resolve(no_args(), &seen, &mut env, "riscv64gc-unknown-none-elf".to_string())
        .unwrap();
    assert_eq!(chosen.host_triple(), "riscv64gc-unknown-none-elf");
}

#[test]
fn project_outside_a_workspace_by_its_own_name() {
    let seen = a_project();
    let mut env = Environment::new();
    let mut args = no_args();
    args.package = vec!["demo".to_string()];
    let cmd = Subcommand::new(args, &seen, &mut env).unwrap();
    assert_eq!(cmd.package(), "demo");
    let mut args = no_args();
    args.package = vec!["other".to_string()];
    assert_eq!(
        Subcommand::new(args, &seen, &mut env).unwrap_err(),
        Error::PackageNotFound("/proj/Cargo.toml".to_string(), "other".to_string())
    );
}

#[test]
fn explicit_manifest_path_is_validated() {
    let mut seen = a_project();
    seen.current_dir = Some(Ok("/elsewhere".to_string()));
    seen.files.put("/proj/Cargo.toml".to_string(), true);
    seen.files.put("/gone/Cargo.toml".to_string(), false);
    let mut env = Environment::new();
    let mut args = no_args();
    args.manifest_path = Some("/proj/Cargo.toml".to_string());
    let cmd = Subcommand::new(args, &seen, &mut env).unwrap();
    assert_eq!(cmd.manifest(), "/proj/Cargo.toml");
    assert_eq!(cmd.package(), "demo");

    let mut args = no_args();
    args.manifest_path = Some("/gone/Cargo.toml".to_string());
    assert_eq!(Subcommand::new(args, &seen, &mut env).unwrap_err(), Error::ManifestPathNotFound);
    let mut args = no_args();
    args.manifest_path = Some("/proj/Other.toml".to_string());
    assert_eq!(Subcommand::new(args, &seen, &mut env).unwrap_err(), Error::ManifestPathNotFound);
    let mut args = no_args();
    args.manifest_path = Some("/proj".to_string());
    assert_eq!(Subcommand::new(args, &seen, &mut env).unwrap_err(), Error::ManifestPathNotFound);
}

#[test]
fn unsupported_requests_are_invalid() {
    let seen = a_project();
    let mut env = Environment::new();
    let mut args = no_args();
    args.package = vec!["a".to_string(), "b".to_string()];
    assert_eq!(Subcommand::new(args, &seen, &mut env).unwrap_err(), Error::InvalidArgs);
    let mut args = no_args();
    args.workspace = true;
    assert_eq!(Subcommand::new(args, &seen, &mut env).unwrap_err(), Error::InvalidArgs);
    let mut args = no_args();
    args.exclude = vec!["a".to_string()];
    assert_eq!(Subcommand::new(args, &seen, &mut env).unwrap_err(), Error::InvalidArgs);
}

#[test]
fn workspace_member_resolves_without_a_name() {
    let seen = a_workspace();
    let mut env = Environment::new();
    let cmd = Subcommand::new(no_args(), &seen, &mut env).unwrap();
    assert_eq!(cmd.package(), "a");
    assert_eq!(cmd.manifest(), "/ws/crates/a/Cargo.toml");
    assert_eq!(cmd.workspace_manifest(), Some("/ws/Cargo.toml"));
    assert_eq!(cmd.target_dir(), "/ws/target");
    assert!(cmd.artifacts().is_empty());
}

#[test]
fn workspace_member_resolves_by_name() {
    let seen = a_workspace();
    let mut env = Environment::new();
    let mut args = no_args();
    args.package = vec!["b".to_string()];
    let cmd = Subcommand::new(args, &seen, &mut env).unwrap();
    assert_eq!(cmd.package(), "b");
    assert_eq!(cmd.manifest(), "/ws/crates/b/Cargo.toml");
    assert_eq!(cmd.workspace_manifest(), Some("/ws/Cargo.toml"));
    assert_eq!(cmd.target_dir(), "/ws/target");
    assert_eq!(names(&cmd), vec!["b".to_string()]);

    let mut args = no_args();
    args.package = vec!["root".to_string()];
    let cmd = Subcommand::new(args, &seen, &mut env).unwrap();
    assert_eq!(cmd.package(), "root");
    assert_eq!(cmd.manifest(), "/ws/Cargo.toml");
}

#[test]
fn workspace_without_the_named_package_fails() {
    let seen = a_workspace();
    let mut env = Environment::new();
    let mut args = no_args();
    args.package = vec!["nobody".to_string()];
    assert_eq!(
        Subcommand::new(args, &seen, &mut env).unwrap_err(),
        Error::PackageNotFound("/ws/Cargo.toml".to_string(), "nobody".to_string())
    );
}

#[test]
fn resolving_twice_gives_the_same_project() {
    let mut seen = a_project();
    seen.files.put("/proj/.cargo/config.toml".to_string(), true);
    seen.configs.put(
        "/proj/.cargo/config.toml".to_string(),
        Loaded::Found(Config {
            build: Some(Build { target_dir: Some("out".to_string()) }),
            env: Some(vec![
                EnvEntry { name: "A".to_string(), option: EnvOption::String("a".to_string()) },
                EnvEntry {
                    name: "CARGO_TARGET_DIR".to_string(),
                    option: EnvOption::Value {
                        value: "/forced".to_string(),
                        force: true,
                        relative: false,
                    },
                },
            ]),
        }),
    );
    let mut start = Environment::new();
    start.set_var("CARGO_TARGET_DIR".to_string(), "/from/process".to_string());
    start.set_var("A".to_string(), "kept".to_string());

    let mut env = Environment::new();
    env.set_var("CARGO_TARGET_DIR".to_string(), "/from/process".to_string());
    env.set_var("A".to_string(), "kept".to_string());
    let first = Subcommand::resolve(no_args(), &seen, &mut env, "host".to_string()).unwrap();
    let again = Subcommand::resolve(no_args(), &seen, &mut start, "host".to_string()).unwrap();
    assert_eq!(format!("{first:?}"), format!("{again:?}"));

    let after_first: Vec<Option<String>> =
        ["A", "CARGO_TARGET_DIR"].iter().map(|k| env.var(k).cloned()).collect();
    let second = Subcommand::resolve(no_args(), &seen, &mut env, "host".to_string()).unwrap();
    let after_second: Vec<Option<String>> =
        ["A", "CARGO_TARGET_DIR"].iter().map(|k| env.var(k).cloned()).collect();
    assert_eq!(format!("{first:?}"), format!("{second:?}"));
    assert_eq!(after_first, after_second);
    assert_eq!(after_first, vec![Some("kept".to_string()), Some("/forced".to_string())]);
    assert_eq!(first.target_dir(), "/forced");
    assert_eq!(first.config().unwrap().workspace, "/proj");
}

#[test]
fn output_root_follows_the_precedence() {
    let mut seen = a_project();
    seen.files.put("/proj/.cargo/config.toml".to_string(), true);
    seen.configs.put(
        "/proj/.cargo/config.toml".to_string(),
        Loaded::Found(Config {
            build: Some(Build { target_dir: Some("out".to_string()) }),
            env: None,
        }),
    );
    let root = |args: Args, env: &mut Environment| {
        Subcommand::new(args, &seen, env).unwrap().target_dir().to_string()
    };
    let mut env = Environment::new();
    assert_eq!(root(no_args(), &mut env), "/proj/out");
    env.set_var("CARGO_TARGET_DIR".to_string(), "/general".to_string());
    assert_eq!(root(no_args(), &mut env), "/general");
    env.set_var("CARGO_BUILD_TARGET_DIR".to_string(), "/dedicated".to_string());
    assert_eq!(root(no_args(), &mut env), "/dedicated");
    let mut args = no_args();
    args.target_dir = Some("/explicit".to_string());
    assert_eq!(root(args, &mut env), "/explicit");
}

#[test]
fn relative_output_root_is_taken_from_the_working_directory() {
    let seen = a_project();
    let mut env = Environment::new();
    let mut args = no_args();
    args.target_dir = Some("build/out".to_string());
    let cmd = Subcommand::new(args, &seen, &mut env).unwrap();
    assert_eq!(cmd.target_dir(), "/proj/src/build/out");
    env.set_var("CARGO_TARGET_DIR".to_string(), "rel".to_string());
    let cmd = Subcommand::new(no_args(), &seen, &mut env).unwrap();
    assert_eq!(cmd.target_dir(), "/proj/src/rel");
}

#[test]
fn failing_environment_entry_fails_the_resolution() {
    let mut seen = a_project();
    seen.files.put("/proj/.cargo/config.toml".to_string(), true);
    seen.configs.put(
        "/proj/.cargo/config.toml".to_string(),
        Loaded::Found(Config {
            build: None,
            env: Some(vec![EnvEntry {
                name: "ASSETS".to_string(),
                option: EnvOption::Value {
                    value: "nowhere".to_string(),
                    force: false,
                    relative: true,
                },
            }]),
        }),
    );
    seen.canonical.put("/proj/nowhere".to_string(), Err("No such file or directory".to_string()));
    let mut env = Environment::new();
    assert_eq!(
        Subcommand::new(no_args(), &seen, &mut env).unwrap_err(),
        Error::Env(EnvError::Io(
            "/proj/nowhere".to_string(),
            "No such file or directory".to_string()
        ))
    );
    env.set_var("ASSETS".to_string(), "/given".to_string());
    assert!(Subcommand::new(no_args(), &seen, &mut env).is_ok());
}

#[test]
fn request_chooses_among_the_artifacts() {
    let seen = a_project();
    let mut env = Environment::new();
    let mut args = no_args();
    args.bin = vec!["tool".to_string()];
    args.release = true;
    args.target = Some("wasm32-unknown-unknown".to_string());
    args.quiet = true;
    let cmd = Subcommand::new(args, &seen, &mut env).unwrap();
    assert_eq!(cmd.artifacts(), vec![&artifact("tool", "src/bin/tool.rs", ArtifactType::Bin)]);
    assert_eq!(cmd.profile(), &Profile::Release);
    assert_eq!(cmd.target(), Some("wasm32-unknown-unknown"));
    assert!(cmd.quiet());
}

#[test]
fn duplicate_binaries_fail_the_resolution() {
    let mut seen = a_project();
    let mut manifest = package("demo");
    manifest.bins = vec![
        Bin { name: "foo".to_string(), path: Some("a.rs".to_string()) },
        Bin { name: "foo".to_string(), path: Some("b.rs".to_string()) },
    ];
    seen.manifests.put("/proj/Cargo.toml".to_string(), Loaded::Found(manifest));
    let mut env = Environment::new();
    assert_eq!(
        Subcommand::new(no_args(), &seen, &mut env).unwrap_err(),
        Error::DuplicateBin("foo".to_string())
    );
}

#[test]
fn resolution_asks_until_it_knows_enough() {
    let world = a_project();
    let mut seen = Observations::new();
    let mut asked: Vec<Query> = vec![];
    let cmd = loop {
        let mut env = Environment::new();
        match Subcommand::new(no_args(), &seen, &mut env) {
            Ok(cmd) => break cmd,
            Err(Error::Unobserved(query)) => {
                assert!(!seen.is_answered(&query));
                assert!(world.is_answered(&query));
                match &query {
                    Query::IsFile(path) => {
                        seen.files.put(path.clone(), *world.files.find(path).unwrap())
                    }
                    Query::Canonical(path) => {
                        seen.canonical.put(path.clone(), world.canonical.find(path).unwrap().clone())
                    }
                    Query::CurrentDir => seen.current_dir = world.current_dir.clone(),
                    Query::Manifest(path) => {
                        let answer = match world.manifests.find(path).unwrap() {
                            Loaded::Missing(message) => Loaded::Missing(message.clone()),
                            _ => Loaded::Found(package("demo")),
                        };
                        seen.manifests.put(path.clone(), answer)
                    }
                    Query::Listing(path) => {
                        let answer = match world.listings.find(path).unwrap() {
                            Listing::Entries(entries) => Listing::Entries(
                                entries.iter().map(|e| file(e.name.as_str())).collect(),
                            ),
                            _ => Listing::Absent,
                        };
                        seen.listings.put(path.clone(), answer)
                    }
                    other => panic!("unexpected question {other:?}"),
                }
                asked.push(query);
            }
            Err(error) => panic!("{}", error.to_string()),
        }
    };
    assert_eq!(cmd.package(), "demo");
    assert_eq!(cmd.artifacts().len(), 4);
    assert_eq!(
        asked,
        vec![
            Query::CurrentDir,
            Query::Canonical("/proj/src".to_string()),
            Query::Manifest("/proj/src/Cargo.toml".to_string()),
            Query::Manifest("/proj/Cargo.toml".to_string()),
            Query::Manifest("/Cargo.toml".to_string()),
            Query::Canonical("/proj".to_string()),
            Query::IsFile("/proj/.cargo/config.toml".to_string()),
            Query::IsFile("/.cargo/config.toml".to_string()),
            Query::IsFile("/proj/src/main.rs".to_string()),
            Query::Listing("/proj/src/bin".to_string()),
            Query::Listing("/proj/examples".to_string()),
            Query::IsFile("/proj/src/lib.rs".to_string()),
        ]
    );
}

#[test]
fn build_paths_are_composed_from_root_target_and_profile() {
    assert_eq!(build_dir_below("/proj/target", None, &Profile::Dev), "/proj/target/debug");
    assert_eq!(build_dir_below("/proj/target", None, &Profile::Release), "/proj/target/release");
    assert_eq!(
        build_dir_below("/proj/target", Some("wasm32-unknown-unknown"), &Profile::Release),
        "/proj/target/wasm32-unknown-unknown/release"
    );
    assert_eq!(
        build_dir_below("/proj/target", None, &Profile::Custom("fast".to_string())),
        "/proj/target/fast"
    );
}

#[test]
fn artifact_paths_depend_on_kind_format_and_target() {
    let host = "x86_64-unknown-linux-gnu";
    let bin = artifact("my-tool", "src/main.rs", ArtifactType::Bin);
    let lib = artifact("my-lib", "src/lib.rs", ArtifactType::Lib);
    let example = artifact("hello", "examples/hello.rs", ArtifactType::Example);
    assert_eq!(
        artifact_below("/t", None, &Profile::Dev, host, &bin, CrateType::Bin),
        "/t/debug/my-tool"
    );
    assert_eq!(
        artifact_below("/t", Some("x86_64-pc-windows-msvc"), &Profile::Dev, host, &bin, CrateType::Bin),
        "/t/x86_64-pc-windows-msvc/debug/my-tool.exe"
    );
    assert_eq!(
        artifact_below("/t", None, &Profile::Dev, "x86_64-pc-windows-msvc", &bin, CrateType::Bin),
        "/t/debug/my-tool.exe"
    );
    assert_eq!(
        artifact_below("/t", Some("wasm32-wasi"), &Profile::Release, host, &bin, CrateType::Bin),
        "/t/wasm32-wasi/release/my-tool.wasm"
    );
    assert_eq!(
        artifact_below("/t", None, &Profile::Release, host, &lib, CrateType::Lib),
        "/t/release/libmy_lib.rlib"
    );
    assert_eq!(
        artifact_below("/t", None, &Profile::Release, host, &lib, CrateType::Staticlib),
        "/t/release/libmy_lib.a"
    );
    assert_eq!(
        artifact_below("/t", None, &Profile::Release, host, &lib, CrateType::Cdylib),
        "/t/release/libmy_lib.so"
    );
    assert_eq!(
        artifact_below("/t", None, &Profile::Dev, host, &example, CrateType::Bin),
        "/t/debug/examples/hello"
    );
    assert_eq!(
        artifact_below("/t", None, &Profile::Dev, host, &example, CrateType::Cdylib),
        "/t/debug/examples/libhello.so"
    );
}

#[test]
fn same_request_gives_the_same_path() {
    let bin = artifact("tool", "src/main.rs", ArtifactType::Bin);
    let one = artifact_below("/t", Some("aarch64-apple-darwin"), &Profile::Dev, "h", &bin, CrateType::Bin);
    let two = artifact_below("/t", Some("aarch64-apple-darwin"), &Profile::Dev, "h", &bin, CrateType::Bin);
    assert_eq!(one, two);
    assert_eq!(one, "/t/aarch64-apple-darwin/debug/tool");
}

#[test]
fn resolved_project_gives_the_paths_of_its_artifacts() {
    let seen = a_project();
    let mut env = Environment::new();
    let cmd = Subcommand::resolve(no_args(), &seen, &mut env, "x86_64-unknown-linux-gnu".to_string())
        .unwrap();
    assert_eq!(cmd.build_dir(None), "/proj/target/debug");
    assert_eq!(cmd.build_dir(Some("wasm32-wasi")), "/proj/target/wasm32-wasi/debug");
    let tool = artifact("tool", "src/bin/tool.rs", ArtifactType::Bin);
    assert_eq!(cmd.artifact(&tool, None, CrateType::Bin), "/proj/target/debug/tool");
    assert_eq!(
        cmd.artifact(&tool, Some("x86_64-pc-windows-gnu"), CrateType::Bin),
        "/proj/target/x86_64-pc-windows-gnu/debug/tool.exe"
    );
    let hello = artifact("hello", "examples/hello.rs", ArtifactType::Example);
    assert_eq!(cmd.artifact(&hello, None, CrateType::Bin), "/proj/target/debug/examples/hello");
}

#[test]
fn explicit_manifest_is_the_one_that_is_resolved() {
    let mut seen = a_project();
    seen.files.put("/proj/sub/Cargo.toml".to_string(), true);
    seen.canonical.put("/proj/sub".to_string(), Ok("/proj/sub".to_string()));
    seen.manifests.put(
        "/proj/sub/Cargo.toml".to_string(),
        Loaded::Missing("No such file or directory (os error 2)".to_string()),
    );
    let mut env = Environment::new();
    let mut args = no_args();
    args.manifest_path = Some("/proj/sub/Cargo.toml".to_string());
    assert_eq!(
        Subcommand::new(args, &seen, &mut env).unwrap_err(),
        Error::Io(
            "/proj/sub/Cargo.toml".to_string(),
            "No such file or directory (os error 2)".to_string()
        )
    );

    seen.manifests.put("/proj/sub/Cargo.toml".to_string(), Loaded::Found(package("sub")));
    bare_package(&mut seen, "/proj/sub");
    let mut args = no_args();
    args.manifest_path = Some("/proj/sub/Cargo.toml".to_string());
    let cmd = Subcommand::new(args, &seen, &mut env).unwrap();
    assert_eq!(cmd.package(), "sub");
    assert_eq!(cmd.manifest(), "/proj/sub/Cargo.toml");
}

#[test]
fn explicit_manifest_is_taken_by_its_canonical_directory() {
    let mut seen = a_project();
    seen.files.put("link/Cargo.toml".to_string(), true);
    seen.canonical.put("link".to_string(), Ok("/proj".to_string()));
    let mut env = Environment::new();
    let mut args = no_args();
    args.manifest_path = Some("link/Cargo.toml".to_string());
    let cmd = Subcommand::new(args, &seen, &mut env).unwrap();
    assert_eq!(cmd.manifest(), "/proj/Cargo.toml");
    assert_eq!(cmd.package(), "demo");
}

fn with_relative_entry(seen: &mut Observations) {
    seen.files.put("/proj/.cargo/config.toml".to_string(), true);
    seen.configs.put(
        "/proj/.cargo/config.toml".to_string(),
        Loaded::Found(Config {
            build: None,
            env: Some(vec![EnvEntry {
                name: "ASSETS".to_string(),
                option: EnvOption::Value {
                    value: "assets".to_string(),
                    force: false,
                    relative: true,
                },
            }]),
        }),
    );
}

#[test]
fn relative_entry_asks_its_question_like_any_other() {
    let mut seen = a_project();
    with_relative_entry(&mut seen);
    let mut env = Environment::new();
    assert_eq!(
        Subcommand::new(no_args(), &seen, &mut env).unwrap_err(),
        Error::Unobserved(Query::Canonical("/proj/assets".to_string()))
    );
}

#[test]
fn relative_entry_is_driven_to_the_end() {
    let mut seen = a_project();
    with_relative_entry(&mut seen);
    let mut asked: Vec<Query> = vec![];
    let (cmd, env) = loop {
        let mut env = Environment::new();
        match Subcommand::new(no_args(), &seen, &mut env) {
            Ok(cmd) => break (cmd, env),
            Err(Error::Unobserved(Query::Canonical(path))) => {
                seen.canonical.put(path.clone(), Ok(format!("/real{path}")));
                asked.push(Query::Canonical(path));
            }
            Err(error) => panic!("{}", error.to_string()),
        }
    };
    assert_eq!(asked, vec![Query::Canonical("/proj/assets".to_string())]);
    assert_eq!(cmd.package(), "demo");
    assert_eq!(env.var("ASSETS").cloned(), Some("/real/proj/assets".to_string()));
}

#[test]
fn settings_that_set_a_variable_twice_fail_the_resolution() {
    let mut seen = a_project();
    seen.files.put("/proj/.cargo/config.toml".to_string(), true);
    let entry = |value: &str| EnvEntry {
        name: "X".to_string(),
        option: EnvOption::Value { value: value.to_string(), force: true, relative: false },
    };
    seen.configs.put(
        "/proj/.cargo/config.toml".to_string(),
        Loaded::Found(Config { build: None, env: Some(vec![entry("a"), entry("b")]) }),
    );
    let mut env = Environment::new();
    assert_eq!(
        Subcommand::new(no_args(), &seen, &mut env).unwrap_err(),
        Error::Toml(
            "/proj/.cargo/config.toml".to_string(),
            "duplicate key in table `env`".to_string()
        )
    );
    assert_eq!(env.var("X"), None);
}

#[test]
fn declared_binary_found_by_convention_has_a_relative_source() {
    let mut seen = a_project();
    let mut manifest = package("demo");
    manifest.bins = vec![Bin { name: "tool".to_string(), path: None }];
    seen.manifests.put("/proj/Cargo.toml".to_string(), Loaded::Found(manifest));
    seen.files.put("/proj/src/bin/tool.rs".to_string(), true);
    let mut env = Environment::new();
    let cmd = Subcommand::new(no_args(), &seen, &mut env).unwrap();
    assert_eq!(
        cmd.artifacts(),
        vec![
            &artifact("demo", "src/lib.rs", ArtifactType::Lib),
            &artifact("tool", "src/bin/tool.rs", ArtifactType::Bin),
            &artifact("demo", "src/main.rs", ArtifactType::Bin),
            &artifact("hello", "examples/hello.rs", ArtifactType::Example),
        ]
    );
    assert!(cmd.artifacts().iter().all(|a| !a.path.starts_with('/')));
}
