//! The resolved project: the one package that a request means, its
//! artifacts, and where each of them is written.

use crate::args::{chars_of, Args};
use crate::artifact::{
    compatible, output_file_name, output_subdirectory, Artifact, ArtifactView,
};
use crate::config::{
    applied, config_for_workspace, config_view, lemma_applied_idempotent, EnvError, Environment,
    EnvErrorView, LocalizedConfig, LocalizedConfigView,
};
use crate::discover::{
    artifacts_of, choose_artifacts, find_artifacts, lemma_chosen_placed, Artifacts, ArtifactsView,
};
use crate::error::{Error, ErrorView};
use crate::manifest::{CrateType, Manifest};
use crate::observe::{Observations, Query, QueryView};
use crate::paths;
use crate::profile::{Profile, ProfileView};
use crate::select::{declares, select_alone, select_in_workspace, text_of};
use crate::text;
use crate::utils::{
    canonical, canonicalize, find_manifest, find_manifest_spec, find_package_manifest_in_workspace,
    find_workspace, find_workspace_spec, get_target_dir_name, manifest_in, target_dir_name,
};
use vstd::prelude::*;
use vstd::string::*;

verus! {

/// A resolved project.
#[derive(Debug)]
pub struct Subcommand {
    args: Args,
    package: String,
    workspace_manifest: Option<String>,
    manifest: String,
    target_dir: String,
    host_triple: String,
    profile: Profile,
    lib_artifact: Option<Artifact>,
    bin_artifacts: Vec<Artifact>,
    example_artifacts: Vec<Artifact>,
    config: Option<LocalizedConfig>,
}

/// What a [`Subcommand`] holds.
pub struct SubcommandView {
    pub args: Args,
    pub package: Seq<char>,
    pub workspace_manifest: Option<Seq<char>>,
    pub manifest: Seq<char>,
    pub target_dir: Seq<char>,
    pub host_triple: Seq<char>,
    pub profile: ProfileView,
    pub artifacts: ArtifactsView,
    pub config: Option<LocalizedConfigView>,
}

impl View for Subcommand {
    type V = SubcommandView;

    closed spec fn view(&self) -> SubcommandView {
        SubcommandView {
            args: self.args,
            package: self.package@,
            workspace_manifest: chars_of(self.workspace_manifest),
            manifest: self.manifest@,
            target_dir: self.target_dir@,
            host_triple: self.host_triple@,
            profile: self.profile@,
            artifacts: ArtifactsView {
                lib: match self.lib_artifact {
                    Some(lib) => Some(lib@),
                    None => None,
                },
                bins: self.bin_artifacts.deep_view(),
                examples: self.example_artifacts.deep_view(),
            },
            config: config_view(self.config),
        }
    }
}

/// What the resolution settles before it touches the environment: the
/// package, its descriptor, the workspace root and the settings.
pub struct Selection {
    pub manifest_path: Seq<char>,
    pub manifest: Manifest,
    pub workspace_manifest: Option<Seq<char>>,
    pub package: Seq<char>,
    pub config: Option<LocalizedConfigView>,
}

/// Whether a request can be resolved at all: it names at most one package
/// and asks neither for the whole workspace nor for exclusions.
pub open spec fn supported(args: Args) -> bool {
    args.package.len() < 2 && !args.workspace && args.exclude.len() == 0
}

/// The name of the package that the request asks for, if it asks for one.
pub open spec fn requested_package(args: Args) -> Option<Seq<char>> {
    if args.package.len() > 0 {
        Some(args.package[0]@)
    } else {
        None
    }
}

/// The working directory as it was observed.
pub open spec fn current_dir(seen: Observations) -> Result<Seq<char>, ErrorView> {
    match seen.current_dir {
        None => Err(ErrorView::Unobserved(QueryView::CurrentDir)),
        Some(Err(message)) => Err(ErrorView::Io(Seq::empty(), message@)),
        Some(Ok(dir)) => Ok(dir@),
    }
}

/// The directory where the search for the descriptor starts. A descriptor
/// that the request names must be a file called `Cargo.toml`, and the
/// search starts in its directory, made canonical; else it starts in the
/// working directory.
pub open spec fn search_path(seen: Observations, args: Args) -> Result<Seq<char>, ErrorView> {
    match args.manifest_path {
        Some(path) => if paths::file_name(path@) != "Cargo.toml"@ {
            Err(ErrorView::ManifestPathNotFound)
        } else {
            match seen.files.get(path@) {
                None => Err(ErrorView::Unobserved(QueryView::IsFile(path@))),
                Some(false) => Err(ErrorView::ManifestPathNotFound),
                Some(true) => canonical(seen, paths::directory(path@)),
            }
        },
        None => current_dir(seen),
    }
}

/// The descriptor that the request starts from. A descriptor that the
/// request names is taken itself, as the descriptor of its canonical
/// directory, and must be there; else it is the nearest descriptor at or
/// above the start of the search.
pub open spec fn potential_manifest(seen: Observations, args: Args, start: Seq<char>) -> Result<
    (Seq<char>, Manifest),
    ErrorView,
> {
    match args.manifest_path {
        Some(_) => match Manifest::parsed(seen, manifest_in(start)) {
            Ok(manifest) => Ok((manifest_in(start), manifest)),
            Err(error) => Err(error),
        },
        None => find_manifest_spec(seen, start),
    }
}

/// The failure of the resolution where carrying the settings over to the
/// environment failed: a question that has no answer is asked as any other
/// question is.
pub open spec fn environment_failure(error: EnvErrorView) -> ErrorView {
    match error {
        EnvErrorView::Unobserved(query) => ErrorView::Unobserved(query),
        _ => ErrorView::Env(error),
    }
}

/// The package that the request means, with its descriptor and the
/// workspace root that encloses it, if one does.
pub open spec fn chosen_package(seen: Observations, args: Args) -> Result<
    (Seq<char>, Manifest, Option<Seq<char>>),
    ErrorView,
> {
    match search_path(seen, args) {
        Err(error) => Err(error),
        Ok(start) => match potential_manifest(seen, args, start) {
            Err(error) => Err(error),
            Ok((potential_path, potential)) => match find_workspace_spec(seen, start) {
                Err(error) => Err(error),
                Ok(Some((workspace_path, workspace))) => match select_in_workspace(
                    seen,
                    workspace_path,
                    workspace,
                    potential_path,
                    potential,
                    requested_package(args),
                ) {
                    Err(error) => Err(error),
                    Ok((path, manifest)) => Ok((path, manifest, Some(workspace_path))),
                },
                Ok(None) => match select_alone(potential, potential_path, requested_package(args)) {
                    Err(error) => Err(error),
                    Ok((path, manifest)) => Ok((path, manifest, None)),
                },
            },
        },
    }
}

/// The descriptor of the package that a request means declares a package.
pub proof fn lemma_chosen_package(seen: Observations, args: Args)
    ensures
        chosen_package(seen, args) matches Ok((_, manifest, _)) ==> manifest.package is Some,
{
    match search_path(seen, args) {
        Ok(start) => match (potential_manifest(seen, args, start), find_workspace_spec(seen, start)) {
            (Ok((potential_path, potential)), Ok(Some((workspace_path, workspace)))) => {
                crate::select::lemma_selected_is_package(
                    seen,
                    workspace_path,
                    workspace,
                    potential_path,
                    potential,
                    requested_package(args),
                );
            },
            _ => {},
        },
        Err(_) => {},
    }
}

/// What the resolution settles before it touches the environment.
pub open spec fn selection(seen: Observations, args: Args) -> Result<Selection, ErrorView> {
    if !supported(args) {
        Err(ErrorView::InvalidArgs)
    } else {
        match chosen_package(seen, args) {
            Err(error) => Err(error),
            Ok((manifest_path, manifest, workspace_manifest)) => match config_for_workspace(
                seen,
                paths::directory(manifest_path),
            ) {
                Err(error) => Err(error),
                Ok(config) => Ok(
                    Selection {
                        manifest_path,
                        manifest,
                        workspace_manifest,
                        package: manifest.package_name(),
                        config,
                    },
                ),
            },
        }
    }
}

/// The environment after the settings were carried over to it, and the
/// failure that ended the run, if one did.
pub open spec fn propagated(
    config: Option<LocalizedConfigView>,
    seen: Observations,
    env: Map<Seq<char>, Seq<char>>,
) -> (Map<Seq<char>, Seq<char>>, Option<EnvErrorView>) {
    match config {
        Some(config) => applied(config.config.entries(), config.workspace, seen, env),
        None => (env, None),
    }
}

/// The output root that the request or the environment names: the
/// request's own, else that of `CARGO_BUILD_TARGET_DIR`, else that of
/// `CARGO_TARGET_DIR`.
pub open spec fn named_root(args: Args, env: Map<Seq<char>, Seq<char>>) -> Option<Seq<char>> {
    match args.target_dir {
        Some(dir) => Some(dir@),
        None => if env.contains_key("CARGO_BUILD_TARGET_DIR"@) {
            Some(env["CARGO_BUILD_TARGET_DIR"@])
        } else if env.contains_key("CARGO_TARGET_DIR"@) {
            Some(env["CARGO_TARGET_DIR"@])
        } else {
            None
        },
    }
}

/// The output root. A named root stands, taken from the working directory
/// where it is relative. Where none is named, the root lies in `base`
/// under the name that the settings give, or `target`.
pub open spec fn output_root(
    seen: Observations,
    args: Args,
    env: Map<Seq<char>, Seq<char>>,
    base: Seq<char>,
    config: Option<LocalizedConfigView>,
) -> Result<Seq<char>, ErrorView> {
    match named_root(args, env) {
        Some(dir) => if paths::is_absolute(dir) {
            Ok(dir)
        } else {
            match current_dir(seen) {
                Err(error) => Err(error),
                Ok(cwd) => Ok(paths::join(cwd, dir)),
            }
        },
        None => Ok(
            paths::join(
                base,
                target_dir_name(
                    match config {
                        Some(config) => Some(config.config),
                        None => None,
                    },
                ),
            ),
        ),
    }
}

/// The environment that a resolution leaves.
pub open spec fn resolved_environment(
    args: Args,
    seen: Observations,
    env: Map<Seq<char>, Seq<char>>,
) -> Map<Seq<char>, Seq<char>> {
    match selection(seen, args) {
        Err(_) => env,
        Ok(chosen) => propagated(chosen.config, seen, env).0,
    }
}

/// The resolved project of a request, or the failure of the resolution.
///
/// The package is selected and its settings are found; the settings'
/// variables are carried over to the environment; the output root is
/// settled; the artifacts are discovered and chosen among.
pub open spec fn resolution(
    args: Args,
    seen: Observations,
    env: Map<Seq<char>, Seq<char>>,
    host_triple: Seq<char>,
) -> Result<SubcommandView, ErrorView> {
    match selection(seen, args) {
        Err(error) => Err(error),
        Ok(chosen) => match propagated(chosen.config, seen, env).1 {
            Some(error) => Err(environment_failure(error)),
            None => match output_root(
                seen,
                args,
                propagated(chosen.config, seen, env).0,
                paths::directory(
                    match chosen.workspace_manifest {
                        Some(path) => path,
                        None => chosen.manifest_path,
                    },
                ),
                chosen.config,
            ) {
                Err(error) => Err(error),
                Ok(target_dir) => match artifacts_of(
                    seen,
                    paths::directory(chosen.manifest_path),
                    chosen.package,
                    chosen.manifest,
                    args,
                ) {
                    Err(error) => Err(error),
                    Ok(artifacts) => Ok(
                        SubcommandView {
                            args,
                            package: chosen.package,
                            workspace_manifest: chosen.workspace_manifest,
                            manifest: chosen.manifest_path,
                            target_dir,
                            host_triple,
                            profile: args.chosen_profile(),
                            artifacts,
                            config: chosen.config,
                        },
                    ),
                },
            },
        },
    }
}

/// What a resolution gave, as it is seen in contracts.
pub open spec fn resolved(result: Result<Subcommand, Error>) -> Result<SubcommandView, ErrorView> {
    match result {
        Ok(cmd) => Ok(cmd@),
        Err(error) => Err(error@),
    }
}

/// The build directory below the output root `root`: that of the target,
/// where one is given, and in it that of the profile.
pub open spec fn build_dir_in(root: Seq<char>, target: Option<Seq<char>>, profile: ProfileView) -> Seq<
    char,
> {
    paths::join(
        match target {
            Some(target) => paths::join(root, target),
            None => root,
        },
        profile.dir_name(),
    )
}

/// The path of an artifact's output below the output root `root`: the
/// build directory, the directory of the artifact's kind, and the file's
/// name for the target, which is the host where no target is given.
pub open spec fn artifact_path(
    root: Seq<char>,
    target: Option<Seq<char>>,
    profile: ProfileView,
    host_triple: Seq<char>,
    artifact: ArtifactView,
    crate_type: CrateType,
) -> Seq<char> {
    paths::join(
        paths::join(build_dir_in(root, target, profile), output_subdirectory(artifact.kind)),
        output_file_name(
            artifact.name,
            crate_type,
            match target {
                Some(target) => target,
                None => host_triple,
            },
        ),
    )
}

/// Whether `simple` can be the simplified form of `path`: the path itself,
/// or the path without the four characters of a verbatim prefix.
pub open spec fn simplifies(path: Seq<char>, simple: Seq<char>) -> bool {
    simple == path || (path.len() >= 4 && simple == path.skip(4))
}

/// The platform that this library was built for, from
/// `current_platform::CURRENT_PLATFORM`. The text is fixed when the library
/// is built, so nothing is claimed of it.
#[verifier::external_body]
fn host_platform() -> (triple: String) {
    current_platform::CURRENT_PLATFORM.to_owned()
}

/// `dunce::simplified` on a path given as text. That function returns its
/// argument unchanged, except on Windows for a verbatim disk path that is
/// safe to shorten, of which it returns the text after the first four
/// bytes, the prefix `\\?\`. The contract claims that the result is one of
/// these two.
#[verifier::external_body]
fn simplified(path: &str) -> (simple: String)
    ensures
        simplifies(path@, simple@),
{
    dunce::simplified(std::path::Path::new(path)).to_string_lossy().into_owned()
}

/// The build directory below the output root `root`.
pub fn build_dir_below(root: &str, target: Option<&str>, profile: &Profile) -> (dir: String)
    ensures
        dir@ == build_dir_in(root@, text_of(target), profile@),
{
    let arch_dir = match target {
        Some(target) => paths::join_path(root, target),
        None => root.to_owned(),
    };
    paths::join_path(arch_dir.as_str(), profile.as_ref())
}

/// The path of an artifact's output below the output root `root`.
pub fn artifact_below(
    root: &str,
    target: Option<&str>,
    profile: &Profile,
    host_triple: &str,
    artifact: &Artifact,
    crate_type: CrateType,
) -> (path: String)
    requires
        compatible(artifact.kind, crate_type),
    ensures
        path@ == artifact_path(
            root@,
            text_of(target),
            profile@,
            host_triple@,
            artifact@,
            crate_type,
        ),
{
    let triple = match target {
        Some(target) => target,
        None => host_triple,
    };
    let file_name = artifact.file_name(crate_type, triple);
    let build_dir = build_dir_below(root, target, profile);
    let kind_dir = paths::join_path(build_dir.as_str(), artifact.build_dir());
    paths::join_path(kind_dir.as_str(), file_name.as_str())
}

/// The working directory as it was observed.
pub fn observed_current_dir(seen: &Observations) -> (dir: Result<String, Error>)
    ensures
        match dir {
            Ok(dir) => current_dir(*seen) == Ok::<Seq<char>, ErrorView>(dir@),
            Err(error) => current_dir(*seen) == Err::<Seq<char>, ErrorView>(error@),
        },
{
    match &seen.current_dir {
        None => Err(Error::Unobserved(Query::CurrentDir)),
        Some(Err(message)) => Err(Error::Io(String::new(), message.clone())),
        Some(Ok(dir)) => Ok(dir.clone()),
    }
}

/// The directory where the search for the descriptor starts.
pub fn find_search_path(args: &Args, seen: &Observations) -> (start: Result<String, Error>)
    ensures
        match start {
            Ok(start) => search_path(*seen, *args) == Ok::<Seq<char>, ErrorView>(start@),
            Err(error) => search_path(*seen, *args) == Err::<Seq<char>, ErrorView>(error@),
        },
{
    match &args.manifest_path {
        Some(path) => {
            let name = paths::file_name_of(path.as_str());
            if !text::equal(name.as_str(), "Cargo.toml") {
                return Err(Error::ManifestPathNotFound);
            }
            match seen.files.find(path.as_str()) {
                None => Err(Error::Unobserved(Query::IsFile(path.clone()))),
                Some(is_file) => {
                    if *is_file {
                        let dir = paths::directory_of(path.as_str());
                        canonicalize(dir.as_str(), seen)
                    } else {
                        Err(Error::ManifestPathNotFound)
                    }
                },
            }
        },
        None => observed_current_dir(seen),
    }
}

/// The output root.
pub fn find_output_root(
    args: &Args,
    env: &Environment,
    base: &str,
    config: Option<&LocalizedConfig>,
    seen: &Observations,
) -> (root: Result<String, Error>)
    ensures
        match root {
            Ok(root) => output_root(
                *seen,
                *args,
                env@,
                base@,
                match config {
                    Some(c) => Some(c@),
                    None => None,
                },
            ) == Ok::<Seq<char>, ErrorView>(root@),
            Err(error) => output_root(
                *seen,
                *args,
                env@,
                base@,
                match config {
                    Some(c) => Some(c@),
                    None => None,
                },
            ) == Err::<Seq<char>, ErrorView>(error@),
        },
{
    let named: Option<String> = match &args.target_dir {
        Some(dir) => Some(dir.clone()),
        None => match env.var("CARGO_BUILD_TARGET_DIR") {
            Some(dir) => Some(dir.clone()),
            None => match env.var("CARGO_TARGET_DIR") {
                Some(dir) => Some(dir.clone()),
                None => None,
            },
        },
    };
    match named {
        Some(dir) => {
            if paths::absolute(dir.as_str()) {
                Ok(dir)
            } else {
                match observed_current_dir(seen) {
                    Ok(cwd) => Ok(paths::join_path(cwd.as_str(), dir.as_str())),
                    Err(error) => Err(error),
                }
            }
        },
        None => {
            let name = match get_target_dir_name(
                match config {
                    Some(config) => Some(&config.config),
                    None => None,
                },
            ) {
                Ok(name) => name,
                Err(error) => return Err(error),
            };
            Ok(paths::join_path(base, name.as_str()))
        },
    }
}

impl Subcommand {
    /// Resolves a request for the platform that this library was built for.
    /// What was learned of the file system is in `seen`, and `env` stands
    /// for the environment of the process: the variables of the settings are
    /// carried over to it. Where an answer is missing from `seen`, the
    /// resolution fails with the question. The artifacts of a resolved
    /// project are told apart by kind and name, and the source of each is
    /// relative to the package root unless its declaration names the path.
    pub fn new(args: Args, seen: &Observations, env: &mut Environment) -> (result: Result<
        Self,
        Error,
    >)
        ensures
            final(env)@ == resolved_environment(args, *seen, old(env)@),
            exists|host_triple: Seq<char>|
                resolved(result) == resolution(args, *seen, old(env)@, host_triple),
            result matches Ok(cmd) ==> cmd@.artifacts.well_formed() && cmd@.artifacts.well_placed(
                selection(*seen, args)->Ok_0.manifest,
            ),
    {
        let host_triple = host_platform();
        let result = Self::resolve(args, seen, env, host_triple);
        assert(resolved(result) == resolution(args, *seen, old(env)@, host_triple@));
        result
    }

    /// Resolves a request for the host platform `host_triple`.
    pub fn resolve(
        args: Args,
        seen: &Observations,
        env: &mut Environment,
        host_triple: String,
    ) -> (result: Result<Self, Error>)
        ensures
            final(env)@ == resolved_environment(args, *seen, old(env)@),
            resolved(result) == resolution(args, *seen, old(env)@, host_triple@),
            result matches Ok(cmd) ==> cmd@.artifacts.well_formed() && cmd@.artifacts.well_placed(
                selection(*seen, args)->Ok_0.manifest,
            ),
    {
        if args.package.len() >= 2 || args.workspace || args.exclude.len() > 0 {
            return Err(Error::InvalidArgs);
        }
        let package_name: Option<&str> = if args.package.len() > 0 {
            Some(args.package[0].as_str())
        } else {
            None
        };
        let search = match find_search_path(&args, seen) {
            Ok(search) => search,
            Err(error) => return Err(error),
        };
        let potential = match &args.manifest_path {
            Some(_) => {
                let path = paths::join_path(search.as_str(), "Cargo.toml");
                match Manifest::parse_from_toml(path.as_str(), seen) {
                    Ok(manifest) => (path, manifest),
                    Err(error) => return Err(error),
                }
            },
            None => match find_manifest(search.as_str(), seen) {
                Ok(potential) => potential,
                Err(error) => return Err(error),
            },
        };
        let workspace = match find_workspace(search.as_str(), seen) {
            Ok(workspace) => workspace,
            Err(error) => return Err(error),
        };
        let (manifest_path, manifest) = match &workspace {
            Some(workspace) => match find_package_manifest_in_workspace(
                workspace,
                potential,
                package_name,
                seen,
            ) {
                Ok(chosen) => chosen,
                Err(error) => return Err(error),
            },
            None => {
                let (path, found) = potential;
                match found.map_nonvirtual_package(path, package_name) {
                    Ok(chosen) => chosen,
                    Err(error) => return Err(error),
                }
            },
        };
        let workspace_manifest: Option<String> = match workspace {
            Some((path, _)) => Some(path),
            None => None,
        };
        let package = match &manifest.package {
            Some(package) => package.name.clone(),
            None => {
                proof {
                    lemma_chosen_package(*seen, args);
                }
                return Err(Error::NoPackageInManifest(manifest_path));
            },
        };
        let root_dir = paths::directory_of(manifest_path.as_str());
        let config = match LocalizedConfig::find_cargo_config_for_workspace(root_dir.as_str(), seen) {
            Ok(config) => config,
            Err(error) => return Err(error),
        };
        if let Some(config) = &config {
            match config.set_env_vars(env, seen) {
                Ok(_) => {},
                Err(EnvError::Unobserved(query)) => return Err(Error::Unobserved(query)),
                Err(error) => return Err(Error::Env(error)),
            }
        }
        let base = paths::directory_of(
            match &workspace_manifest {
                Some(path) => path.as_str(),
                None => manifest_path.as_str(),
            },
        );
        let target_dir = match find_output_root(&args, env, base.as_str(), config.as_ref(), seen) {
            Ok(target_dir) => target_dir,
            Err(error) => return Err(error),
        };
        let found = match find_artifacts(manifest, package.as_str(), root_dir.as_str(), seen) {
            Ok(found) => found,
            Err(error) => return Err(error),
        };
        proof {
            lemma_chosen_placed(found@, args, *manifest);
        }
        let Artifacts { lib, bins, examples } = choose_artifacts(found, &args);
        let profile = args.profile();
        Ok(
            Subcommand {
                args,
                package,
                workspace_manifest,
                manifest: manifest_path,
                target_dir,
                host_triple,
                profile,
                lib_artifact: lib,
                bin_artifacts: bins,
                example_artifacts: examples,
                config,
            },
        )
    }

    /// The request that was resolved.
    pub fn args(&self) -> (args: &Args)
        ensures
            *args == self@.args,
    {
        &self.args
    }

    /// The name of the package that is built.
    pub fn package(&self) -> (name: &str)
        ensures
            name@ == self@.package,
    {
        self.package.as_str()
    }

    /// The descriptor of the workspace root, if a workspace encloses the
    /// package.
    pub fn workspace_manifest(&self) -> (path: Option<&str>)
        ensures
            text_of(path) == self@.workspace_manifest,
    {
        match &self.workspace_manifest {
            Some(path) => Some(path.as_str()),
            None => None,
        }
    }

    /// The descriptor of the package.
    pub fn manifest(&self) -> (path: &str)
        ensures
            path@ == self@.manifest,
    {
        self.manifest.as_str()
    }

    /// The target that the request names, if it names one.
    pub fn target(&self) -> (target: Option<&str>)
        ensures
            text_of(target) == chars_of(self@.args.target),
    {
        match &self.args.target {
            Some(target) => Some(target.as_str()),
            None => None,
        }
    }

    /// The profile that is built.
    pub fn profile(&self) -> (profile: &Profile)
        ensures
            profile@ == self@.profile,
    {
        &self.profile
    }

    /// The artifacts that are built: the library, then the binaries, then
    /// the examples.
    pub fn artifacts(&self) -> (all: Vec<&Artifact>)
        ensures
            all.deep_view() == (match self@.artifacts.lib {
                Some(lib) => seq![lib],
                None => Seq::empty(),
            }) + self@.artifacts.bins + self@.artifacts.examples,
    {
        let mut all: Vec<&Artifact> = Vec::new();
        if let Some(lib) = &self.lib_artifact {
            all.push(lib);
        }
        let ghost head = all.deep_view();
        assert(head =~= match self@.artifacts.lib {
            Some(lib) => seq![lib],
            None => Seq::empty(),
        });
        let mut i: usize = 0;
        while i < self.bin_artifacts.len()
            invariant
                i <= self.bin_artifacts.len(),
                all.deep_view() =~= head + self.bin_artifacts.deep_view().subrange(0, i as int),
            decreases self.bin_artifacts.len() - i,
        {
            let ghost before = all.deep_view();
            all.push(&self.bin_artifacts[i]);
            assert(all.deep_view() =~= before.push(self.bin_artifacts[i as int]@));
            assert(self.bin_artifacts.deep_view()[i as int] == self.bin_artifacts[i as int]@);
            i = i + 1;
        }
        let ghost middle = all.deep_view();
        assert(middle =~= head + self.bin_artifacts.deep_view());
        let mut j: usize = 0;
        while j < self.example_artifacts.len()
            invariant
                j <= self.example_artifacts.len(),
                all.deep_view() =~= middle + self.example_artifacts.deep_view().subrange(
                    0,
                    j as int,
                ),
            decreases self.example_artifacts.len() - j,
        {
            let ghost before = all.deep_view();
            all.push(&self.example_artifacts[j]);
            assert(all.deep_view() =~= before.push(self.example_artifacts[j as int]@));
            assert(self.example_artifacts.deep_view()[j as int] == self.example_artifacts[j as int]@);
            j = j + 1;
        }
        assert(all.deep_view() =~= middle + self.example_artifacts.deep_view());
        all
    }

    /// The output root.
    pub fn target_dir(&self) -> (dir: &str)
        ensures
            dir@ == self@.target_dir,
    {
        self.target_dir.as_str()
    }

    /// The platform that the resolution was made on.
    pub fn host_triple(&self) -> (triple: &str)
        ensures
            triple@ == self@.host_triple,
    {
        self.host_triple.as_str()
    }

    /// Whether the request asks for silence.
    pub fn quiet(&self) -> (quiet: bool)
        ensures
            quiet == self@.args.quiet,
    {
        self.args.quiet
    }

    /// The settings that govern the package, if there are any.
    pub fn config(&self) -> (config: Option<&LocalizedConfig>)
        ensures
            match config {
                Some(c) => self@.config == Some(c@),
                None => self@.config is None,
            },
    {
        self.config.as_ref()
    }

    /// The build directory for `target`, below the simplified form of the
    /// output root.
    pub fn build_dir(&self, target: Option<&str>) -> (dir: String)
        ensures
            exists|root: Seq<char>|
                simplifies(self@.target_dir, root) && dir@ == build_dir_in(
                    root,
                    text_of(target),
                    self@.profile,
                ),
    {
        let root = simplified(self.target_dir());
        let dir = build_dir_below(root.as_str(), target, self.profile());
        assert(simplifies(self@.target_dir, root@) && dir@ == build_dir_in(
            root@,
            text_of(target),
            self@.profile,
        ));
        dir
    }

    /// The path where `artifact` is written when it is built in format
    /// `crate_type` for `target`, below the simplified form of the output
    /// root.
    pub fn artifact(&self, artifact: &Artifact, target: Option<&str>, crate_type: CrateType) -> (path:
        String)
        requires
            compatible(artifact.kind, crate_type),
        ensures
            exists|root: Seq<char>|
                simplifies(self@.target_dir, root) && path@ == artifact_path(
                    root,
                    text_of(target),
                    self@.profile,
                    self@.host_triple,
                    artifact@,
                    crate_type,
                ),
    {
        let root = simplified(self.target_dir());
        let path = artifact_below(
            root.as_str(),
            target,
            self.profile(),
            self.host_triple(),
            artifact,
            crate_type,
        );
        assert(simplifies(self@.target_dir, root@) && path@ == artifact_path(
            root@,
            text_of(target),
            self@.profile,
            self@.host_triple,
            artifact@,
            crate_type,
        ));
        path
    }
}

/// A project outside any workspace resolves to its own package. Where no
/// workspace encloses the start of the search and the request names no
/// package, a resolution that succeeds gives the package that the
/// descriptor declares which the request starts from, under that
/// descriptor's path.
pub proof fn lemma_resolves_own_package(
    args: Args,
    seen: Observations,
    env: Map<Seq<char>, Seq<char>>,
    host_triple: Seq<char>,
)
    requires
        resolution(args, seen, env, host_triple) is Ok,
        args.package.len() == 0,
        search_path(seen, args) matches Ok(start) && find_workspace_spec(seen, start) == Ok::<
            Option<(Seq<char>, Manifest)>,
            ErrorView,
        >(None),
    ensures
        ({
            let cmd = resolution(args, seen, env, host_triple)->Ok_0;
            let start = search_path(seen, args)->Ok_0;
            &&& potential_manifest(seen, args, start) matches Ok((path, manifest)) && manifest.package
                is Some && cmd.package == manifest.package_name() && cmd.manifest == path
            &&& cmd.workspace_manifest is None
        }),
{
}

/// A request for a package by name never resolves to another package: a
/// resolution that succeeds gives the package of exactly that name.
pub proof fn lemma_resolves_requested_package(
    args: Args,
    seen: Observations,
    env: Map<Seq<char>, Seq<char>>,
    host_triple: Seq<char>,
)
    requires
        resolution(args, seen, env, host_triple) is Ok,
        args.package.len() == 1,
    ensures
        resolution(args, seen, env, host_triple)->Ok_0.package == args.package[0]@,
{
    let name = args.package[0]@;
    let start = search_path(seen, args)->Ok_0;
    let (potential_path, potential) = potential_manifest(seen, args, start)->Ok_0;
    match find_workspace_spec(seen, start)->Ok_0 {
        Some((workspace_path, workspace)) => {
            crate::select::lemma_selection_by_name(
                seen,
                workspace_path,
                workspace,
                potential_path,
                potential,
                name,
            );
        },
        None => {},
    }
}

/// Inside a workspace, a request for a name that neither the root nor any
/// member declares fails: where the workspace could be read and lists the
/// descriptor that the search found, the failure is that the package was
/// not found in the workspace.
pub proof fn lemma_unknown_package_not_found(
    args: Args,
    seen: Observations,
    env: Map<Seq<char>, Seq<char>>,
    host_triple: Seq<char>,
)
    requires
        supported(args),
        args.package.len() == 1,
        search_path(seen, args) is Ok,
        potential_manifest(seen, args, search_path(seen, args)->Ok_0) is Ok,
        find_workspace_spec(seen, search_path(seen, args)->Ok_0) matches Ok(Some(_)),
        ({
            let start = search_path(seen, args)->Ok_0;
            let (potential_path, potential) = potential_manifest(seen, args, start)->Ok_0;
            let (workspace_path, workspace) = find_workspace_spec(seen, start)->Ok_0->0;
            &&& workspace.members_spec(seen, paths::directory(workspace_path)) matches Ok(members)
                && (workspace_path == potential_path || crate::select::lists_dir(
                members,
                paths::directory(potential_path),
            )) && (forall|i: int|
                0 <= i < members.len() ==> !declares(members[i].manifest, args.package[0]@))
            &&& !declares(workspace, args.package[0]@)
        }),
    ensures
        find_workspace_spec(seen, search_path(seen, args)->Ok_0) matches Ok(
            Some((workspace_path, _)),
        ) && resolution(args, seen, env, host_triple) == Err::<SubcommandView, ErrorView>(
            ErrorView::PackageNotFound(workspace_path, args.package[0]@),
        ),
{
    let start = search_path(seen, args)->Ok_0;
    let (potential_path, potential) = potential_manifest(seen, args, start)->Ok_0;
    let (workspace_path, workspace) = find_workspace_spec(seen, start)->Ok_0->0;
    crate::select::lemma_selection_by_name(
        seen,
        workspace_path,
        workspace,
        potential_path,
        potential,
        args.package[0]@,
    );
}

/// Resolution is idempotent. Resolving again, against the same
/// observations and the environment that the first resolution left, leaves
/// that environment as it is and gives the same project or the same
/// failure.
pub proof fn lemma_resolution_idempotent(
    args: Args,
    seen: Observations,
    env: Map<Seq<char>, Seq<char>>,
    host_triple: Seq<char>,
)
    ensures
        resolved_environment(args, seen, resolved_environment(args, seen, env))
            == resolved_environment(args, seen, env),
        resolution(args, seen, resolved_environment(args, seen, env), host_triple) == resolution(
            args,
            seen,
            env,
            host_triple,
        ),
{
    match selection(seen, args) {
        Err(_) => {},
        Ok(chosen) => match chosen.config {
            None => {},
            Some(config) => {
                let dir = config.workspace;
                let _ = seen.configs.get(crate::config::config_in(dir));
                lemma_applied_idempotent(config.config.entries(), config.workspace, seen, env);
            },
        },
    }
}

/// An executable built for a Windows target is written to a path that ends
/// in `.exe`.
pub proof fn lemma_windows_executable_path(
    root: Seq<char>,
    target: Option<Seq<char>>,
    profile: ProfileView,
    host_triple: Seq<char>,
    artifact: ArtifactView,
)
    requires
        text::occurs_in(
            match target {
                Some(target) => target,
                None => host_triple,
            },
            "windows"@,
        ),
    ensures
        text::ends_with(
            artifact_path(root, target, profile, host_triple, artifact, CrateType::Bin),
            ".exe"@,
        ),
{
    let triple = match target {
        Some(target) => target,
        None => host_triple,
    };
    crate::artifact::lemma_windows_executable_suffix(artifact.name, triple);
    paths::lemma_join_ends_with(
        paths::join(build_dir_in(root, target, profile), output_subdirectory(artifact.kind)),
        output_file_name(artifact.name, CrateType::Bin, triple),
        ".exe"@,
    );
}

/// An executable built for a target that is neither a Windows nor a
/// WebAssembly target is written under the artifact's own name, with no
/// suffix.
pub proof fn lemma_plain_executable_path(
    root: Seq<char>,
    target: Option<Seq<char>>,
    profile: ProfileView,
    host_triple: Seq<char>,
    artifact: ArtifactView,
)
    requires
        !text::occurs_in(
            match target {
                Some(target) => target,
                None => host_triple,
            },
            "windows"@,
        ),
        !text::occurs_in(
            match target {
                Some(target) => target,
                None => host_triple,
            },
            "wasm"@,
        ),
    ensures
        artifact_path(root, target, profile, host_triple, artifact, CrateType::Bin) == paths::join(
            paths::join(build_dir_in(root, target, profile), output_subdirectory(artifact.kind)),
            artifact.name,
        ),
{
    let triple = match target {
        Some(target) => target,
        None => host_triple,
    };
    crate::artifact::lemma_plain_executable_name(artifact.name, triple);
}

} // verus!
