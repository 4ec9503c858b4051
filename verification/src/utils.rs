//! Locating the descriptor that governs a directory and the workspace that
//! encloses it, and selecting the one package that is built.

use crate::config::{Config, ConfigView};
use crate::error::{Error, ErrorView};
use crate::manifest::Manifest;
use crate::observe::{Loaded, Observations, Query, QueryView};
use crate::paths;
use crate::select::{
    declares_package, find_member_named, member_in_dir, select_in_workspace, text_of,
};
use crate::text;
pub use crate::discover::list_rust_files;
use vstd::prelude::*;
use vstd::string::*;

verus! {

/// The descriptor of the package in `dir`.
pub open spec fn manifest_in(dir: Seq<char>) -> Seq<char> {
    paths::join(dir, "Cargo.toml"@)
}

/// A descriptor together with the path it was read from.
pub type Located<'a> = (String, &'a Manifest);

/// What a located descriptor is: the path as characters, and the descriptor.
pub open spec fn located<'a>(found: Result<Located<'a>, Error>) -> Result<
    (Seq<char>, Manifest),
    ErrorView,
> {
    match found {
        Ok((path, manifest)) => Ok((path@, *manifest)),
        Err(error) => Err(error@),
    }
}

/// As [`located`], where finding nothing is no failure.
pub open spec fn located_if_any<'a>(found: Result<Option<Located<'a>>, Error>) -> Result<
    Option<(Seq<char>, Manifest)>,
    ErrorView,
> {
    match found {
        Ok(Some((path, manifest))) => Ok(Some((path@, *manifest))),
        Ok(None) => Ok(None),
        Err(error) => Err(error@),
    }
}

/// The path that is made canonical where `path` is asked for: the empty
/// path stands for the current directory.
pub open spec fn canonical_subject(path: Seq<char>) -> Seq<char> {
    if path.len() == 0 {
        "."@
    } else {
        path
    }
}

/// The canonical form of `path` as it was observed.
pub open spec fn canonical(seen: Observations, path: Seq<char>) -> Result<Seq<char>, ErrorView> {
    let subject = canonical_subject(path);
    match seen.canonical.get(subject) {
        None => Err(ErrorView::Unobserved(QueryView::Canonical(subject))),
        Some(Ok(resolved)) => Ok(resolved@),
        Some(Err(message)) => Err(ErrorView::Io(subject, message@)),
    }
}

/// The nearest descriptor at or above `dir`: that of the first directory,
/// walking outward, where a descriptor is. A descriptor that is there and
/// cannot be read or understood ends the search with that failure.
pub open spec fn nearest_manifest(seen: Observations, dir: Seq<char>) -> Result<
    (Seq<char>, Manifest),
    ErrorView,
>
    decreases dir.len(),
{
    let path = manifest_in(dir);
    match seen.manifests.get(path) {
        None => Err(ErrorView::Unobserved(QueryView::Manifest(path))),
        Some(Loaded::Missing(_)) => match paths::parent(dir) {
            Some(up) => {
                proof {
                    paths::lemma_parent_shorter(dir);
                }
                nearest_manifest(seen, up)
            },
            None => Err(ErrorView::ManifestNotFound),
        },
        Some(Loaded::Found(manifest)) => Ok((path, manifest)),
        Some(Loaded::Unreadable(message)) => Err(ErrorView::Io(path, message@)),
        Some(Loaded::Malformed(message)) => Err(ErrorView::Toml(path, message@)),
    }
}

/// The nearest descriptor at or above `dir` that declares a workspace, if
/// there is one. Every descriptor on the way is read, and one that cannot be
/// read or understood ends the search with that failure.
pub open spec fn nearest_workspace(seen: Observations, dir: Seq<char>) -> Result<
    Option<(Seq<char>, Manifest)>,
    ErrorView,
>
    decreases dir.len(),
{
    let path = manifest_in(dir);
    match seen.manifests.get(path) {
        None => Err(ErrorView::Unobserved(QueryView::Manifest(path))),
        Some(Loaded::Unreadable(message)) => Err(ErrorView::Io(path, message@)),
        Some(Loaded::Malformed(message)) => Err(ErrorView::Toml(path, message@)),
        Some(Loaded::Found(manifest)) if manifest.workspace is Some => Ok(Some((path, manifest))),
        _ => match paths::parent(dir) {
            Some(up) => {
                proof {
                    paths::lemma_parent_shorter(dir);
                }
                nearest_workspace(seen, up)
            },
            None => Ok(None),
        },
    }
}

/// The descriptor that governs `path`.
pub open spec fn find_manifest_spec(seen: Observations, path: Seq<char>) -> Result<
    (Seq<char>, Manifest),
    ErrorView,
> {
    match canonical(seen, path) {
        Ok(start) => nearest_manifest(seen, start),
        Err(error) => Err(error),
    }
}

/// The workspace root that encloses `path`, if there is one.
pub open spec fn find_workspace_spec(seen: Observations, path: Seq<char>) -> Result<
    Option<(Seq<char>, Manifest)>,
    ErrorView,
> {
    match canonical(seen, path) {
        Ok(start) => nearest_workspace(seen, start),
        Err(error) => Err(error),
    }
}

/// Whether no descriptor was found in `dir`.
pub open spec fn no_manifest_in(seen: Observations, dir: Seq<char>) -> bool {
    seen.manifests.get(manifest_in(dir)) matches Some(Loaded::Missing(_))
}

/// Whether no descriptor is in the first `count` of the directories `dirs`.
pub open spec fn none_before(seen: Observations, dirs: Seq<Seq<char>>, count: int) -> bool {
    forall|j: int| 0 <= j < count ==> no_manifest_in(seen, #[trigger] dirs[j])
}

/// Whether the descriptor in `dir` is none that declares a workspace: no
/// descriptor is there, or one that declares none.
pub open spec fn no_workspace_in(seen: Observations, dir: Seq<char>) -> bool {
    match seen.manifests.get(manifest_in(dir)) {
        Some(Loaded::Missing(_)) => true,
        Some(Loaded::Found(manifest)) => manifest.workspace is None,
        _ => false,
    }
}

/// Whether no descriptor that declares a workspace is in the first `count`
/// of the directories `dirs`.
pub open spec fn no_workspace_before(seen: Observations, dirs: Seq<Seq<char>>, count: int) -> bool {
    forall|j: int| 0 <= j < count ==> no_workspace_in(seen, #[trigger] dirs[j])
}

/// The nearest descriptor is the first one walking outward. Where the
/// search from `dir` finds a descriptor, it is that of `dir` or of a
/// directory above it, and no directory before that one holds a
/// descriptor; where it finds none, no directory up to the root holds one.
pub proof fn lemma_nearest_manifest(seen: Observations, dir: Seq<char>)
    ensures
        match nearest_manifest(seen, dir) {
            Ok((path, manifest)) => exists|at: int|
                0 <= at < paths::ancestors(dir).len() && path == manifest_in(
                    #[trigger] paths::ancestors(dir)[at],
                ) && seen.manifests.get(path) == Some(Loaded::Found(manifest)) && none_before(
                    seen,
                    paths::ancestors(dir),
                    at,
                ),
            Err(ErrorView::ManifestNotFound) => none_before(
                seen,
                paths::ancestors(dir),
                paths::ancestors(dir).len() as int,
            ),
            Err(_) => true,
        },
    decreases dir.len(),
{
    let dirs = paths::ancestors(dir);
    if no_manifest_in(seen, dir) {
        match paths::parent(dir) {
            Some(up) => {
                paths::lemma_parent_shorter(dir);
                lemma_nearest_manifest(seen, up);
                let above = paths::ancestors(up);
                assert forall|j: int| 0 <= j < above.len() implies dirs[j + 1] == above[j] by {}
                match nearest_manifest(seen, up) {
                    Ok((path, manifest)) => {
                        let at = choose|at: int|
                            0 <= at < above.len() && path == manifest_in(#[trigger] above[at])
                                && seen.manifests.get(path) == Some(Loaded::Found(manifest))
                                && none_before(seen, above, at);
                        assert(dirs[at + 1] == above[at]);
                        assert forall|j: int| 0 <= j < at + 1 implies no_manifest_in(
                            seen,
                            #[trigger] dirs[j],
                        ) by {
                            if j > 0 {
                                assert(dirs[j] == above[j - 1]);
                            }
                        }
                    },
                    Err(ErrorView::ManifestNotFound) => {
                        assert forall|j: int| 0 <= j < dirs.len() implies no_manifest_in(
                            seen,
                            #[trigger] dirs[j],
                        ) by {
                            if j > 0 {
                                assert(dirs[j] == above[j - 1]);
                            }
                        }
                    },
                    Err(_) => {},
                }
            },
            None => {},
        }
    } else {
        assert(dirs[0] == dir);
    }
}

/// The nearest workspace root is the first one walking outward. Where the
/// search from `dir` finds a descriptor that declares a workspace, it is
/// that of `dir` or of a directory above it, and no directory before that
/// one holds such a descriptor; where it finds none, no directory up to
/// the root holds one.
pub proof fn lemma_nearest_workspace(seen: Observations, dir: Seq<char>)
    ensures
        match nearest_workspace(seen, dir) {
            Ok(Some((path, manifest))) => exists|at: int|
                0 <= at < paths::ancestors(dir).len() && path == manifest_in(
                    #[trigger] paths::ancestors(dir)[at],
                ) && seen.manifests.get(path) == Some(Loaded::Found(manifest))
                    && manifest.workspace is Some && no_workspace_before(
                    seen,
                    paths::ancestors(dir),
                    at,
                ),
            Ok(None) => no_workspace_before(
                seen,
                paths::ancestors(dir),
                paths::ancestors(dir).len() as int,
            ),
            Err(_) => true,
        },
    decreases dir.len(),
{
    let dirs = paths::ancestors(dir);
    if no_workspace_in(seen, dir) {
        match paths::parent(dir) {
            Some(up) => {
                paths::lemma_parent_shorter(dir);
                lemma_nearest_workspace(seen, up);
                let above = paths::ancestors(up);
                assert forall|j: int| 0 <= j < above.len() implies dirs[j + 1] == above[j] by {}
                match nearest_workspace(seen, up) {
                    Ok(Some((path, manifest))) => {
                        let at = choose|at: int|
                            0 <= at < above.len() && path == manifest_in(#[trigger] above[at])
                                && seen.manifests.get(path) == Some(Loaded::Found(manifest))
                                && manifest.workspace is Some && no_workspace_before(
                                seen,
                                above,
                                at,
                            );
                        assert(dirs[at + 1] == above[at]);
                        assert forall|j: int| 0 <= j < at + 1 implies no_workspace_in(
                            seen,
                            #[trigger] dirs[j],
                        ) by {
                            if j > 0 {
                                assert(dirs[j] == above[j - 1]);
                            }
                        }
                    },
                    Ok(None) => {
                        assert forall|j: int| 0 <= j < dirs.len() implies no_workspace_in(
                            seen,
                            #[trigger] dirs[j],
                        ) by {
                            if j > 0 {
                                assert(dirs[j] == above[j - 1]);
                            }
                        }
                    },
                    Err(_) => {},
                }
            },
            None => {},
        }
    } else {
        assert(dirs[0] == dir);
    }
}

/// The canonical form of `path`, the empty path standing for the current
/// directory.
pub fn canonicalize(path: &str, seen: &Observations) -> (resolved: Result<String, Error>)
    ensures
        match resolved {
            Ok(found) => canonical(*seen, path@) == Ok::<Seq<char>, ErrorView>(found@),
            Err(error) => canonical(*seen, path@) == Err::<Seq<char>, ErrorView>(error@),
        },
{
    let subject = if path.unicode_len() == 0 {
        "."
    } else {
        path
    };
    match seen.canonical.find(subject) {
        None => Err(Error::Unobserved(Query::Canonical(subject.to_owned()))),
        Some(Ok(resolved)) => Ok(resolved.clone()),
        Some(Err(message)) => Err(Error::Io(subject.to_owned(), message.clone())),
    }
}

/// Walks outward from `path` until a directory holds a `Cargo.toml`.
pub fn find_manifest<'a>(path: &str, seen: &'a Observations) -> (found: Result<Located<'a>, Error>)
    ensures
        located(found) == find_manifest_spec(*seen, path@),
{
    let mut dir = match canonicalize(path, seen) {
        Ok(start) => start,
        Err(error) => return Err(error),
    };
    loop
        invariant
            nearest_manifest(*seen, dir@) == find_manifest_spec(*seen, path@),
        decreases dir@.len(),
    {
        let candidate = paths::join_path(dir.as_str(), "Cargo.toml");
        match seen.manifests.find(candidate.as_str()) {
            None => {
                return Err(Error::Unobserved(Query::Manifest(candidate)));
            },
            Some(Loaded::Found(manifest)) => {
                return Ok((candidate, manifest));
            },
            Some(Loaded::Unreadable(message)) => {
                return Err(Error::Io(candidate, message.clone()));
            },
            Some(Loaded::Malformed(message)) => {
                return Err(Error::Toml(candidate, message.clone()));
            },
            Some(Loaded::Missing(_)) => match paths::parent_of(dir.as_str()) {
                Some(up) => {
                    proof {
                        paths::lemma_parent_shorter(dir@);
                    }
                    dir = up;
                },
                None => {
                    return Err(Error::ManifestNotFound);
                },
            },
        }
    }
}

/// Walks outward from `potential_root` until a directory holds a
/// `Cargo.toml` that declares a workspace.
pub fn find_workspace<'a>(potential_root: &str, seen: &'a Observations) -> (found: Result<
    Option<Located<'a>>,
    Error,
>)
    ensures
        located_if_any(found) == find_workspace_spec(*seen, potential_root@),
{
    let mut dir = match canonicalize(potential_root, seen) {
        Ok(start) => start,
        Err(error) => return Err(error),
    };
    loop
        invariant
            nearest_workspace(*seen, dir@) == find_workspace_spec(*seen, potential_root@),
        decreases dir@.len(),
    {
        let candidate = paths::join_path(dir.as_str(), "Cargo.toml");
        match seen.manifests.find(candidate.as_str()) {
            None => {
                return Err(Error::Unobserved(Query::Manifest(candidate)));
            },
            Some(Loaded::Unreadable(message)) => {
                return Err(Error::Io(candidate, message.clone()));
            },
            Some(Loaded::Malformed(message)) => {
                return Err(Error::Toml(candidate, message.clone()));
            },
            Some(Loaded::Found(manifest)) => {
                if manifest.workspace.is_some() {
                    return Ok(Some((candidate, manifest)));
                }
            },
            Some(Loaded::Missing(_)) => {},
        }
        match paths::parent_of(dir.as_str()) {
            Some(up) => {
                proof {
                    paths::lemma_parent_shorter(dir@);
                }
                dir = up;
            },
            None => {
                return Ok(None);
            },
        }
    }
}

/// The output directory's name: what the settings give for it, or `target`.
pub open spec fn target_dir_name(config: Option<ConfigView>) -> Seq<char> {
    match config {
        Some(ConfigView { build: Some(build), .. }) if build.target_dir is Some => build.target_dir->0@,
        _ => "target"@,
    }
}

/// The `target-dir` that the settings configure, or `"target"` where they
/// configure none.
pub fn get_target_dir_name(config: Option<&Config>) -> (name: Result<String, Error>)
    ensures
        name matches Ok(text) && text@ == target_dir_name(
            match config {
                Some(c) => Some(c@),
                None => None,
            },
        ),
{
    if let Some(config) = config {
        if let Some(build) = config.build.as_ref() {
            if let Some(target_dir) = &build.target_dir {
                return Ok(target_dir.clone());
            }
        }
    }
    Ok("target".to_owned())
}

/// Finds the package called `package_name` in the workspace root or among
/// the members of the workspace, or, where no name is given, falls back to
/// the descriptor that the request started from.
pub fn find_package_manifest_in_workspace<'a>(
    workspace: &Located<'a>,
    potential: Located<'a>,
    package_name: Option<&str>,
    seen: &'a Observations,
) -> (chosen: Result<Located<'a>, Error>)
    ensures
        located(chosen) == select_in_workspace(
            *seen,
            workspace.0@,
            *workspace.1,
            potential.0@,
            *potential.1,
            text_of(package_name),
        ),
{
    let (potential_path, potential_manifest) = potential;
    let workspace_path = &workspace.0;
    let workspace_manifest = workspace.1;
    let potential_dir = paths::directory_of(potential_path.as_str());
    let workspace_dir = paths::directory_of(workspace_path.as_str());
    let members = match workspace_manifest.members(workspace_dir.as_str(), seen) {
        Ok(members) => members,
        Err(error) => return Err(error),
    };
    if !text::equal(workspace_path.as_str(), potential_path.as_str()) && !member_in_dir(
        &members,
        potential_dir.as_str(),
    ) {
        return Err(
            Error::ManifestNotInWorkspace {
                manifest: potential_path,
                workspace_manifest: workspace_path.clone(),
            },
        );
    }
    match package_name {
        Some(name) => {
            if declares_package(workspace_manifest, name) {
                return Ok((workspace_path.clone(), workspace_manifest));
            }
            match find_member_named(&members, name) {
                Some(i) => Ok((members[i].path.clone(), members[i].manifest)),
                None => Err(Error::PackageNotFound(workspace_path.clone(), name.to_owned())),
            }
        },
        None => {
            if potential_manifest.package.is_none() {
                return Err(Error::NoPackageInManifest(potential_path));
            }
            Ok((potential_path, potential_manifest))
        },
    }
}

} // verus!
