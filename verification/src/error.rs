//! The ways in which a resolution fails.

use crate::config::{EnvError, EnvErrorView};
use crate::observe::{between, Query, QueryView};
use crate::paths;
use vstd::string::*;
use vstd::prelude::*;

verus! {

/// Why a resolution stopped. Each failure carries the path or the name that
/// it is about.
#[derive(Debug, PartialEq, Eq)]
pub enum Error {
    InvalidArgs,
    ManifestNotAWorkspace,
    ManifestNotFound,
    RustcNotFound,
    ManifestPathNotFound,
    /// A member pattern is no pattern; the text says why.
    GlobPatternError(String),
    /// A path that a member pattern reached could not be read.
    Glob(String),
    /// The descriptor at this path declares a workspace where none may be.
    UnexpectedWorkspace(String),
    /// The descriptor at this path declares no package.
    NoPackageInManifest(String),
    /// The workspace rooted at this descriptor holds no package of this name.
    PackageNotFound(String, String),
    /// The descriptor lies below a workspace that does not list it.
    ManifestNotInWorkspace { manifest: String, workspace_manifest: String },
    /// The file at this path could not be read; the second text says why.
    Io(String, String),
    /// The file at this path makes no sense; the second text says why.
    Toml(String, String),
    BinNotFound(String),
    ExampleNotFound(String),
    DuplicateBin(String),
    DuplicateExample(String),
    /// An environment variable of the settings could not be resolved.
    Env(EnvError),
    /// An answer that the resolution needs was not recorded.
    Unobserved(Query),
}

/// What an [`Error`] is, with its texts as sequences of characters.
pub enum ErrorView {
    InvalidArgs,
    ManifestNotAWorkspace,
    ManifestNotFound,
    RustcNotFound,
    ManifestPathNotFound,
    GlobPatternError(Seq<char>),
    Glob(Seq<char>),
    UnexpectedWorkspace(Seq<char>),
    NoPackageInManifest(Seq<char>),
    PackageNotFound(Seq<char>, Seq<char>),
    ManifestNotInWorkspace { manifest: Seq<char>, workspace_manifest: Seq<char> },
    Io(Seq<char>, Seq<char>),
    Toml(Seq<char>, Seq<char>),
    BinNotFound(Seq<char>),
    ExampleNotFound(Seq<char>),
    DuplicateBin(Seq<char>),
    DuplicateExample(Seq<char>),
    Env(EnvErrorView),
    Unobserved(QueryView),
}

impl View for Error {
    type V = ErrorView;

    open spec fn view(&self) -> ErrorView {
        match self {
            Error::InvalidArgs => ErrorView::InvalidArgs,
            Error::ManifestNotAWorkspace => ErrorView::ManifestNotAWorkspace,
            Error::ManifestNotFound => ErrorView::ManifestNotFound,
            Error::RustcNotFound => ErrorView::RustcNotFound,
            Error::ManifestPathNotFound => ErrorView::ManifestPathNotFound,
            Error::GlobPatternError(message) => ErrorView::GlobPatternError(message@),
            Error::Glob(message) => ErrorView::Glob(message@),
            Error::UnexpectedWorkspace(path) => ErrorView::UnexpectedWorkspace(path@),
            Error::NoPackageInManifest(path) => ErrorView::NoPackageInManifest(path@),
            Error::PackageNotFound(path, name) => ErrorView::PackageNotFound(path@, name@),
            Error::ManifestNotInWorkspace { manifest, workspace_manifest } => {
                ErrorView::ManifestNotInWorkspace {
                    manifest: manifest@,
                    workspace_manifest: workspace_manifest@,
                }
            },
            Error::Io(path, message) => ErrorView::Io(path@, message@),
            Error::Toml(path, message) => ErrorView::Toml(path@, message@),
            Error::BinNotFound(name) => ErrorView::BinNotFound(name@),
            Error::ExampleNotFound(name) => ErrorView::ExampleNotFound(name@),
            Error::DuplicateBin(name) => ErrorView::DuplicateBin(name@),
            Error::DuplicateExample(name) => ErrorView::DuplicateExample(name@),
            Error::Env(error) => ErrorView::Env(error@),
            Error::Unobserved(query) => ErrorView::Unobserved(query@),
        }
    }
}

/// The directory of the descriptor `manifest` as seen from the directory of
/// the workspace root `workspace_manifest`; the directory itself where it
/// does not lie below the root.
pub open spec fn package_subpath(manifest: Seq<char>, workspace_manifest: Seq<char>) -> Seq<char> {
    match paths::relative_to(paths::directory(manifest), paths::directory(workspace_manifest)) {
        Some(subpath) => subpath,
        None => paths::directory(manifest),
    }
}

impl ErrorView {
    /// The failure in words.
    pub open spec fn message(self) -> Seq<char> {
        match self {
            ErrorView::InvalidArgs => "Invalid args."@,
            ErrorView::ManifestNotAWorkspace => "The provided Cargo.toml does not contain a `[workspace]`"@,
            ErrorView::ManifestNotFound => "Didn't find Cargo.toml."@,
            ErrorView::RustcNotFound => "Didn't find rustc."@,
            ErrorView::ManifestPathNotFound => "The manifest-path must be a path to a Cargo.toml file"@,
            ErrorView::GlobPatternError(message) => message,
            ErrorView::Glob(message) => message,
            ErrorView::UnexpectedWorkspace(path) => "Did not expect a `[workspace]` at `"@ + path + "`"@,
            ErrorView::NoPackageInManifest(path) => "Failed to parse manifest at `"@ + path
                + "`: virtual manifests must be configured with `[workspace]`"@,
            ErrorView::PackageNotFound(workspace, name) => "package `"@ + name
                + "` not found in workspace `"@ + workspace + "`"@,
            ErrorView::ManifestNotInWorkspace { manifest, workspace_manifest } => {
                "current package believes it's in a workspace when it's not:\ncurrent:   "@
                    + manifest + "\nworkspace: "@ + workspace_manifest
                    + "\n\nthis may be fixable by adding `"@ + package_subpath(
                    manifest,
                    workspace_manifest,
                ) + "` to the `workspace.members` array of the manifest located at: "@
                    + workspace_manifest
                    + "\nAlternatively, to keep it out of the workspace, add an empty `[workspace]` table to the package's manifest."@
            },
            ErrorView::Io(path, message) => path + ": "@ + message,
            ErrorView::Toml(path, message) => path + ": "@ + message,
            ErrorView::BinNotFound(name) => "Can't find `"@ + name + "` bin at `src/bin/"@ + name
                + ".rs` or `src/bin/"@ + name
                + "/main.rs`. Please specify bin.path if you want to use a non-default path."@,
            ErrorView::ExampleNotFound(name) => "Can't find `"@ + name + "` example at `examples/"@
                + name + ".rs` or `examples/"@ + name
                + "/main.rs`. Please specify examples.path if you want to use a non-default path."@,
            ErrorView::DuplicateBin(name) => "found duplicate binary name "@ + name
                + ", but all binary targets must have a unique name"@,
            ErrorView::DuplicateExample(name) => "found duplicate example name "@ + name
                + ", but all example targets must have a unique name"@,
            ErrorView::Env(error) => error.message(),
            ErrorView::Unobserved(query) => "unanswered: "@ + query.question(),
        }
    }
}

/// The message of a target that has no source file.
fn target_not_found(name: &str, kind: &str, dir: &str, setting: &str) -> (words: String)
    ensures
        words@ == "Can't find `"@ + name@ + "` "@ + kind@ + " at `"@ + dir@ + "/"@ + name@
            + ".rs` or `"@ + dir@ + "/"@ + name@ + "/main.rs`. Please specify "@ + setting@
            + ".path if you want to use a non-default path."@,
{
    let mut words = between("Can't find `", name, "` ");
    words.append(kind);
    words.append(" at `");
    words.append(dir);
    words.append("/");
    words.append(name);
    words.append(".rs` or `");
    words.append(dir);
    words.append("/");
    words.append(name);
    words.append("/main.rs`. Please specify ");
    words.append(setting);
    words.append(".path if you want to use a non-default path.");
    words
}

impl Error {
    /// The failure in words.
    pub fn to_string(&self) -> (words: String)
        ensures
            words@ == self@.message(),
    {
        match self {
            Error::InvalidArgs => "Invalid args.".to_owned(),
            Error::ManifestNotAWorkspace => "The provided Cargo.toml does not contain a `[workspace]`".to_owned(),
            Error::ManifestNotFound => "Didn't find Cargo.toml.".to_owned(),
            Error::RustcNotFound => "Didn't find rustc.".to_owned(),
            Error::ManifestPathNotFound => "The manifest-path must be a path to a Cargo.toml file".to_owned(),
            Error::GlobPatternError(message) => message.clone(),
            Error::Glob(message) => message.clone(),
            Error::UnexpectedWorkspace(path) => between(
                "Did not expect a `[workspace]` at `",
                path.as_str(),
                "`",
            ),
            Error::NoPackageInManifest(path) => between(
                "Failed to parse manifest at `",
                path.as_str(),
                "`: virtual manifests must be configured with `[workspace]`",
            ),
            Error::PackageNotFound(workspace, name) => {
                let mut words = between("package `", name.as_str(), "` not found in workspace `");
                words.append(workspace.as_str());
                words.append("`");
                words
            },
            Error::ManifestNotInWorkspace { manifest, workspace_manifest } => {
                let manifest_dir = paths::directory_of(manifest.as_str());
                let workspace_dir = paths::directory_of(workspace_manifest.as_str());
                let subpath = match paths::strip_prefix(
                    manifest_dir.as_str(),
                    workspace_dir.as_str(),
                ) {
                    Some(subpath) => subpath,
                    None => manifest_dir,
                };
                let mut words = between(
                    "current package believes it's in a workspace when it's not:\ncurrent:   ",
                    manifest.as_str(),
                    "\nworkspace: ",
                );
                words.append(workspace_manifest.as_str());
                words.append("\n\nthis may be fixable by adding `");
                words.append(subpath.as_str());
                words.append("` to the `workspace.members` array of the manifest located at: ");
                words.append(workspace_manifest.as_str());
                words.append(
                    "\nAlternatively, to keep it out of the workspace, add an empty `[workspace]` table to the package's manifest.",
                );
                words
            },
            Error::Io(path, message) => between(path.as_str(), ": ", message.as_str()),
            Error::Toml(path, message) => between(path.as_str(), ": ", message.as_str()),
            Error::BinNotFound(name) => {
                proof {
                    reveal_strlit("` bin at `src/bin/");
                    reveal_strlit("` ");
                    reveal_strlit("bin");
                    reveal_strlit(" at `");
                    reveal_strlit("src/bin");
                    reveal_strlit("/");
                    reveal_strlit(".rs` or `src/bin/");
                    reveal_strlit(".rs` or `");
                    reveal_strlit("/main.rs`. Please specify bin.path if you want to use a non-default path.");
                    reveal_strlit("/main.rs`. Please specify ");
                    reveal_strlit(".path if you want to use a non-default path.");
                }
                let words = target_not_found(name.as_str(), "bin", "src/bin", "bin");
                assert(words@ =~= self@.message());
                words
            },
            Error::ExampleNotFound(name) => {
                proof {
                    reveal_strlit("` example at `examples/");
                    reveal_strlit("` ");
                    reveal_strlit("example");
                    reveal_strlit("examples");
                    reveal_strlit(" at `");
                    reveal_strlit("/");
                    reveal_strlit(".rs` or `examples/");
                    reveal_strlit(".rs` or `");
                    reveal_strlit("/main.rs`. Please specify examples.path if you want to use a non-default path.");
                    reveal_strlit("/main.rs`. Please specify ");
                    reveal_strlit(".path if you want to use a non-default path.");
                }
                let words = target_not_found(name.as_str(), "example", "examples", "examples");
                assert(words@ =~= self@.message());
                words
            },
            Error::DuplicateBin(name) => between(
                "found duplicate binary name ",
                name.as_str(),
                ", but all binary targets must have a unique name",
            ),
            Error::DuplicateExample(name) => between(
                "found duplicate example name ",
                name.as_str(),
                ", but all example targets must have a unique name",
            ),
            Error::Env(error) => error.to_string(),
            Error::Unobserved(query) => {
                let question = query.to_string();
                crate::text::concat("unanswered: ", question.as_str())
            },
        }
    }
}

} // verus!
