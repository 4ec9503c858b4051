//! Resolution of a build request for a package-oriented project: which
//! package is meant, which artifacts it produces, and where each artifact is
//! written. Everything the resolution learns from the file system reaches it
//! as recorded observations, so that the whole of it is a function of plain
//! values.

pub mod args;
pub mod artifact;
pub mod config;
pub mod discover;
pub mod error;
pub mod manifest;
pub mod observe;
pub mod paths;
pub mod profile;
pub mod select;
pub mod subcommand;
pub mod text;
pub mod utils;

pub use args::Args;
pub use artifact::{Artifact, ArtifactType};
pub use config::{EnvError, EnvOption, Environment, LocalizedConfig};
pub use error::Error;
pub use manifest::CrateType;
pub use observe::{Observations, Query};
pub use profile::Profile;
pub use subcommand::Subcommand;
