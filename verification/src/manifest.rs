//! The project descriptor: what one `Cargo.toml` declares.

use vstd::prelude::*;

verus! {

/// The output format that a build is asked for.
#[derive(Clone, Copy, Debug, PartialEq, Eq, Structural)]
pub enum CrateType {
    Bin,
    Lib,
    Staticlib,
    Cdylib,
}

/// A parsed descriptor. One that declares a workspace and no package is
/// virtual: it can be a workspace root, and never the package that is built.
#[derive(Debug)]
pub struct Manifest {
    pub workspace: Option<Workspace>,
    pub package: Option<Package>,
    pub lib: Option<Lib>,
    pub bins: Vec<Bin>,
    pub examples: Vec<Example>,
}

/// The workspace section: patterns, relative to the workspace root, of the
/// directories that hold its members.
#[derive(Debug)]
pub struct Workspace {
    pub default_members: Vec<String>,
    pub members: Vec<String>,
}

/// The package section. Both discovery switches are on unless the descriptor
/// turns them off.
#[derive(Debug)]
pub struct Package {
    pub name: String,
    pub autobins: bool,
    pub autoexamples: bool,
}

/// The library declaration. A missing name is the package's, a missing path
/// the conventional one.
#[derive(Debug)]
pub struct Lib {
    pub name: Option<String>,
    pub path: Option<String>,
}

/// A declared binary.
#[derive(Debug)]
pub struct Bin {
    pub name: String,
    pub path: Option<String>,
}

/// A declared example.
#[derive(Debug)]
pub struct Example {
    pub name: String,
    pub path: Option<String>,
}

impl Manifest {
    /// Whether the descriptor declares a workspace and no package.
    pub open spec fn is_virtual(&self) -> bool {
        self.workspace is Some && self.package is None
    }

    /// The name of the declared package.
    pub open spec fn package_name(&self) -> Seq<char>
        recommends
            self.package is Some,
    {
        self.package->0.name@
    }
}

} // verus!
