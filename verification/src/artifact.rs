//! Artifacts: the concrete units that a package builds.

use crate::manifest::CrateType;
use crate::text;
use vstd::prelude::*;
use vstd::string::*;

verus! {

/// The kind of an artifact.
#[derive(Clone, Copy, Debug, PartialEq, Eq, Hash, Structural)]
pub enum ArtifactType {
    Lib,
    Bin,
    Example,
}

/// One buildable unit: its name, its source file and its kind.
#[derive(Debug, PartialEq, Eq, Hash)]
pub struct Artifact {
    pub name: String,
    pub path: String,
    pub kind: ArtifactType,
}

/// What an [`Artifact`] is, with its texts as sequences of characters.
pub struct ArtifactView {
    pub name: Seq<char>,
    pub path: Seq<char>,
    pub kind: ArtifactType,
}

impl View for Artifact {
    type V = ArtifactView;

    open spec fn view(&self) -> ArtifactView {
        ArtifactView { name: self.name@, path: self.path@, kind: self.kind }
    }
}

impl DeepView for Artifact {
    type V = ArtifactView;

    open spec fn deep_view(&self) -> ArtifactView {
        self@
    }
}

impl Clone for Artifact {
    fn clone(&self) -> (copy: Self)
        ensures
            copy == *self,
    {
        Artifact { name: self.name.clone(), path: self.path.clone(), kind: self.kind }
    }
}

/// Whether an artifact of a kind can be built in a format: binaries and
/// examples as executables, libraries and examples in the library formats.
pub open spec fn compatible(kind: ArtifactType, format: CrateType) -> bool {
    match format {
        CrateType::Bin => kind != ArtifactType::Lib,
        _ => kind != ArtifactType::Bin,
    }
}

/// The suffix of an executable built for `target`: `.exe` for a Windows
/// target, `.wasm` for a WebAssembly target that is no Windows target, and
/// none for any other.
pub open spec fn executable_suffix(target: Seq<char>) -> Seq<char> {
    if text::occurs_in(target, "windows"@) {
        ".exe"@
    } else if text::occurs_in(target, "wasm"@) {
        ".wasm"@
    } else {
        Seq::empty()
    }
}

/// The name of the file that holds an artifact called `name`, built in
/// `format` for `target`. An executable keeps the artifact's name and takes
/// the target's suffix; a library's file begins with `lib`, has the name
/// with underscores for hyphens, and ends as its format asks.
pub open spec fn output_file_name(name: Seq<char>, format: CrateType, target: Seq<char>) -> Seq<
    char,
> {
    match format {
        CrateType::Bin => name + executable_suffix(target),
        CrateType::Lib => "lib"@ + text::underscored(name) + ".rlib"@,
        CrateType::Staticlib => "lib"@ + text::underscored(name) + ".a"@,
        CrateType::Cdylib => "lib"@ + text::underscored(name) + ".so"@,
    }
}

/// The directory, below the profile's, that holds the output of a kind.
pub open spec fn output_subdirectory(kind: ArtifactType) -> Seq<char> {
    match kind {
        ArtifactType::Example => "examples"@,
        _ => Seq::empty(),
    }
}

/// Whether `format` can be asked of an artifact of `kind`.
pub fn is_compatible(kind: ArtifactType, format: CrateType) -> (yes: bool)
    ensures
        yes == compatible(kind, format),
{
    match format {
        CrateType::Bin => match kind {
            ArtifactType::Lib => false,
            _ => true,
        },
        _ => match kind {
            ArtifactType::Bin => false,
            _ => true,
        },
    }
}

fn library_file_name(name: &str, ending: &str) -> (file: String)
    ensures
        file@ == "lib"@ + text::underscored(name@) + ending@,
{
    let stem = text::underscore(name);
    let mut file = text::concat("lib", stem.as_str());
    file.append(ending);
    file
}

impl Artifact {
    /// The directory, below the profile's, that holds this artifact's output.
    pub fn build_dir(&self) -> (dir: &'static str)
        ensures
            dir@ == output_subdirectory(self.kind),
    {
        proof {
            reveal_strlit("");
        }
        match self.kind {
            ArtifactType::Lib | ArtifactType::Bin => {
                assert(""@ =~= Seq::<char>::empty());
                ""
            },
            ArtifactType::Example => "examples",
        }
    }

    /// The name of the file that holds this artifact, built in format `ty`
    /// for `target`.
    pub fn file_name(&self, ty: CrateType, target: &str) -> (file: String)
        requires
            compatible(self.kind, ty),
        ensures
            file@ == output_file_name(self.name@, ty, target@),
    {
        match ty {
            CrateType::Bin => {
                if text::contains(target, "windows") {
                    text::concat(self.name.as_str(), ".exe")
                } else if text::contains(target, "wasm") {
                    text::concat(self.name.as_str(), ".wasm")
                } else {
                    assert(self.name@ + Seq::<char>::empty() =~= self.name@);
                    self.name.clone()
                }
            },
            CrateType::Lib => library_file_name(self.name.as_str(), ".rlib"),
            CrateType::Staticlib => library_file_name(self.name.as_str(), ".a"),
            CrateType::Cdylib => library_file_name(self.name.as_str(), ".so"),
        }
    }

    /// The file name where the format suits the artifact's kind, and nothing
    /// where it does not.
    pub fn checked_file_name(&self, ty: CrateType, target: &str) -> (file: Option<String>)
        ensures
            match file {
                Some(name) => compatible(self.kind, ty) && name@ == output_file_name(
                    self.name@,
                    ty,
                    target@,
                ),
                None => !compatible(self.kind, ty),
            },
    {
        if is_compatible(self.kind, ty) {
            Some(self.file_name(ty, target))
        } else {
            None
        }
    }
}

/// An executable built for a Windows target ends in `.exe`.
pub proof fn lemma_windows_executable_suffix(name: Seq<char>, target: Seq<char>)
    requires
        text::occurs_in(target, "windows"@),
    ensures
        text::ends_with(output_file_name(name, CrateType::Bin, target), ".exe"@),
{
    let file = output_file_name(name, CrateType::Bin, target);
    assert(file.subrange(file.len() - ".exe"@.len(), file.len() as int) =~= ".exe"@);
}

/// An executable built for a target that is neither a Windows nor a
/// WebAssembly target carries the artifact's name and no suffix.
pub proof fn lemma_plain_executable_name(name: Seq<char>, target: Seq<char>)
    requires
        !text::occurs_in(target, "windows"@),
        !text::occurs_in(target, "wasm"@),
    ensures
        output_file_name(name, CrateType::Bin, target) == name,
{
    assert(name + Seq::<char>::empty() =~= name);
}

} // verus!
