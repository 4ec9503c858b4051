//! The artifacts of a package: the targets that its descriptor declares,
//! merged with the source files that lie where convention looks for them.

use crate::args::{chars_of, Args};
use crate::artifact::{Artifact, ArtifactType, ArtifactView};
use crate::error::{Error, ErrorView};
use crate::manifest::{Bin, Example, Manifest};
use crate::observe::{DirEntry, Listing, Observations, Query, QueryView};
use crate::paths;
use crate::text;
use vstd::prelude::*;
use vstd::string::*;

verus! {

/// The directory, below the package root, where the sources of a kind lie
/// by convention.
pub open spec fn default_dir(kind: ArtifactType) -> Seq<char> {
    match kind {
        ArtifactType::Example => "examples"@,
        _ => "src/bin"@,
    }
}

/// The failure of a declared target that has no source file.
pub open spec fn not_found(kind: ArtifactType, name: Seq<char>) -> ErrorView {
    match kind {
        ArtifactType::Example => ErrorView::ExampleNotFound(name),
        _ => ErrorView::BinNotFound(name),
    }
}

/// The failure of a target that is declared twice.
pub open spec fn duplicate(kind: ArtifactType, name: Seq<char>) -> ErrorView {
    match kind {
        ArtifactType::Example => ErrorView::DuplicateExample(name),
        _ => ErrorView::DuplicateBin(name),
    }
}

/// Whether one of `found` is called `name`.
pub open spec fn has_name(found: Seq<ArtifactView>, name: Seq<char>) -> bool {
    exists|i: int| 0 <= i < found.len() && (#[trigger] found[i]).name == name
}

/// Whether one of `found` has the source file `path`.
pub open spec fn has_path(found: Seq<ArtifactView>, path: Seq<char>) -> bool {
    exists|i: int| 0 <= i < found.len() && (#[trigger] found[i]).path == path
}

/// Whether no two of `found` share a name.
pub open spec fn unique_names(found: Seq<ArtifactView>) -> bool {
    forall|i: int, j: int|
        0 <= i < j < found.len() ==> (#[trigger] found[i]).name != (#[trigger] found[j]).name
}

/// The first place where convention looks for the source of a target
/// called `name`: `<name>.rs` in the directory of its kind, as seen from
/// the package root.
pub open spec fn flat_source(kind: ArtifactType, name: Seq<char>) -> Seq<char> {
    paths::inside(default_dir(kind), name + ".rs"@)
}

/// The second place where convention looks: `<name>/main.rs` in the
/// directory of its kind, as seen from the package root.
pub open spec fn nested_source(kind: ArtifactType, name: Seq<char>) -> Seq<char> {
    paths::inside(paths::inside(default_dir(kind), name), "main.rs"@)
}

/// The source file that convention gives a target called `name` of the
/// package rooted at `root`: the first of its two places that is a file
/// there. The file is looked for below the root; the source is its path as
/// seen from the root.
pub open spec fn main_file(
    seen: Observations,
    root: Seq<char>,
    kind: ArtifactType,
    name: Seq<char>,
) -> Result<Option<Seq<char>>, ErrorView> {
    let flat = paths::join(root, flat_source(kind, name));
    let nested = paths::join(root, nested_source(kind, name));
    match seen.files.get(flat) {
        None => Err(ErrorView::Unobserved(QueryView::IsFile(flat))),
        Some(true) => Ok(Some(flat_source(kind, name))),
        Some(false) => match seen.files.get(nested) {
            None => Err(ErrorView::Unobserved(QueryView::IsFile(nested))),
            Some(true) => Ok(Some(nested_source(kind, name))),
            Some(false) => Ok(None),
        },
    }
}

/// The source file of a declared target: the path that the declaration
/// gives, as it stands, or else the file that convention gives it, as seen
/// from the package root; a target with neither is not found.
pub open spec fn source_of(
    seen: Observations,
    root: Seq<char>,
    kind: ArtifactType,
    name: Seq<char>,
    path: Option<Seq<char>>,
) -> Result<Seq<char>, ErrorView> {
    match path {
        Some(path) => Ok(path),
        None => match main_file(seen, root, kind, name) {
            Err(error) => Err(error),
            Ok(Some(path)) => Ok(path),
            Ok(None) => Err(not_found(kind, name)),
        },
    }
}

/// The artifacts after one more declared target joined `found`. Its source
/// file is settled first; then a name that `found` already holds is a
/// duplicate.
pub open spec fn declare_one(
    seen: Observations,
    root: Seq<char>,
    kind: ArtifactType,
    found: Seq<ArtifactView>,
    name: Seq<char>,
    path: Option<Seq<char>>,
) -> Result<Seq<ArtifactView>, ErrorView> {
    match source_of(seen, root, kind, name, path) {
        Err(error) => Err(error),
        Ok(source) => if has_name(found, name) {
            Err(duplicate(kind, name))
        } else {
            Ok(found.push(ArtifactView { name, path: source, kind }))
        },
    }
}

/// A declared target: its name and the source file that it names, if any.
pub struct Declared {
    pub name: Seq<char>,
    pub path: Option<Seq<char>>,
}

/// The declared binaries as targets.
pub open spec fn bin_targets(bins: Seq<Bin>) -> Seq<Declared> {
    Seq::new(bins.len(), |i: int| Declared { name: bins[i].name@, path: chars_of(bins[i].path) })
}

/// The declared examples as targets.
pub open spec fn example_targets(examples: Seq<Example>) -> Seq<Declared> {
    Seq::new(
        examples.len(),
        |i: int| Declared { name: examples[i].name@, path: chars_of(examples[i].path) },
    )
}

/// The artifacts after all of `targets` joined `found`, in order, or the
/// failure of the first target that cannot join.
pub open spec fn declare_all(
    seen: Observations,
    root: Seq<char>,
    kind: ArtifactType,
    targets: Seq<Declared>,
    found: Seq<ArtifactView>,
) -> Result<Seq<ArtifactView>, ErrorView>
    decreases targets.len(),
{
    if targets.len() == 0 {
        Ok(found)
    } else {
        match declare_one(seen, root, kind, found, targets[0].name, targets[0].path) {
            Err(error) => Err(error),
            Ok(next) => declare_all(seen, root, kind, targets.drop_first(), next),
        }
    }
}

/// The artifacts after a discovered source file was considered. A file
/// that an artifact already has as its source, or whose name an artifact
/// already carries, adds nothing.
pub open spec fn discover_one(
    found: Seq<ArtifactView>,
    name: Seq<char>,
    path: Seq<char>,
    kind: ArtifactType,
) -> Seq<ArtifactView> {
    if has_path(found, path) || has_name(found, name) {
        found
    } else {
        found.push(ArtifactView { name, path, kind })
    }
}

/// The artifacts after the Rust source files called `names`, which lie in
/// `dir` below the package root, were considered in order. Each is named
/// after its file stem.
pub open spec fn discover_all(
    found: Seq<ArtifactView>,
    dir: Seq<char>,
    kind: ArtifactType,
    names: Seq<Seq<char>>,
) -> Seq<ArtifactView>
    decreases names.len(),
{
    if names.len() == 0 {
        found
    } else {
        discover_all(
            discover_one(found, paths::file_stem(names[0]), paths::inside(dir, names[0]), kind),
            dir,
            kind,
            names.drop_first(),
        )
    }
}

/// The names of the Rust source files among the entries of a directory, in
/// the entries' order: the regular files whose name ends in `.rs`.
pub open spec fn rust_file_names(entries: Seq<DirEntry>) -> Seq<Seq<char>>
    decreases entries.len(),
{
    if entries.len() == 0 {
        Seq::empty()
    } else {
        let front = rust_file_names(entries.drop_last());
        if entries.last().is_file && paths::is_rust_file_name(entries.last().name@) {
            front.push(entries.last().name@)
        } else {
            front
        }
    }
}

/// The names of the Rust source files in the directory `dir`; none where
/// no such directory is there.
pub open spec fn listed(seen: Observations, dir: Seq<char>) -> Result<Seq<Seq<char>>, ErrorView> {
    match seen.listings.get(dir) {
        None => Err(ErrorView::Unobserved(QueryView::Listing(dir))),
        Some(Listing::Absent) => Ok(Seq::empty()),
        Some(Listing::Entries(entries)) => Ok(rust_file_names(entries@)),
        Some(Listing::Unreadable(message)) => Err(ErrorView::Io(dir, message@)),
    }
}

/// Each name taken from `dir`.
pub open spec fn each_in(dir: Seq<char>, names: Seq<Seq<char>>) -> Seq<Seq<char>> {
    Seq::new(names.len(), |i: int| paths::join(dir, names[i]))
}

/// Whether one of `found` is called `name`.
pub fn holds_name(found: &Vec<Artifact>, name: &str) -> (yes: bool)
    ensures
        yes == has_name(found.deep_view(), name@),
{
    let mut i: usize = 0;
    while i < found.len()
        invariant
            i <= found.len(),
            forall|k: int| 0 <= k < i ==> (#[trigger] found.deep_view()[k]).name != name@,
        decreases found.len() - i,
    {
        if text::equal(found[i].name.as_str(), name) {
            assert(found.deep_view()[i as int].name == name@);
            return true;
        }
        i = i + 1;
    }
    false
}

/// Whether one of `found` has the source file `path`.
pub fn holds_path(found: &Vec<Artifact>, path: &str) -> (yes: bool)
    ensures
        yes == has_path(found.deep_view(), path@),
{
    let mut i: usize = 0;
    while i < found.len()
        invariant
            i <= found.len(),
            forall|k: int| 0 <= k < i ==> (#[trigger] found.deep_view()[k]).path != path@,
        decreases found.len() - i,
    {
        if text::equal(found[i].path.as_str(), path) {
            assert(found.deep_view()[i as int].path == path@);
            return true;
        }
        i = i + 1;
    }
    false
}

/// Whether `path` was observed to be a file.
pub fn is_file(path: String, seen: &Observations) -> (answer: Result<bool, Error>)
    ensures
        match answer {
            Ok(yes) => seen.files.get(path@) == Some(yes),
            Err(error) => seen.files.get(path@) is None && error@ == ErrorView::Unobserved(
                QueryView::IsFile(path@),
            ),
        },
{
    match seen.files.find(path.as_str()) {
        Some(yes) => Ok(*yes),
        None => Err(Error::Unobserved(Query::IsFile(path))),
    }
}

/// The source file that convention gives a target called `name` of the
/// package rooted at `root`, as seen from the root.
pub fn find_main_file(root: &str, kind: ArtifactType, name: &str, seen: &Observations) -> (found:
    Result<Option<String>, Error>)
    ensures
        match found {
            Ok(Some(path)) => main_file(*seen, root@, kind, name@) == Ok::<
                Option<Seq<char>>,
                ErrorView,
            >(Some(path@)),
            Ok(None) => main_file(*seen, root@, kind, name@) == Ok::<Option<Seq<char>>, ErrorView>(
                None,
            ),
            Err(error) => main_file(*seen, root@, kind, name@) == Err::<
                Option<Seq<char>>,
                ErrorView,
            >(error@),
        },
{
    let dir = default_dir_of(kind);
    let file = text::concat(name, ".rs");
    let flat = paths::inside_dir(dir, file.as_str());
    match is_file(paths::join_path(root, flat.as_str()), seen) {
        Err(error) => return Err(error),
        Ok(true) => return Ok(Some(flat)),
        Ok(false) => {},
    }
    let inner = paths::inside_dir(dir, name);
    let nested = paths::inside_dir(inner.as_str(), "main.rs");
    match is_file(paths::join_path(root, nested.as_str()), seen) {
        Err(error) => Err(error),
        Ok(true) => Ok(Some(nested)),
        Ok(false) => Ok(None),
    }
}

/// The conventional directory of a kind, below the package root.
pub fn default_dir_of(kind: ArtifactType) -> (dir: &'static str)
    ensures
        dir@ == default_dir(kind),
{
    match kind {
        ArtifactType::Example => "examples",
        _ => "src/bin",
    }
}

/// Adds a declared target to `found`.
pub fn declare(
    found: &mut Vec<Artifact>,
    name: &str,
    path: &Option<String>,
    root: &str,
    kind: ArtifactType,
    seen: &Observations,
) -> (done: Result<(), Error>)
    ensures
        match done {
            Ok(_) => declare_one(
                *seen,
                root@,
                kind,
                old(found).deep_view(),
                name@,
                chars_of(*path),
            ) == Ok::<Seq<ArtifactView>, ErrorView>(final(found).deep_view()),
            Err(error) => declare_one(
                *seen,
                root@,
                kind,
                old(found).deep_view(),
                name@,
                chars_of(*path),
            ) == Err::<Seq<ArtifactView>, ErrorView>(error@) && *final(found) == *old(found),
        },
{
    let source = match path {
        Some(path) => path.clone(),
        None => {
            match find_main_file(root, kind, name, seen) {
                Err(error) => return Err(error),
                Ok(Some(path)) => path,
                Ok(None) => return Err(
                    match kind {
                        ArtifactType::Example => Error::ExampleNotFound(name.to_owned()),
                        _ => Error::BinNotFound(name.to_owned()),
                    },
                ),
            }
        },
    };
    if holds_name(found, name) {
        return Err(
            match kind {
                ArtifactType::Example => Error::DuplicateExample(name.to_owned()),
                _ => Error::DuplicateBin(name.to_owned()),
            },
        );
    }
    let artifact = Artifact { name: name.to_owned(), path: source, kind };
    found.push(artifact);
    assert(found.deep_view() =~= old(found).deep_view().push(artifact@));
    Ok(())
}

/// Considers a discovered source file for `found`.
pub fn insert_if_unconfigured(
    name: String,
    path: &str,
    kind: ArtifactType,
    artifacts: &mut Vec<Artifact>,
)
    ensures
        final(artifacts).deep_view() == discover_one(old(artifacts).deep_view(), name@, path@, kind),
{
    if holds_path(artifacts, path) {
        return ;
    }
    if holds_name(artifacts, name.as_str()) {
        return ;
    }
    let artifact = Artifact { name, path: path.to_owned(), kind };
    artifacts.push(artifact);
    assert(artifacts.deep_view() =~= old(artifacts).deep_view().push(artifact@));
}

/// The names of the Rust source files in the directory `dir`.
pub fn rust_files_in(dir: &str, seen: &Observations) -> (names: Result<Vec<String>, Error>)
    ensures
        match names {
            Ok(names) => listed(*seen, dir@) == Ok::<Seq<Seq<char>>, ErrorView>(names.deep_view()),
            Err(error) => listed(*seen, dir@) == Err::<Seq<Seq<char>>, ErrorView>(error@),
        },
{
    let mut names: Vec<String> = Vec::new();
    assert(names.deep_view() =~= Seq::<Seq<char>>::empty());
    let entries = match seen.listings.find(dir) {
        None => return Err(Error::Unobserved(Query::Listing(dir.to_owned()))),
        Some(Listing::Absent) => return Ok(names),
        Some(Listing::Unreadable(message)) => return Err(
            Error::Io(dir.to_owned(), message.clone()),
        ),
        Some(Listing::Entries(entries)) => entries,
    };
    let mut i: usize = 0;
    assert(entries@.subrange(0, 0) =~= Seq::<DirEntry>::empty());
    while i < entries.len()
        invariant
            i <= entries.len(),
            names.deep_view() == rust_file_names(entries@.subrange(0, i as int)),
        decreases entries.len() - i,
    {
        let ghost before = names.deep_view();
        let ghost done = entries@.subrange(0, i + 1);
        assert(done.drop_last() =~= entries@.subrange(0, i as int));
        assert(done.last() == entries@[i as int]);
        if entries[i].is_file && paths::rust_file_name(entries[i].name.as_str()) {
            names.push(entries[i].name.clone());
            assert(names.deep_view() =~= before.push(entries@[i as int].name@));
        }
        i = i + 1;
    }
    assert(entries@.subrange(0, i as int) =~= entries@);
    Ok(names)
}

/// The Rust source files in the directory `dir`, each by its path.
pub fn list_rust_files(dir: &str, seen: &Observations) -> (files: Result<Vec<String>, Error>)
    ensures
        match (files, listed(*seen, dir@)) {
            (Ok(files), Ok(names)) => files.deep_view() == each_in(dir@, names),
            (Err(error), Err(expected)) => error@ == expected,
            _ => false,
        },
{
    let names = match rust_files_in(dir, seen) {
        Ok(names) => names,
        Err(error) => return Err(error),
    };
    let mut files: Vec<String> = Vec::new();
    let mut i: usize = 0;
    while i < names.len()
        invariant
            i <= names.len(),
            files.deep_view() =~= each_in(dir@, names.deep_view()).subrange(0, i as int),
        decreases names.len() - i,
    {
        let ghost before = files.deep_view();
        let file = paths::join_path(dir, names[i].as_str());
        files.push(file);
        assert(files.deep_view() =~= before.push(file@));
        i = i + 1;
    }
    Ok(files)
}

/// The artifacts of a package: its library, if it has one, its binaries
/// and its examples.
#[derive(Debug)]
pub struct Artifacts {
    pub lib: Option<Artifact>,
    pub bins: Vec<Artifact>,
    pub examples: Vec<Artifact>,
}

/// What [`Artifacts`] hold.
pub struct ArtifactsView {
    pub lib: Option<ArtifactView>,
    pub bins: Seq<ArtifactView>,
    pub examples: Seq<ArtifactView>,
}

impl View for Artifacts {
    type V = ArtifactsView;

    open spec fn view(&self) -> ArtifactsView {
        ArtifactsView {
            lib: match self.lib {
                Some(lib) => Some(lib@),
                None => None,
            },
            bins: self.bins.deep_view(),
            examples: self.examples.deep_view(),
        }
    }
}

/// Whether one of `targets` is called `name`.
pub open spec fn declares_name(targets: Seq<Declared>, name: Seq<char>) -> bool {
    exists|i: int| 0 <= i < targets.len() && (#[trigger] targets[i]).name == name
}

/// Whether one of `targets` is called `name` and names `path` as its source.
pub open spec fn declares_path(targets: Seq<Declared>, name: Seq<char>, path: Seq<char>) -> bool {
    exists|i: int|
        0 <= i < targets.len() && (#[trigger] targets[i]).name == name && targets[i].path == Some(
            path,
        )
}

/// How the artifacts of one kind stand after discovery, given the
/// declarations `targets` of that kind. The declared artifacts come first,
/// one for each declaration and in their order, then the discovered ones.
/// Names are unique. A source that begins at the root is the path that its
/// declaration names: every source found by convention or by discovery is
/// relative to the package root. A discovered artifact shares its source
/// with no artifact before it.
pub open spec fn laid_out(found: Seq<ArtifactView>, targets: Seq<Declared>) -> bool {
    &&& targets.len() <= found.len()
    &&& unique_names(found)
    &&& forall|k: int|
        0 <= k < targets.len() ==> (#[trigger] found[k]).name == targets[k].name && (
        !paths::is_absolute(found[k].path) || targets[k].path == Some(found[k].path))
    &&& forall|k: int|
        targets.len() <= k < found.len() ==> !paths::is_absolute((#[trigger] found[k]).path)
    &&& forall|i: int, j: int|
        0 <= i < j < found.len() && targets.len() <= j ==> (#[trigger] found[i]).path != (
        #[trigger] found[j]).path
}

/// What holds of the sources of artifacts of one kind, in whatever order
/// and after any choice among them, given the declarations `targets` of
/// that kind. A source that begins at the root is the path that the
/// artifact's declaration names. Two artifacts share a source only where
/// both are declared: discovery never adds a source twice, and two
/// declarations that name one path give two artifacts.
pub open spec fn sources_placed(found: Seq<ArtifactView>, targets: Seq<Declared>) -> bool {
    &&& forall|k: int|
        0 <= k < found.len() ==> !paths::is_absolute((#[trigger] found[k]).path) || declares_path(
            targets,
            found[k].name,
            found[k].path,
        )
    &&& forall|i: int, j: int|
        0 <= i < j < found.len() && (#[trigger] found[i]).path == (#[trigger] found[j]).path
            ==> declares_name(targets, found[i].name) && declares_name(targets, found[j].name)
}

/// Whether the library's source is relative to the package root or the path
/// that the library's declaration names.
pub open spec fn library_placed(lib: Option<ArtifactView>, manifest: Manifest) -> bool {
    lib matches Some(lib) ==> !paths::is_absolute(lib.path) || (manifest.lib matches Some(declared)
        && declared.path matches Some(path) && path@ == lib.path)
}

/// Whether each of `found` is of the kind `kind`.
pub open spec fn all_of_kind(found: Seq<ArtifactView>, kind: ArtifactType) -> bool {
    forall|k: int| 0 <= k < found.len() ==> (#[trigger] found[k]).kind == kind
}

impl ArtifactsView {
    /// Whether the artifacts are told apart by kind and name: the library,
    /// the binaries and the examples are each of their kind, and no two
    /// binaries and no two examples share a name.
    pub open spec fn well_formed(self) -> bool {
        &&& unique_names(self.bins)
        &&& unique_names(self.examples)
        &&& all_of_kind(self.bins, ArtifactType::Bin)
        &&& all_of_kind(self.examples, ArtifactType::Example)
        &&& self.lib matches Some(lib) ==> lib.kind == ArtifactType::Lib
    }

    /// Whether the artifacts stand as discovery leaves those of the package
    /// that `manifest` describes.
    pub open spec fn laid_out_by(self, manifest: Manifest) -> bool {
        &&& laid_out(self.bins, bin_targets(manifest.bins@))
        &&& laid_out(self.examples, example_targets(manifest.examples@))
        &&& library_placed(self.lib, manifest)
    }

    /// Whether the sources of the artifacts are placed as those of the
    /// package that `manifest` describes, before or after a choice among
    /// them.
    pub open spec fn well_placed(self, manifest: Manifest) -> bool {
        &&& sources_placed(self.bins, bin_targets(manifest.bins@))
        &&& sources_placed(self.examples, example_targets(manifest.examples@))
        &&& library_placed(self.lib, manifest)
    }
}

/// Whether binaries are discovered: unless the package turns it off.
pub open spec fn autobins(manifest: Manifest) -> bool {
    match manifest.package {
        Some(package) => package.autobins,
        None => true,
    }
}

/// Whether examples are discovered: unless the package turns it off.
pub open spec fn autoexamples(manifest: Manifest) -> bool {
    match manifest.package {
        Some(package) => package.autoexamples,
        None => true,
    }
}

/// The binaries after discovery: the declared ones, then the package's
/// main source file under the package's own name, then the Rust source
/// files of `src/bin`, each unless its file or its name is taken.
pub open spec fn discovered_bins(
    seen: Observations,
    root: Seq<char>,
    package: Seq<char>,
    declared: Seq<ArtifactView>,
) -> Result<Seq<ArtifactView>, ErrorView> {
    let main = paths::join(root, "src/main.rs"@);
    match seen.files.get(main) {
        None => Err(ErrorView::Unobserved(QueryView::IsFile(main))),
        Some(has_main) => match listed(seen, paths::join(root, "src/bin"@)) {
            Err(error) => Err(error),
            Ok(names) => Ok(
                discover_all(
                    if has_main {
                        discover_one(declared, package, "src/main.rs"@, ArtifactType::Bin)
                    } else {
                        declared
                    },
                    "src/bin"@,
                    ArtifactType::Bin,
                    names,
                ),
            ),
        },
    }
}

/// The examples after discovery: the declared ones, then the Rust source
/// files of `examples`, each unless its file or its name is taken.
pub open spec fn discovered_examples(
    seen: Observations,
    root: Seq<char>,
    declared: Seq<ArtifactView>,
) -> Result<Seq<ArtifactView>, ErrorView> {
    match listed(seen, paths::join(root, "examples"@)) {
        Err(error) => Err(error),
        Ok(names) => Ok(discover_all(declared, "examples"@, ArtifactType::Example, names)),
    }
}

/// The library of a package: the declared one, with the package's name and
/// the conventional source file where the declaration gives none; else the
/// conventional source file, if it is there.
pub open spec fn library(
    seen: Observations,
    root: Seq<char>,
    package: Seq<char>,
    manifest: Manifest,
) -> Result<Option<ArtifactView>, ErrorView> {
    match manifest.lib {
        Some(lib) => Ok(
            Some(
                ArtifactView {
                    name: match lib.name {
                        Some(name) => name@,
                        None => package,
                    },
                    path: match lib.path {
                        Some(path) => path@,
                        None => "src/lib.rs"@,
                    },
                    kind: ArtifactType::Lib,
                },
            ),
        ),
        None => {
            let file = paths::join(root, "src/lib.rs"@);
            match seen.files.get(file) {
                None => Err(ErrorView::Unobserved(QueryView::IsFile(file))),
                Some(true) => Ok(
                    Some(
                        ArtifactView {
                            name: package,
                            path: "src/lib.rs"@,
                            kind: ArtifactType::Lib,
                        },
                    ),
                ),
                Some(false) => Ok(None),
            }
        },
    }
}

/// Whether `name` is one of `names`.
pub open spec fn named_in(names: Seq<String>, name: Seq<char>) -> bool {
    exists|i: int| 0 <= i < names.len() && (#[trigger] names[i])@ == name
}

/// Those of `found` whose name is one of `names`, in their order.
pub open spec fn keep_named(found: Seq<ArtifactView>, names: Seq<String>) -> Seq<ArtifactView>
    decreases found.len(),
{
    if found.len() == 0 {
        Seq::empty()
    } else {
        let front = keep_named(found.drop_last(), names);
        if named_in(names, found.last().name) {
            front.push(found.last())
        } else {
            front
        }
    }
}

/// Every artifact of the package `package` rooted at `root`, before the
/// request's choice among them. The declared binaries are settled first,
/// then the declared examples, then what is discovered of each kind, then
/// the library.
pub open spec fn all_artifacts(
    seen: Observations,
    root: Seq<char>,
    package: Seq<char>,
    manifest: Manifest,
) -> Result<ArtifactsView, ErrorView> {
    match declare_all(seen, root, ArtifactType::Bin, bin_targets(manifest.bins@), Seq::empty()) {
        Err(error) => Err(error),
        Ok(declared_bins) => match declare_all(
            seen,
            root,
            ArtifactType::Example,
            example_targets(manifest.examples@),
            Seq::empty(),
        ) {
            Err(error) => Err(error),
            Ok(declared_examples) => match (if autobins(manifest) {
                discovered_bins(seen, root, package, declared_bins)
            } else {
                Ok(declared_bins)
            }) {
                Err(error) => Err(error),
                Ok(bins) => match (if autoexamples(manifest) {
                    discovered_examples(seen, root, declared_examples)
                } else {
                    Ok(declared_examples)
                }) {
                    Err(error) => Err(error),
                    Ok(examples) => match library(seen, root, package, manifest) {
                        Err(error) => Err(error),
                        Ok(lib) => Ok(ArtifactsView { lib, bins, examples }),
                    },
                },
            },
        },
    }
}

/// The choice that a request makes among the artifacts. A request that
/// names no target keeps them all. Any other keeps the library only if it
/// asks for it, and of the binaries and of the examples those that it
/// names, or all of them where it asks for all.
pub open spec fn chosen(all: ArtifactsView, args: Args) -> ArtifactsView {
    if !args.selects_targets() {
        all
    } else {
        ArtifactsView {
            lib: if args.lib {
                all.lib
            } else {
                None
            },
            bins: if args.bins {
                all.bins
            } else {
                keep_named(all.bins, args.bin@)
            },
            examples: if args.examples {
                all.examples
            } else {
                keep_named(all.examples, args.example@)
            },
        }
    }
}

/// The artifacts that a request builds of a package.
pub open spec fn artifacts_of(
    seen: Observations,
    root: Seq<char>,
    package: Seq<char>,
    manifest: Manifest,
    args: Args,
) -> Result<ArtifactsView, ErrorView> {
    match all_artifacts(seen, root, package, manifest) {
        Err(error) => Err(error),
        Ok(all) => Ok(chosen(all, args)),
    }
}

/// The declared binaries as artifacts.
pub fn declare_bins(bins: &Vec<Bin>, root: &str, seen: &Observations) -> (found: Result<
    Vec<Artifact>,
    Error,
>)
    ensures
        match found {
            Ok(found) => declare_all(
                *seen,
                root@,
                ArtifactType::Bin,
                bin_targets(bins@),
                Seq::empty(),
            ) == Ok::<Seq<ArtifactView>, ErrorView>(found.deep_view()),
            Err(error) => declare_all(
                *seen,
                root@,
                ArtifactType::Bin,
                bin_targets(bins@),
                Seq::empty(),
            ) == Err::<Seq<ArtifactView>, ErrorView>(error@),
        },
{
    let ghost targets = bin_targets(bins@);
    let mut found: Vec<Artifact> = Vec::new();
    let mut i: usize = 0;
    assert(found.deep_view() =~= Seq::<ArtifactView>::empty());
    assert(targets.skip(0) =~= targets);
    while i < bins.len()
        invariant
            i <= bins.len(),
            targets == bin_targets(bins@),
            declare_all(*seen, root@, ArtifactType::Bin, targets, Seq::empty()) == declare_all(
                *seen,
                root@,
                ArtifactType::Bin,
                targets.skip(i as int),
                found.deep_view(),
            ),
        decreases bins.len() - i,
    {
        assert(targets.skip(i as int)[0] == targets[i as int]);
        assert(targets.skip(i as int).drop_first() =~= targets.skip(i + 1));
        match declare(&mut found, bins[i].name.as_str(), &bins[i].path, root, ArtifactType::Bin, seen) {
            Ok(_) => {},
            Err(error) => return Err(error),
        }
        i = i + 1;
    }
    Ok(found)
}

/// The declared examples as artifacts.
pub fn declare_examples(examples: &Vec<Example>, root: &str, seen: &Observations) -> (found: Result<
    Vec<Artifact>,
    Error,
>)
    ensures
        match found {
            Ok(found) => declare_all(
                *seen,
                root@,
                ArtifactType::Example,
                example_targets(examples@),
                Seq::empty(),
            ) == Ok::<Seq<ArtifactView>, ErrorView>(found.deep_view()),
            Err(error) => declare_all(
                *seen,
                root@,
                ArtifactType::Example,
                example_targets(examples@),
                Seq::empty(),
            ) == Err::<Seq<ArtifactView>, ErrorView>(error@),
        },
{
    let ghost targets = example_targets(examples@);
    let mut found: Vec<Artifact> = Vec::new();
    let mut i: usize = 0;
    assert(found.deep_view() =~= Seq::<ArtifactView>::empty());
    assert(targets.skip(0) =~= targets);
    while i < examples.len()
        invariant
            i <= examples.len(),
            targets == example_targets(examples@),
            declare_all(*seen, root@, ArtifactType::Example, targets, Seq::empty()) == declare_all(
                *seen,
                root@,
                ArtifactType::Example,
                targets.skip(i as int),
                found.deep_view(),
            ),
        decreases examples.len() - i,
    {
        assert(targets.skip(i as int)[0] == targets[i as int]);
        assert(targets.skip(i as int).drop_first() =~= targets.skip(i + 1));
        match declare(
            &mut found,
            examples[i].name.as_str(),
            &examples[i].path,
            root,
            ArtifactType::Example,
            seen,
        ) {
            Ok(_) => {},
            Err(error) => return Err(error),
        }
        i = i + 1;
    }
    Ok(found)
}

/// Considers the Rust source files called `names`, which lie in `dir`
/// below the package root, for `found`.
pub fn discover_in(found: &mut Vec<Artifact>, dir: &str, kind: ArtifactType, names: &Vec<String>)
    ensures
        final(found).deep_view() == discover_all(
            old(found).deep_view(),
            dir@,
            kind,
            names.deep_view(),
        ),
{
    let ghost all = names.deep_view();
    let mut i: usize = 0;
    assert(all.skip(0) =~= all);
    while i < names.len()
        invariant
            i <= names.len(),
            all == names.deep_view(),
            discover_all(old(found).deep_view(), dir@, kind, all) == discover_all(
                found.deep_view(),
                dir@,
                kind,
                all.skip(i as int),
            ),
        decreases names.len() - i,
    {
        assert(all.skip(i as int)[0] == names[i as int]@);
        assert(all.skip(i as int).drop_first() =~= all.skip(i + 1));
        let stem = paths::file_stem_of(names[i].as_str());
        let path = paths::inside_dir(dir, names[i].as_str());
        insert_if_unconfigured(stem, path.as_str(), kind, found);
        i = i + 1;
    }
}

/// Whether `name` is one of `names`.
pub fn is_named_in(names: &Vec<String>, name: &str) -> (yes: bool)
    ensures
        yes == named_in(names@, name@),
{
    let mut i: usize = 0;
    while i < names.len()
        invariant
            i <= names.len(),
            forall|k: int| 0 <= k < i ==> (#[trigger] names@[k])@ != name@,
        decreases names.len() - i,
    {
        if text::equal(names[i].as_str(), name) {
            assert(names@[i as int]@ == name@);
            return true;
        }
        i = i + 1;
    }
    false
}

/// Those of `found` whose name is one of `names`, in their order.
pub fn retain_named(found: &Vec<Artifact>, names: &Vec<String>) -> (kept: Vec<Artifact>)
    ensures
        kept.deep_view() == keep_named(found.deep_view(), names@),
{
    let ghost all = found.deep_view();
    let mut kept: Vec<Artifact> = Vec::new();
    let mut i: usize = 0;
    assert(kept.deep_view() =~= Seq::<ArtifactView>::empty());
    assert(all.subrange(0, 0) =~= Seq::<ArtifactView>::empty());
    while i < found.len()
        invariant
            i <= found.len(),
            all == found.deep_view(),
            kept.deep_view() == keep_named(all.subrange(0, i as int), names@),
        decreases found.len() - i,
    {
        let ghost before = kept.deep_view();
        let ghost done = all.subrange(0, i + 1);
        assert(done.drop_last() =~= all.subrange(0, i as int));
        assert(done.last() == found[i as int]@);
        if is_named_in(names, found[i].name.as_str()) {
            let copy = found[i].clone();
            kept.push(copy);
            assert(kept.deep_view() =~= before.push(copy@));
        }
        i = i + 1;
    }
    assert(all.subrange(0, i as int) =~= all);
    kept
}

/// The conventional source file `file` of the package `package`, as its
/// library, if the file is there.
fn conventional_library(root: &str, package: &str, seen: &Observations) -> (lib: Result<
    Option<Artifact>,
    Error,
>)
    ensures
        match seen.files.get(paths::join(root@, "src/lib.rs"@)) {
            None => lib matches Err(error) && error@ == ErrorView::Unobserved(
                QueryView::IsFile(paths::join(root@, "src/lib.rs"@)),
            ),
            Some(true) => lib matches Ok(Some(found)) && found@ == (ArtifactView {
                name: package@,
                path: "src/lib.rs"@,
                kind: ArtifactType::Lib,
            }),
            Some(false) => lib matches Ok(None),
        },
{
    match is_file(paths::join_path(root, "src/lib.rs"), seen) {
        Err(error) => Err(error),
        Ok(true) => Ok(
            Some(
                Artifact {
                    name: package.to_owned(),
                    path: "src/lib.rs".to_owned(),
                    kind: ArtifactType::Lib,
                },
            ),
        ),
        Ok(false) => Ok(None),
    }
}

/// What an outcome of discovery is, with its artifacts as they are seen in
/// contracts.
pub open spec fn outcome(found: Result<Artifacts, Error>) -> Result<ArtifactsView, ErrorView> {
    match found {
        Ok(artifacts) => Ok(artifacts@),
        Err(error) => Err(error@),
    }
}

/// Every artifact of the package `package` rooted at `root_dir`.
pub fn find_artifacts(manifest: &Manifest, package: &str, root_dir: &str, seen: &Observations) -> (found:
    Result<Artifacts, Error>)
    ensures
        outcome(found) == all_artifacts(*seen, root_dir@, package@, *manifest),
        found matches Ok(all) ==> all@.well_formed() && all@.laid_out_by(*manifest)
            && all@.well_placed(*manifest),
{
    proof {
        if all_artifacts(*seen, root_dir@, package@, *manifest) is Ok {
            lemma_artifacts_laid_out(*seen, root_dir@, package@, *manifest);
            let all = all_artifacts(*seen, root_dir@, package@, *manifest)->Ok_0;
            lemma_laid_out_placed(all.bins, bin_targets(manifest.bins@));
            lemma_laid_out_placed(all.examples, example_targets(manifest.examples@));
        }
    }
    let mut bins = match declare_bins(&manifest.bins, root_dir, seen) {
        Ok(bins) => bins,
        Err(error) => return Err(error),
    };
    let mut examples = match declare_examples(&manifest.examples, root_dir, seen) {
        Ok(examples) => examples,
        Err(error) => return Err(error),
    };
    let auto_bins = match &manifest.package {
        Some(package) => package.autobins,
        None => true,
    };
    if auto_bins {
        let has_main = match is_file(paths::join_path(root_dir, "src/main.rs"), seen) {
            Ok(has_main) => has_main,
            Err(error) => return Err(error),
        };
        let bin_dir = paths::join_path(root_dir, "src/bin");
        let names = match rust_files_in(bin_dir.as_str(), seen) {
            Ok(names) => names,
            Err(error) => return Err(error),
        };
        if has_main {
            insert_if_unconfigured(
                package.to_owned(),
                "src/main.rs",
                ArtifactType::Bin,
                &mut bins,
            );
        }
        discover_in(&mut bins, "src/bin", ArtifactType::Bin, &names);
    }
    let auto_examples = match &manifest.package {
        Some(package) => package.autoexamples,
        None => true,
    };
    if auto_examples {
        let example_dir = paths::join_path(root_dir, "examples");
        let names = match rust_files_in(example_dir.as_str(), seen) {
            Ok(names) => names,
            Err(error) => return Err(error),
        };
        discover_in(&mut examples, "examples", ArtifactType::Example, &names);
    }
    let lib = match &manifest.lib {
        Some(lib) => Some(
            Artifact {
                name: match &lib.name {
                    Some(name) => name.clone(),
                    None => package.to_owned(),
                },
                path: match &lib.path {
                    Some(path) => path.clone(),
                    None => "src/lib.rs".to_owned(),
                },
                kind: ArtifactType::Lib,
            },
        ),
        None => match conventional_library(root_dir, package, seen) {
            Ok(lib) => lib,
            Err(error) => return Err(error),
        },
    };
    Ok(Artifacts { lib, bins, examples })
}

/// The choice that `args` makes among `all`.
pub fn choose_artifacts(all: Artifacts, args: &Args) -> (kept: Artifacts)
    ensures
        kept@ == chosen(all@, *args),
        all@.well_formed() ==> kept@.well_formed(),
{
    proof {
        if all@.well_formed() {
            lemma_keep_named(all@.bins, args.bin@);
            lemma_keep_named(all@.examples, args.example@);
            lemma_keep_named_kind(all@.bins, args.bin@, ArtifactType::Bin);
            lemma_keep_named_kind(all@.examples, args.example@, ArtifactType::Example);
        }
    }
    if !args.specific_target_selected() {
        return all;
    }
    let Artifacts { lib, bins, examples } = all;
    Artifacts {
        lib: if args.lib {
            lib
        } else {
            None
        },
        bins: if args.bins {
            bins
        } else {
            retain_named(&bins, &args.bin)
        },
        examples: if args.examples {
            examples
        } else {
            retain_named(&examples, &args.example)
        },
    }
}

/// Whether `longer` begins with `base`.
pub open spec fn extends(base: Seq<ArtifactView>, longer: Seq<ArtifactView>) -> bool {
    base.len() <= longer.len() && longer.subrange(0, base.len() as int) == base
}

/// A discovered file leaves what was found in place and its names unique.
pub proof fn lemma_discover_one(
    found: Seq<ArtifactView>,
    name: Seq<char>,
    path: Seq<char>,
    kind: ArtifactType,
)
    requires
        unique_names(found),
    ensures
        unique_names(discover_one(found, name, path, kind)),
        extends(found, discover_one(found, name, path, kind)),
{
    let next = discover_one(found, name, path, kind);
    assert(next.subrange(0, found.len() as int) =~= found);
    if next.len() > found.len() {
        assert forall|i: int, j: int| 0 <= i < j < next.len() implies (#[trigger] next[i]).name != (
        #[trigger] next[j]).name by {
            if j == found.len() {
                assert(found[i].name != name);
            } else {
                assert(found[i].name != found[j].name);
            }
        }
    }
}

/// Discovery leaves what was found in place and its names unique.
pub proof fn lemma_discover_all(
    found: Seq<ArtifactView>,
    dir: Seq<char>,
    kind: ArtifactType,
    names: Seq<Seq<char>>,
)
    requires
        unique_names(found),
    ensures
        unique_names(discover_all(found, dir, kind, names)),
        extends(found, discover_all(found, dir, kind, names)),
    decreases names.len(),
{
    if names.len() == 0 {
        assert(found.subrange(0, found.len() as int) =~= found);
    } else {
        let next = discover_one(
            found,
            paths::file_stem(names[0]),
            paths::inside(dir, names[0]),
            kind,
        );
        lemma_discover_one(found, paths::file_stem(names[0]), paths::inside(dir, names[0]), kind);
        lemma_discover_all(next, dir, kind, names.drop_first());
        let last = discover_all(next, dir, kind, names.drop_first());
        assert(last.subrange(0, found.len() as int) =~= next.subrange(0, found.len() as int));
    }
}

/// The artifact that a discovered source file called `name` in `dir` makes.
pub open spec fn discovered(dir: Seq<char>, kind: ArtifactType, name: Seq<char>) -> ArtifactView {
    ArtifactView { name: paths::file_stem(name), path: paths::inside(dir, name), kind }
}

/// Discovery passes no file over and invents none. After it, each of the
/// files is the source of an artifact or has given its name to one, and
/// each artifact that was added comes from one of the files.
pub proof fn lemma_discovery(
    found: Seq<ArtifactView>,
    dir: Seq<char>,
    kind: ArtifactType,
    names: Seq<Seq<char>>,
)
    requires
        unique_names(found),
    ensures
        ({
            let all = discover_all(found, dir, kind, names);
            &&& forall|i: int|
                0 <= i < names.len() ==> has_path(all, paths::inside(dir, #[trigger] names[i]))
                    || has_name(all, paths::file_stem(names[i]))
            &&& forall|k: int|
                found.len() <= k < all.len() ==> exists|i: int|
                    0 <= i < names.len() && #[trigger] all[k] == discovered(
                        dir,
                        kind,
                        #[trigger] names[i],
                    )
        }),
    decreases names.len(),
{
    let all = discover_all(found, dir, kind, names);
    if names.len() > 0 {
        let first = discovered(dir, kind, names[0]);
        let next = discover_one(found, first.name, first.path, kind);
        let rest = names.drop_first();
        lemma_discover_one(found, first.name, first.path, kind);
        lemma_discover_all(next, dir, kind, rest);
        lemma_discovery(next, dir, kind, rest);
        assert forall|i: int| 0 <= i < names.len() implies has_path(
            all,
            paths::inside(dir, #[trigger] names[i]),
        ) || has_name(all, paths::file_stem(names[i])) by {
            if i == 0 {
                if !has_path(found, first.path) && !has_name(found, first.name) {
                    assert(next[found.len() as int].path == first.path);
                }
                if has_path(next, first.path) {
                    let k = choose|k: int| 0 <= k < next.len() && (#[trigger] next[k]).path == first.path;
                    assert(all.subrange(0, next.len() as int)[k] == next[k]);
                    assert(all[k].path == first.path);
                } else {
                    let k = choose|k: int| 0 <= k < next.len() && (#[trigger] next[k]).name == first.name;
                    assert(all.subrange(0, next.len() as int)[k] == next[k]);
                    assert(all[k].name == first.name);
                }
            } else {
                assert(rest[i - 1] == names[i]);
            }
        }
        assert forall|k: int| found.len() <= k < all.len() implies exists|i: int|
            0 <= i < names.len() && #[trigger] all[k] == discovered(dir, kind, #[trigger] names[i]) by {
            if k < next.len() {
                assert(all.subrange(0, next.len() as int)[k] == next[k]);
                assert(all[k] == discovered(dir, kind, names[0]));
            } else {
                let i = choose|i: int|
                    0 <= i < rest.len() && #[trigger] all[k] == discovered(dir, kind, #[trigger] rest[i]);
                assert(rest[i] == names[i + 1]);
                assert(all[k] == discovered(dir, kind, names[i + 1]));
            }
        }
    }
}

/// The declared targets follow what was found, one artifact for each, in
/// their order and under unique names: each carries its target's name and
/// the source file that was settled for it.
pub proof fn lemma_declare_all(
    seen: Observations,
    root: Seq<char>,
    kind: ArtifactType,
    targets: Seq<Declared>,
    found: Seq<ArtifactView>,
)
    requires
        unique_names(found),
        declare_all(seen, root, kind, targets, found) is Ok,
    ensures
        ({
            let all = declare_all(seen, root, kind, targets, found)->Ok_0;
            &&& unique_names(all)
            &&& extends(found, all)
            &&& all.len() == found.len() + targets.len()
            &&& forall|i: int|
                0 <= i < targets.len() ==> {
                    &&& (#[trigger] all[found.len() + i]).name == targets[i].name
                    &&& all[found.len() + i].kind == kind
                    &&& source_of(seen, root, kind, targets[i].name, targets[i].path) == Ok::<
                        Seq<char>,
                        ErrorView,
                    >(all[found.len() + i].path)
                }
        }),
    decreases targets.len(),
{
    let all = declare_all(seen, root, kind, targets, found)->Ok_0;
    if targets.len() == 0 {
        assert(found.subrange(0, found.len() as int) =~= found);
    } else {
        let next = declare_one(seen, root, kind, found, targets[0].name, targets[0].path)->Ok_0;
        let rest = targets.drop_first();
        assert forall|i: int, j: int| 0 <= i < j < next.len() implies (#[trigger] next[i]).name != (
        #[trigger] next[j]).name by {
            if j == found.len() {
                assert(found[i].name != targets[0].name);
            } else {
                assert(found[i].name != found[j].name);
            }
        }
        lemma_declare_all(seen, root, kind, rest, next);
        assert(all.subrange(0, found.len() as int) =~= next.subrange(0, found.len() as int));
        assert(next.subrange(0, found.len() as int) =~= found);
        assert forall|i: int| 0 <= i < targets.len() implies {
            &&& (#[trigger] all[found.len() + i]).name == targets[i].name
            &&& all[found.len() + i].kind == kind
            &&& source_of(seen, root, kind, targets[i].name, targets[i].path) == Ok::<
                Seq<char>,
                ErrorView,
            >(all[found.len() + i].path)
        } by {
            if i == 0 {
                assert(all.subrange(0, next.len() as int)[found.len() as int] == next[found.len() as int]);
            } else {
                assert(rest[i - 1] == targets[i]);
                assert(all[next.len() + (i - 1)] == all[found.len() + i]);
            }
        }
    }
}

/// A name declared twice is a duplicate. Where the target at `second`
/// repeats a name that was found or declared before it, no target before
/// it does so, and each target up to it has a source file, declaring the
/// targets fails with the duplicate of that name: nothing is discovered.
pub proof fn lemma_duplicate_declaration(
    seen: Observations,
    root: Seq<char>,
    kind: ArtifactType,
    targets: Seq<Declared>,
    found: Seq<ArtifactView>,
    second: int,
)
    requires
        0 <= second < targets.len(),
        forall|k: int|
            0 <= k <= second ==> source_of(
                seen,
                root,
                kind,
                (#[trigger] targets[k]).name,
                targets[k].path,
            ) is Ok,
        forall|a: int, b: int|
            0 <= a < b < second ==> (#[trigger] targets[a]).name != (#[trigger] targets[b]).name,
        forall|k: int| 0 <= k < second ==> !has_name(found, (#[trigger] targets[k]).name),
        has_name(found, targets[second].name) || exists|first: int|
            0 <= first < second && (#[trigger] targets[first]).name == targets[second].name,
    ensures
        declare_all(seen, root, kind, targets, found) == Err::<Seq<ArtifactView>, ErrorView>(
            duplicate(kind, targets[second].name),
        ),
    decreases second,
{
    assert(source_of(seen, root, kind, targets[0].name, targets[0].path) is Ok);
    if second > 0 {
        let rest = targets.drop_first();
        let source = source_of(seen, root, kind, targets[0].name, targets[0].path)->Ok_0;
        let joined = ArtifactView { name: targets[0].name, path: source, kind };
        let next = found.push(joined);
        assert(!has_name(found, targets[0].name));
        assert forall|k: int| 0 <= k <= second - 1 implies source_of(
            seen,
            root,
            kind,
            (#[trigger] rest[k]).name,
            rest[k].path,
        ) is Ok by {
            assert(rest[k] == targets[k + 1]);
        }
        assert forall|a: int, b: int| 0 <= a < b < second - 1 implies (#[trigger] rest[a]).name != (
        #[trigger] rest[b]).name by {
            assert(rest[a] == targets[a + 1]);
            assert(rest[b] == targets[b + 1]);
        }
        assert forall|k: int| 0 <= k < second - 1 implies !has_name(
            next,
            (#[trigger] rest[k]).name,
        ) by {
            assert(rest[k] == targets[k + 1]);
            assert(targets[0].name != targets[k + 1].name);
            assert(!has_name(found, targets[k + 1].name));
            if has_name(next, rest[k].name) {
                let i = choose|i: int| 0 <= i < next.len() && (#[trigger] next[i]).name == rest[k].name;
                if i < found.len() {
                    assert(found[i].name == rest[k].name);
                }
            }
        }
        assert(rest[second - 1] == targets[second]);
        if has_name(found, targets[second].name) {
            let i = choose|i: int|
                0 <= i < found.len() && (#[trigger] found[i]).name == targets[second].name;
            assert(next[i].name == targets[second].name);
        } else {
            let first = choose|first: int|
                0 <= first < second && (#[trigger] targets[first]).name == targets[second].name;
            if first == 0 {
                assert(next[found.len() as int].name == targets[second].name);
            } else {
                assert(rest[first - 1] == targets[first]);
            }
        }
        lemma_duplicate_declaration(seen, root, kind, rest, next, second - 1);
    }
}

/// Whether `artifact` is one of `found`.
pub open spec fn holds(found: Seq<ArtifactView>, artifact: ArtifactView) -> bool {
    exists|i: int| 0 <= i < found.len() && #[trigger] found[i] == artifact
}

/// Choosing by name keeps names unique, and keeps exactly those artifacts
/// whose name was asked for.
pub proof fn lemma_keep_named(found: Seq<ArtifactView>, names: Seq<String>)
    requires
        unique_names(found),
    ensures
        unique_names(keep_named(found, names)),
        forall|artifact: ArtifactView| #[trigger]
            holds(keep_named(found, names), artifact) <==> holds(found, artifact) && named_in(
                names,
                artifact.name,
            ),
    decreases found.len(),
{
    let kept = keep_named(found, names);
    if found.len() > 0 {
        let front = found.drop_last();
        let last = found.last();
        assert forall|i: int, j: int| 0 <= i < j < front.len() implies (#[trigger] front[i]).name != (
        #[trigger] front[j]).name by {
            assert(found[i].name != found[j].name);
        }
        lemma_keep_named(front, names);
        let kept_front = keep_named(front, names);
        assert forall|artifact: ArtifactView| #[trigger]
            holds(kept, artifact) <==> holds(found, artifact) && named_in(
                names,
                artifact.name,
            ) by {
            let in_front = holds(kept_front, artifact);
            if holds(kept, artifact) {
                let i = choose|i: int| 0 <= i < kept.len() && #[trigger] kept[i] == artifact;
                if i < kept_front.len() {
                    assert(kept_front[i] == artifact);
                    assert(holds(front, artifact));
                    let k = choose|k: int| 0 <= k < front.len() && #[trigger] front[k] == artifact;
                    assert(found[k] == artifact);
                } else {
                    assert(artifact == last);
                    assert(found[found.len() - 1] == artifact);
                }
            }
            if holds(found, artifact) && named_in(names, artifact.name) {
                let k = choose|k: int| 0 <= k < found.len() && #[trigger] found[k] == artifact;
                if k < front.len() {
                    assert(front[k] == artifact);
                    assert(in_front);
                    let i = choose|i: int|
                        0 <= i < kept_front.len() && #[trigger] kept_front[i] == artifact;
                    assert(kept[i] == artifact);
                } else {
                    assert(kept[kept.len() - 1] == artifact);
                }
            }
        }
        if named_in(names, last.name) {
            assert forall|i: int, j: int| 0 <= i < j < kept.len() implies (#[trigger] kept[i]).name
                != (#[trigger] kept[j]).name by {
                if j == kept_front.len() {
                    assert(kept_front[i] == kept[i]);
                    assert(holds(kept_front, kept[i]));
                    let k = choose|k: int| 0 <= k < front.len() && #[trigger] front[k] == kept[i];
                    assert(found[k].name != found[found.len() - 1].name);
                } else {
                    assert(kept_front[i].name != kept_front[j].name);
                }
            }
        }
    }
}

/// Discovery never overrides a declaration. Among all artifacts of a
/// package the declared binaries come first, in the order of their
/// declarations, then what was discovered, and names are unique: so the
/// one binary that carries a declared name is the declared one, with the
/// source file settled for the declaration. The same holds of the examples.
pub proof fn lemma_declared_first(
    seen: Observations,
    root: Seq<char>,
    package: Seq<char>,
    manifest: Manifest,
)
    requires
        all_artifacts(seen, root, package, manifest) is Ok,
    ensures
        ({
            let all = all_artifacts(seen, root, package, manifest)->Ok_0;
            &&& unique_names(all.bins)
            &&& unique_names(all.examples)
            &&& manifest.bins@.len() <= all.bins.len()
            &&& manifest.examples@.len() <= all.examples.len()
            &&& forall|i: int|
                0 <= i < manifest.bins@.len() ==> {
                    &&& (#[trigger] all.bins[i]).name == manifest.bins@[i].name@
                    &&& source_of(
                        seen,
                        root,
                        ArtifactType::Bin,
                        manifest.bins@[i].name@,
                        chars_of(manifest.bins@[i].path),
                    ) == Ok::<Seq<char>, ErrorView>(all.bins[i].path)
                }
            &&& forall|i: int|
                0 <= i < manifest.examples@.len() ==> {
                    &&& (#[trigger] all.examples[i]).name == manifest.examples@[i].name@
                    &&& source_of(
                        seen,
                        root,
                        ArtifactType::Example,
                        manifest.examples@[i].name@,
                        chars_of(manifest.examples@[i].path),
                    ) == Ok::<Seq<char>, ErrorView>(all.examples[i].path)
                }
        }),
{
    let all = all_artifacts(seen, root, package, manifest)->Ok_0;
    let none = Seq::<ArtifactView>::empty();
    let bin_decls = bin_targets(manifest.bins@);
    let example_decls = example_targets(manifest.examples@);
    let declared_bins = declare_all(seen, root, ArtifactType::Bin, bin_decls, none)->Ok_0;
    let declared_examples = declare_all(
        seen,
        root,
        ArtifactType::Example,
        example_decls,
        none,
    )->Ok_0;
    lemma_declare_all(seen, root, ArtifactType::Bin, bin_decls, none);
    lemma_declare_all(seen, root, ArtifactType::Example, example_decls, none);
    if autobins(manifest) {
        let has_main = seen.files.get(paths::join(root, "src/main.rs"@))->0;
        let names = listed(seen, paths::join(root, "src/bin"@))->Ok_0;
        let with_main = if has_main {
            discover_one(declared_bins, package, "src/main.rs"@, ArtifactType::Bin)
        } else {
            declared_bins
        };
        lemma_discover_one(declared_bins, package, "src/main.rs"@, ArtifactType::Bin);
        assert(declared_bins.subrange(0, declared_bins.len() as int) =~= declared_bins);
        lemma_discover_all(with_main, "src/bin"@, ArtifactType::Bin, names);
        assert(all.bins.subrange(0, declared_bins.len() as int) =~= with_main.subrange(
            0,
            declared_bins.len() as int,
        ));
    }
    if autoexamples(manifest) {
        let names = listed(seen, paths::join(root, "examples"@))->Ok_0;
        lemma_discover_all(declared_examples, "examples"@, ArtifactType::Example, names);
    }
    assert forall|i: int| 0 <= i < manifest.bins@.len() implies {
        &&& (#[trigger] all.bins[i]).name == manifest.bins@[i].name@
        &&& source_of(
            seen,
            root,
            ArtifactType::Bin,
            manifest.bins@[i].name@,
            chars_of(manifest.bins@[i].path),
        ) == Ok::<Seq<char>, ErrorView>(all.bins[i].path)
    } by {
        assert(all.bins.subrange(0, declared_bins.len() as int)[i] == declared_bins[i]);
        assert(declared_bins[0 + i].name == bin_decls[i].name);
    }
    assert forall|i: int| 0 <= i < manifest.examples@.len() implies {
        &&& (#[trigger] all.examples[i]).name == manifest.examples@[i].name@
        &&& source_of(
            seen,
            root,
            ArtifactType::Example,
            manifest.examples@[i].name@,
            chars_of(manifest.examples@[i].path),
        ) == Ok::<Seq<char>, ErrorView>(all.examples[i].path)
    } by {
        assert(all.examples.subrange(0, declared_examples.len() as int)[i]
            == declared_examples[i]);
        assert(declared_examples[0 + i].name == example_decls[i].name);
    }
}

/// Declaring two binaries of one name fails before anything is discovered.
/// Where the binary at `second` repeats the name of an earlier one, no
/// binary before it repeats a name, and each binary up to it has a source
/// file, the package has no artifacts: finding them fails with the
/// duplicate of that name.
pub proof fn lemma_duplicate_binary(
    seen: Observations,
    root: Seq<char>,
    package: Seq<char>,
    manifest: Manifest,
    second: int,
)
    requires
        0 <= second < manifest.bins@.len(),
        forall|k: int|
            0 <= k <= second ==> source_of(
                seen,
                root,
                ArtifactType::Bin,
                (#[trigger] manifest.bins@[k]).name@,
                chars_of(manifest.bins@[k].path),
            ) is Ok,
        forall|a: int, b: int|
            0 <= a < b < second ==> (#[trigger] manifest.bins@[a]).name@ != (
            #[trigger] manifest.bins@[b]).name@,
        exists|first: int|
            0 <= first < second && (#[trigger] manifest.bins@[first]).name@
                == manifest.bins@[second].name@,
    ensures
        all_artifacts(seen, root, package, manifest) == Err::<ArtifactsView, ErrorView>(
            ErrorView::DuplicateBin(manifest.bins@[second].name@),
        ),
{
    let targets = bin_targets(manifest.bins@);
    let none = Seq::<ArtifactView>::empty();
    let first = choose|first: int|
        0 <= first < second && (#[trigger] manifest.bins@[first]).name@
            == manifest.bins@[second].name@;
    assert forall|k: int| 0 <= k <= second implies source_of(
        seen,
        root,
        ArtifactType::Bin,
        (#[trigger] targets[k]).name,
        targets[k].path,
    ) is Ok by {
        assert(targets[k].name == manifest.bins@[k].name@);
    }
    assert forall|a: int, b: int| 0 <= a < b < second implies (#[trigger] targets[a]).name != (
    #[trigger] targets[b]).name by {
        assert(manifest.bins@[a].name@ != manifest.bins@[b].name@);
    }
    assert(targets[first].name == targets[second].name);
    lemma_duplicate_declaration(seen, root, ArtifactType::Bin, targets, none, second);
}

/// Declaring two examples of one name fails before anything is discovered,
/// as it does for binaries, once the declared binaries are settled.
pub proof fn lemma_duplicate_example(
    seen: Observations,
    root: Seq<char>,
    package: Seq<char>,
    manifest: Manifest,
    second: int,
)
    requires
        declare_all(
            seen,
            root,
            ArtifactType::Bin,
            bin_targets(manifest.bins@),
            Seq::empty(),
        ) is Ok,
        0 <= second < manifest.examples@.len(),
        forall|k: int|
            0 <= k <= second ==> source_of(
                seen,
                root,
                ArtifactType::Example,
                (#[trigger] manifest.examples@[k]).name@,
                chars_of(manifest.examples@[k].path),
            ) is Ok,
        forall|a: int, b: int|
            0 <= a < b < second ==> (#[trigger] manifest.examples@[a]).name@ != (
            #[trigger] manifest.examples@[b]).name@,
        exists|first: int|
            0 <= first < second && (#[trigger] manifest.examples@[first]).name@
                == manifest.examples@[second].name@,
    ensures
        all_artifacts(seen, root, package, manifest) == Err::<ArtifactsView, ErrorView>(
            ErrorView::DuplicateExample(manifest.examples@[second].name@),
        ),
{
    let targets = example_targets(manifest.examples@);
    let none = Seq::<ArtifactView>::empty();
    let first = choose|first: int|
        0 <= first < second && (#[trigger] manifest.examples@[first]).name@
            == manifest.examples@[second].name@;
    assert forall|k: int| 0 <= k <= second implies source_of(
        seen,
        root,
        ArtifactType::Example,
        (#[trigger] targets[k]).name,
        targets[k].path,
    ) is Ok by {
        assert(targets[k].name == manifest.examples@[k].name@);
    }
    assert forall|a: int, b: int| 0 <= a < b < second implies (#[trigger] targets[a]).name != (
    #[trigger] targets[b]).name by {
        assert(manifest.examples@[a].name@ != manifest.examples@[b].name@);
    }
    assert(targets[first].name == targets[second].name);
    lemma_duplicate_declaration(seen, root, ArtifactType::Example, targets, none, second);
}

/// The places where convention and discovery look are relative to the
/// package root.
pub proof fn lemma_conventional_relative(kind: ArtifactType, name: Seq<char>)
    ensures
        !paths::is_absolute(flat_source(kind, name)),
        !paths::is_absolute(nested_source(kind, name)),
        !paths::is_absolute(paths::inside(default_dir(kind), name)),
        !paths::is_absolute("src/main.rs"@),
        !paths::is_absolute("src/lib.rs"@),
{
    reveal_strlit("src/bin");
    reveal_strlit("examples");
    reveal_strlit("src/main.rs");
    reveal_strlit("src/lib.rs");
    let dir = default_dir(kind);
    paths::lemma_inside_relative(dir, name + ".rs"@);
    paths::lemma_inside_relative(dir, name);
    paths::lemma_inside_relative(paths::inside(dir, name), "main.rs"@);
}

/// The declared targets alone stand as discovery would leave them.
pub proof fn lemma_declared_laid_out(
    seen: Observations,
    root: Seq<char>,
    kind: ArtifactType,
    targets: Seq<Declared>,
)
    requires
        declare_all(seen, root, kind, targets, Seq::empty()) is Ok,
    ensures
        laid_out(declare_all(seen, root, kind, targets, Seq::empty())->Ok_0, targets),
{
    let none = Seq::<ArtifactView>::empty();
    let all = declare_all(seen, root, kind, targets, none)->Ok_0;
    lemma_declare_all(seen, root, kind, targets, none);
    assert forall|k: int| 0 <= k < targets.len() implies (#[trigger] all[k]).name == targets[k].name
        && (!paths::is_absolute(all[k].path) || targets[k].path == Some(all[k].path)) by {
        assert(all[0 + k].name == targets[k].name);
        lemma_conventional_relative(kind, targets[k].name);
    }
}

/// A discovered file with a relative path leaves the artifacts laid out.
pub proof fn lemma_discover_one_laid_out(
    found: Seq<ArtifactView>,
    targets: Seq<Declared>,
    name: Seq<char>,
    path: Seq<char>,
    kind: ArtifactType,
)
    requires
        laid_out(found, targets),
        !paths::is_absolute(path),
    ensures
        laid_out(discover_one(found, name, path, kind), targets),
{
    let next = discover_one(found, name, path, kind);
    lemma_discover_one(found, name, path, kind);
    if next.len() > found.len() {
        assert forall|k: int| 0 <= k < targets.len() implies (#[trigger] next[k]).name
            == targets[k].name && (!paths::is_absolute(next[k].path) || targets[k].path == Some(
            next[k].path,
        )) by {
            assert(next[k] == found[k]);
        }
        assert forall|k: int| targets.len() <= k < next.len() implies !paths::is_absolute(
            (#[trigger] next[k]).path,
        ) by {
            if k < found.len() {
                assert(next[k] == found[k]);
            }
        }
        assert forall|i: int, j: int|
            0 <= i < j < next.len() && targets.len() <= j implies (#[trigger] next[i]).path != (
        #[trigger] next[j]).path by {
            assert(next[i] == found[i]);
            if j < found.len() {
                assert(next[j] == found[j]);
            } else {
                assert(found[i].path != path);
            }
        }
    }
}

/// Discovery in a relative directory leaves the artifacts laid out.
pub proof fn lemma_discover_all_laid_out(
    found: Seq<ArtifactView>,
    targets: Seq<Declared>,
    dir: Seq<char>,
    kind: ArtifactType,
    names: Seq<Seq<char>>,
)
    requires
        laid_out(found, targets),
        dir.len() > 0,
        !paths::is_absolute(dir),
    ensures
        laid_out(discover_all(found, dir, kind, names), targets),
    decreases names.len(),
{
    if names.len() > 0 {
        let path = paths::inside(dir, names[0]);
        paths::lemma_inside_relative(dir, names[0]);
        lemma_discover_one_laid_out(found, targets, paths::file_stem(names[0]), path, kind);
        lemma_discover_all_laid_out(
            discover_one(found, paths::file_stem(names[0]), path, kind),
            targets,
            dir,
            kind,
            names.drop_first(),
        );
    }
}

/// Artifacts that are laid out have their sources placed.
pub proof fn lemma_laid_out_placed(found: Seq<ArtifactView>, targets: Seq<Declared>)
    requires
        laid_out(found, targets),
    ensures
        sources_placed(found, targets),
{
    assert forall|k: int| 0 <= k < found.len() implies !paths::is_absolute(
        (#[trigger] found[k]).path,
    ) || declares_path(targets, found[k].name, found[k].path) by {
        if k < targets.len() && paths::is_absolute(found[k].path) {
            assert(targets[k].name == found[k].name && targets[k].path == Some(found[k].path));
        }
    }
    assert forall|i: int, j: int|
        0 <= i < j < found.len() && (#[trigger] found[i]).path == (
        #[trigger] found[j]).path implies declares_name(targets, found[i].name) && declares_name(
        targets,
        found[j].name,
    ) by {
        assert(j < targets.len());
        assert(targets[i].name == found[i].name);
        assert(targets[j].name == found[j].name);
    }
}

/// A choice by name leaves the sources placed.
pub proof fn lemma_keep_named_placed(
    found: Seq<ArtifactView>,
    names: Seq<String>,
    targets: Seq<Declared>,
)
    requires
        unique_names(found),
        sources_placed(found, targets),
    ensures
        sources_placed(keep_named(found, names), targets),
{
    let kept = keep_named(found, names);
    lemma_keep_named(found, names);
    assert forall|k: int| 0 <= k < kept.len() implies !paths::is_absolute(
        (#[trigger] kept[k]).path,
    ) || declares_path(targets, kept[k].name, kept[k].path) by {
        assert(holds(kept, kept[k]));
        let m = choose|m: int| 0 <= m < found.len() && #[trigger] found[m] == kept[k];
        assert(!paths::is_absolute(found[m].path) || declares_path(
            targets,
            found[m].name,
            found[m].path,
        ));
    }
    assert forall|i: int, j: int|
        0 <= i < j < kept.len() && (#[trigger] kept[i]).path == (
        #[trigger] kept[j]).path implies declares_name(targets, kept[i].name) && declares_name(
        targets,
        kept[j].name,
    ) by {
        assert(holds(kept, kept[i]));
        assert(holds(kept, kept[j]));
        let a = choose|a: int| 0 <= a < found.len() && #[trigger] found[a] == kept[i];
        let b = choose|b: int| 0 <= b < found.len() && #[trigger] found[b] == kept[j];
        assert(kept[i].name != kept[j].name);
        if a < b {
            assert(found[a].path == found[b].path);
        } else {
            assert(found[b].path == found[a].path);
        }
    }
}

/// Discovery adds artifacts of its kind only.
pub proof fn lemma_discover_all_kind(
    found: Seq<ArtifactView>,
    dir: Seq<char>,
    kind: ArtifactType,
    names: Seq<Seq<char>>,
)
    requires
        all_of_kind(found, kind),
    ensures
        all_of_kind(discover_all(found, dir, kind, names), kind),
    decreases names.len(),
{
    if names.len() > 0 {
        let next = discover_one(
            found,
            paths::file_stem(names[0]),
            paths::inside(dir, names[0]),
            kind,
        );
        assert forall|k: int| 0 <= k < next.len() implies (#[trigger] next[k]).kind == kind by {
            if k < found.len() {
                assert(next[k] == found[k]);
            }
        }
        lemma_discover_all_kind(next, dir, kind, names.drop_first());
    }
}

/// A choice by name keeps the kind of the artifacts.
pub proof fn lemma_keep_named_kind(found: Seq<ArtifactView>, names: Seq<String>, kind: ArtifactType)
    requires
        unique_names(found),
        all_of_kind(found, kind),
    ensures
        all_of_kind(keep_named(found, names), kind),
{
    let kept = keep_named(found, names);
    lemma_keep_named(found, names);
    assert forall|k: int| 0 <= k < kept.len() implies (#[trigger] kept[k]).kind == kind by {
        assert(holds(kept, kept[k]));
        let m = choose|m: int| 0 <= m < found.len() && #[trigger] found[m] == kept[k];
        assert(found[m].kind == kind);
    }
}

/// All artifacts of a package stand laid out: the declared ones first,
/// every source found by convention or by discovery relative to the
/// package root, and no discovered source twice.
pub proof fn lemma_artifacts_laid_out(
    seen: Observations,
    root: Seq<char>,
    package: Seq<char>,
    manifest: Manifest,
)
    requires
        all_artifacts(seen, root, package, manifest) is Ok,
    ensures
        all_artifacts(seen, root, package, manifest)->Ok_0.laid_out_by(manifest),
        all_artifacts(seen, root, package, manifest)->Ok_0.well_formed(),
{
    let none = Seq::<ArtifactView>::empty();
    let bin_decls = bin_targets(manifest.bins@);
    let example_decls = example_targets(manifest.examples@);
    let declared_bins = declare_all(seen, root, ArtifactType::Bin, bin_decls, none)->Ok_0;
    let declared_examples = declare_all(
        seen,
        root,
        ArtifactType::Example,
        example_decls,
        none,
    )->Ok_0;
    lemma_declared_laid_out(seen, root, ArtifactType::Bin, bin_decls);
    lemma_declared_laid_out(seen, root, ArtifactType::Example, example_decls);
    lemma_declare_all(seen, root, ArtifactType::Bin, bin_decls, none);
    lemma_declare_all(seen, root, ArtifactType::Example, example_decls, none);
    assert(all_of_kind(declared_bins, ArtifactType::Bin)) by {
        assert forall|k: int| 0 <= k < declared_bins.len() implies (#[trigger] declared_bins[k]).kind
            == ArtifactType::Bin by {
            assert(declared_bins[0 + k].kind == ArtifactType::Bin);
        }
    }
    assert(all_of_kind(declared_examples, ArtifactType::Example)) by {
        assert forall|k: int| 0 <= k < declared_examples.len() implies (
        #[trigger] declared_examples[k]).kind == ArtifactType::Example by {
            assert(declared_examples[0 + k].kind == ArtifactType::Example);
        }
    }
    lemma_conventional_relative(ArtifactType::Bin, package);
    reveal_strlit("src/bin");
    reveal_strlit("examples");
    if autobins(manifest) {
        let has_main = seen.files.get(paths::join(root, "src/main.rs"@))->0;
        let names = listed(seen, paths::join(root, "src/bin"@))->Ok_0;
        let with_main = if has_main {
            discover_one(declared_bins, package, "src/main.rs"@, ArtifactType::Bin)
        } else {
            declared_bins
        };
        lemma_discover_one_laid_out(
            declared_bins,
            bin_decls,
            package,
            "src/main.rs"@,
            ArtifactType::Bin,
        );
        lemma_discover_all_laid_out(with_main, bin_decls, "src/bin"@, ArtifactType::Bin, names);
        lemma_discover_all_kind(with_main, "src/bin"@, ArtifactType::Bin, names);
    }
    if autoexamples(manifest) {
        let names = listed(seen, paths::join(root, "examples"@))->Ok_0;
        lemma_discover_all_laid_out(
            declared_examples,
            example_decls,
            "examples"@,
            ArtifactType::Example,
            names,
        );
        lemma_discover_all_kind(declared_examples, "examples"@, ArtifactType::Example, names);
    }
}

/// The choice that a request makes leaves the sources placed.
pub proof fn lemma_chosen_placed(all: ArtifactsView, args: Args, manifest: Manifest)
    requires
        all.well_formed(),
        all.well_placed(manifest),
    ensures
        chosen(all, args).well_placed(manifest),
{
    lemma_keep_named_placed(all.bins, args.bin@, bin_targets(manifest.bins@));
    lemma_keep_named_placed(all.examples, args.example@, example_targets(manifest.examples@));
}

} // verus!
