//! Selecting the one package that a request means: the members that a
//! workspace claims, and the choice among them.

use crate::error::{Error, ErrorView};
use crate::manifest::Manifest;
use crate::observe::{Loaded, Observations, Query, QueryView};
use crate::paths;
use crate::text;
use crate::utils::{canonical, canonicalize, located, manifest_in, Located};
use vstd::prelude::*;
use vstd::string::*;

verus! {

/// A member of a workspace: its directory, its descriptor's path, and the
/// descriptor.
#[derive(Debug)]
pub struct Member<'a> {
    pub dir: String,
    pub path: String,
    pub manifest: &'a Manifest,
}

/// What a [`Member`] is, with its paths as sequences of characters.
pub struct MemberView {
    pub dir: Seq<char>,
    pub path: Seq<char>,
    pub manifest: Manifest,
}

impl<'a> View for Member<'a> {
    type V = MemberView;

    open spec fn view(&self) -> MemberView {
        MemberView { dir: self.dir@, path: self.path@, manifest: *self.manifest }
    }
}

impl<'a> DeepView for Member<'a> {
    type V = MemberView;

    open spec fn deep_view(&self) -> MemberView {
        self@
    }
}

/// One result followed by another: the members of both, or the first
/// failure.
pub open spec fn followed_by(
    first: Seq<MemberView>,
    rest: Result<Seq<MemberView>, ErrorView>,
) -> Result<Seq<MemberView>, ErrorView> {
    match rest {
        Ok(more) => Ok(first + more),
        Err(error) => Err(error),
    }
}

impl Manifest {
    /// The descriptor read from `path`. Here a file that is not there is a
    /// failure like any other file that cannot be read, with the text that
    /// the attempt to read it gave.
    pub open spec fn parsed(seen: Observations, path: Seq<char>) -> Result<Manifest, ErrorView> {
        match seen.manifests.get(path) {
            None => Err(ErrorView::Unobserved(QueryView::Manifest(path))),
            Some(Loaded::Missing(message)) => Err(ErrorView::Io(path, message@)),
            Some(Loaded::Found(manifest)) => Ok(manifest),
            Some(Loaded::Unreadable(message)) => Err(ErrorView::Io(path, message@)),
            Some(Loaded::Malformed(message)) => Err(ErrorView::Toml(path, message@)),
        }
    }

    /// The member in the directory that a pattern reached. The directory
    /// must hold a descriptor that declares a package and no workspace.
    pub open spec fn member_at(seen: Observations, reached: Result<String, String>) -> Result<
        MemberView,
        ErrorView,
    > {
        match reached {
            Err(message) => Err(ErrorView::Glob(message@)),
            Ok(dir) => {
                let path = manifest_in(dir@);
                match Self::parsed(seen, path) {
                    Err(error) => Err(error),
                    Ok(manifest) => if manifest.workspace is Some {
                        Err(ErrorView::UnexpectedWorkspace(path))
                    } else if manifest.package is None {
                        Err(ErrorView::NoPackageInManifest(path))
                    } else {
                        Ok(MemberView { dir: dir@, path, manifest })
                    },
                }
            },
        }
    }

    /// The members in the directories that one pattern reached, in order,
    /// or the failure of the first directory that is no member.
    pub open spec fn members_at(seen: Observations, reached: Seq<Result<String, String>>) -> Result<
        Seq<MemberView>,
        ErrorView,
    >
        decreases reached.len(),
    {
        if reached.len() == 0 {
            Ok(Seq::empty())
        } else {
            match Self::member_at(seen, reached[0]) {
                Err(error) => Err(error),
                Ok(member) => followed_by(seq![member], Self::members_at(seen, reached.drop_first())),
            }
        }
    }

    /// The members that one pattern matches.
    pub open spec fn members_matching(seen: Observations, pattern: Seq<char>) -> Result<
        Seq<MemberView>,
        ErrorView,
    > {
        match seen.globs.get(pattern) {
            None => Err(ErrorView::Unobserved(QueryView::Glob(pattern))),
            Some(Err(message)) => Err(ErrorView::GlobPatternError(message@)),
            Some(Ok(reached)) => Self::members_at(seen, reached@),
        }
    }

    /// The members that the patterns match, each pattern taken from `root`,
    /// in the order of the patterns.
    pub open spec fn members_of_patterns(
        seen: Observations,
        root: Seq<char>,
        patterns: Seq<String>,
    ) -> Result<Seq<MemberView>, ErrorView>
        decreases patterns.len(),
    {
        if patterns.len() == 0 {
            Ok(Seq::empty())
        } else {
            match Self::members_matching(seen, paths::join(root, patterns[0]@)) {
                Err(error) => Err(error),
                Ok(members) => followed_by(
                    members,
                    Self::members_of_patterns(seen, root, patterns.drop_first()),
                ),
            }
        }
    }

    /// The members of the workspace that this descriptor declares, rooted at
    /// `workspace_root`.
    pub open spec fn members_spec(self, seen: Observations, workspace_root: Seq<char>) -> Result<
        Seq<MemberView>,
        ErrorView,
    > {
        match self.workspace {
            None => Err(ErrorView::ManifestNotAWorkspace),
            Some(workspace) => match canonical(seen, workspace_root) {
                Err(error) => Err(error),
                Ok(root) => Self::members_of_patterns(seen, root, workspace.members@),
            },
        }
    }

    /// Reads the descriptor at `path`.
    pub fn parse_from_toml<'a>(path: &str, seen: &'a Observations) -> (read: Result<
        &'a Manifest,
        Error,
    >)
        ensures
            match read {
                Ok(manifest) => Self::parsed(*seen, path@) == Ok::<Manifest, ErrorView>(*manifest),
                Err(error) => Self::parsed(*seen, path@) == Err::<Manifest, ErrorView>(error@),
            },
    {
        match seen.manifests.find(path) {
            None => Err(Error::Unobserved(Query::Manifest(path.to_owned()))),
            Some(Loaded::Missing(message)) => Err(Error::Io(path.to_owned(), message.clone())),
            Some(Loaded::Found(manifest)) => Ok(manifest),
            Some(Loaded::Unreadable(message)) => Err(Error::Io(path.to_owned(), message.clone())),
            Some(Loaded::Malformed(message)) => Err(Error::Toml(path.to_owned(), message.clone())),
        }
    }

    /// The members in the directories that one pattern reached.
    pub fn load_members<'a>(reached: &Vec<Result<String, String>>, seen: &'a Observations) -> (found:
        Result<Vec<Member<'a>>, Error>)
        ensures
            match found {
                Ok(members) => Self::members_at(*seen, reached@) == Ok::<Seq<MemberView>, ErrorView>(
                    members.deep_view(),
                ),
                Err(error) => Self::members_at(*seen, reached@) == Err::<Seq<MemberView>, ErrorView>(
                    error@,
                ),
            },
    {
        let mut all: Vec<Member<'a>> = Vec::new();
        let mut j: usize = 0;
        assert(reached@.skip(0) =~= reached@);
        assert(all.deep_view() =~= Seq::<MemberView>::empty());
        proof {
            match Self::members_at(*seen, reached@) {
                Ok(more) => {
                    assert(Seq::<MemberView>::empty() + more =~= more);
                },
                Err(_) => {},
            }
        }
        while j < reached.len()
            invariant
                j <= reached.len(),
                Self::members_at(*seen, reached@) == followed_by(
                    all.deep_view(),
                    Self::members_at(*seen, reached@.skip(j as int)),
                ),
            decreases reached.len() - j,
        {
            let ghost tail = reached@.skip(j as int);
            assert(tail[0] == reached@[j as int]);
            assert(tail.drop_first() =~= reached@.skip(j + 1));
            let dir = match &reached[j] {
                Ok(dir) => dir,
                Err(message) => return Err(Error::Glob(message.clone())),
            };
            let path = paths::join_path(dir.as_str(), "Cargo.toml");
            let manifest = match Self::parse_from_toml(path.as_str(), seen) {
                Ok(manifest) => manifest,
                Err(error) => return Err(error),
            };
            if manifest.workspace.is_some() {
                return Err(Error::UnexpectedWorkspace(path));
            }
            if manifest.package.is_none() {
                return Err(Error::NoPackageInManifest(path));
            }
            let member = Member { dir: dir.clone(), path, manifest };
            let ghost taken = all.deep_view();
            all.push(member);
            proof {
                assert(all.deep_view() =~= taken.push(member@));
                match Self::members_at(*seen, reached@.skip(j + 1)) {
                    Ok(more) => {
                        assert(taken + (seq![member@] + more) =~= taken.push(member@) + more);
                    },
                    Err(_) => {},
                }
            }
            j = j + 1;
        }
        proof {
            assert(all.deep_view() + Seq::<MemberView>::empty() =~= all.deep_view());
        }
        Ok(all)
    }

    /// The members that `pattern` matches.
    pub fn load_matching<'a>(pattern: String, seen: &'a Observations) -> (found: Result<
        Vec<Member<'a>>,
        Error,
    >)
        ensures
            match found {
                Ok(members) => Self::members_matching(*seen, pattern@) == Ok::<
                    Seq<MemberView>,
                    ErrorView,
                >(members.deep_view()),
                Err(error) => Self::members_matching(*seen, pattern@) == Err::<
                    Seq<MemberView>,
                    ErrorView,
                >(error@),
            },
    {
        match seen.globs.find(pattern.as_str()) {
            None => Err(Error::Unobserved(Query::Glob(pattern))),
            Some(Err(message)) => Err(Error::GlobPatternError(message.clone())),
            Some(Ok(reached)) => Self::load_members(reached, seen),
        }
    }

    /// The members of the workspace that this descriptor declares: every
    /// directory that a member pattern matches, each with its descriptor.
    /// Every member declares a package and no workspace; a matched directory
    /// that does not is a failure.
    pub fn members<'a>(&self, workspace_root: &str, seen: &'a Observations) -> (found: Result<
        Vec<Member<'a>>,
        Error,
    >)
        ensures
            match found {
                Ok(members) => self.members_spec(*seen, workspace_root@) == Ok::<
                    Seq<MemberView>,
                    ErrorView,
                >(members.deep_view()),
                Err(error) => self.members_spec(*seen, workspace_root@) == Err::<
                    Seq<MemberView>,
                    ErrorView,
                >(error@),
            },
            found matches Ok(members) ==> all_members(members.deep_view()),
    {
        proof {
            lemma_members_are_packages(*self, *seen, workspace_root@);
        }
        let workspace = match &self.workspace {
            Some(workspace) => workspace,
            None => return Err(Error::ManifestNotAWorkspace),
        };
        let root = match canonicalize(workspace_root, seen) {
            Ok(root) => root,
            Err(error) => return Err(error),
        };
        let patterns = &workspace.members;
        let mut all: Vec<Member<'a>> = Vec::new();
        let mut i: usize = 0;
        assert(patterns@.skip(0) =~= patterns@);
        assert(all.deep_view() =~= Seq::<MemberView>::empty());
        proof {
            match Self::members_of_patterns(*seen, root@, patterns@) {
                Ok(more) => {
                    assert(Seq::<MemberView>::empty() + more =~= more);
                },
                Err(_) => {},
            }
        }
        while i < patterns.len()
            invariant
                i <= patterns.len(),
                self.members_spec(*seen, workspace_root@) == followed_by(
                    all.deep_view(),
                    Self::members_of_patterns(*seen, root@, patterns@.skip(i as int)),
                ),
            decreases patterns.len() - i,
        {
            let ghost rest = patterns@.skip(i as int);
            assert(rest[0] == patterns@[i as int]);
            assert(rest.drop_first() =~= patterns@.skip(i + 1));
            let pattern = paths::join_path(root.as_str(), patterns[i].as_str());
            let mut matched = match Self::load_matching(pattern, seen) {
                Ok(matched) => matched,
                Err(error) => return Err(error),
            };
            let ghost start = all.deep_view();
            let ghost taken = matched.deep_view();
            all.append(&mut matched);
            proof {
                assert(all.deep_view() =~= start + taken);
                match Self::members_of_patterns(*seen, root@, patterns@.skip(i + 1)) {
                    Ok(more) => {
                        assert(start + (taken + more) =~= (start + taken) + more);
                    },
                    Err(_) => {},
                }
            }
            i = i + 1;
        }
        proof {
            assert(all.deep_view() + Seq::<MemberView>::empty() =~= all.deep_view());
        }
        Ok(all)
    }
}

/// What holds of every member of a workspace: its descriptor lies in its
/// directory and declares a package and no workspace.
pub open spec fn is_member(member: MemberView) -> bool {
    &&& member.path == manifest_in(member.dir)
    &&& member.manifest.package is Some
    &&& member.manifest.workspace is None
}

/// Whether each of `members` is a member.
pub open spec fn all_members(members: Seq<MemberView>) -> bool {
    forall|i: int| 0 <= i < members.len() ==> is_member(#[trigger] members[i])
}

/// The directories that a pattern reached give members only.
pub proof fn lemma_members_at(seen: Observations, reached: Seq<Result<String, String>>)
    ensures
        Manifest::members_at(seen, reached) matches Ok(members) ==> all_members(members),
    decreases reached.len(),
{
    if reached.len() > 0 {
        lemma_members_at(seen, reached.drop_first());
    }
}

/// The patterns of a workspace give members only.
pub proof fn lemma_members_of_patterns(seen: Observations, root: Seq<char>, patterns: Seq<String>)
    ensures
        Manifest::members_of_patterns(seen, root, patterns) matches Ok(members) ==> all_members(
            members,
        ),
    decreases patterns.len(),
{
    if patterns.len() > 0 {
        let pattern = paths::join(root, patterns[0]@);
        match seen.globs.get(pattern) {
            Some(Ok(reached)) => {
                lemma_members_at(seen, reached@);
            },
            _ => {},
        }
        lemma_members_of_patterns(seen, root, patterns.drop_first());
    }
}

/// Every member of a workspace declares a package and no workspace: a
/// matched directory that does not is a failure, never a member.
pub proof fn lemma_members_are_packages(
    workspace: Manifest,
    seen: Observations,
    workspace_root: Seq<char>,
)
    ensures
        workspace.members_spec(seen, workspace_root) matches Ok(members) ==> all_members(members),
{
    match (workspace.workspace, canonical(seen, workspace_root)) {
        (Some(declared), Ok(root)) => {
            lemma_members_of_patterns(seen, root, declared.members@);
        },
        _ => {},
    }
}

/// Whether `manifest` declares the package called `name`.
pub open spec fn declares(manifest: Manifest, name: Seq<char>) -> bool {
    manifest.package matches Some(package) && package.name@ == name
}

/// Whether one of `members` lies in `dir`.
pub open spec fn lists_dir(members: Seq<MemberView>, dir: Seq<char>) -> bool {
    exists|i: int| 0 <= i < members.len() && (#[trigger] members[i]).dir == dir
}

/// The first of `members` that declares the package called `name`.
pub open spec fn member_named(members: Seq<MemberView>, name: Seq<char>) -> Option<MemberView>
    decreases members.len(),
{
    if members.len() == 0 {
        None
    } else if declares(members[0].manifest, name) {
        Some(members[0])
    } else {
        member_named(members.drop_first(), name)
    }
}

/// The package that a request means inside a workspace.
///
/// The descriptor that the request started from must be the workspace root
/// or lie in a directory that the workspace lists. With a name, the package
/// of that name is taken: the root's own, else the first member's. Without
/// one, the descriptor that the request started from, which must declare a
/// package.
pub open spec fn select_in_workspace(
    seen: Observations,
    workspace_path: Seq<char>,
    workspace: Manifest,
    potential_path: Seq<char>,
    potential: Manifest,
    package_name: Option<Seq<char>>,
) -> Result<(Seq<char>, Manifest), ErrorView> {
    match workspace.members_spec(seen, paths::directory(workspace_path)) {
        Err(error) => Err(error),
        Ok(members) => if workspace_path != potential_path && !lists_dir(
            members,
            paths::directory(potential_path),
        ) {
            Err(
                ErrorView::ManifestNotInWorkspace {
                    manifest: potential_path,
                    workspace_manifest: workspace_path,
                },
            )
        } else {
            match package_name {
                Some(name) => if declares(workspace, name) {
                    Ok((workspace_path, workspace))
                } else {
                    match member_named(members, name) {
                        Some(member) => Ok((member.path, member.manifest)),
                        None => Err(ErrorView::PackageNotFound(workspace_path, name)),
                    }
                },
                None => if potential.package is None {
                    Err(ErrorView::NoPackageInManifest(potential_path))
                } else {
                    Ok((potential_path, potential))
                },
            }
        },
    }
}

/// The package that a request means where no workspace encloses it: the
/// descriptor itself, which must declare a package and no workspace, and
/// whose package must carry the name that was asked for, if one was.
pub open spec fn select_alone(manifest: Manifest, path: Seq<char>, name: Option<Seq<char>>) -> Result<
    (Seq<char>, Manifest),
    ErrorView,
> {
    if manifest.workspace is Some {
        Err(ErrorView::UnexpectedWorkspace(path))
    } else if manifest.package is None {
        Err(ErrorView::NoPackageInManifest(path))
    } else {
        match name {
            Some(name) if !declares(manifest, name) => Err(ErrorView::PackageNotFound(path, name)),
            _ => Ok((path, manifest)),
        }
    }
}

/// What an optional text is, as characters.
pub open spec fn text_of(text: Option<&str>) -> Option<Seq<char>> {
    match text {
        Some(text) => Some(text@),
        None => None,
    }
}

/// A member found by name declares that name, and where none is found no
/// member declares it.
pub proof fn lemma_member_named(members: Seq<MemberView>, name: Seq<char>)
    ensures
        match member_named(members, name) {
            Some(member) => declares(member.manifest, name) && members.contains(member),
            None => forall|i: int| 0 <= i < members.len() ==> !declares(members[i].manifest, name),
        },
    decreases members.len(),
{
    if members.len() > 0 && !declares(members[0].manifest, name) {
        let rest = members.drop_first();
        lemma_member_named(rest, name);
        match member_named(rest, name) {
            Some(member) => {
                let i = choose|i: int| 0 <= i < rest.len() && rest[i] == member;
                assert(members[i + 1] == member);
            },
            None => {
                assert forall|i: int| 0 <= i < members.len() implies !declares(
                    members[i].manifest,
                    name,
                ) by {
                    if i > 0 {
                        assert(rest[i - 1] == members[i]);
                    }
                }
            },
        }
    } else if members.len() > 0 {
        assert(members[0] == members[0]);
    }
}

/// Inside a workspace, a request for a package by name yields a package of
/// exactly that name or fails: it never yields another package. Where
/// neither the root nor any member declares the name, and the workspace
/// could be read and lists the starting descriptor, the failure is that the
/// package was not found.
pub proof fn lemma_selection_by_name(
    seen: Observations,
    workspace_path: Seq<char>,
    workspace: Manifest,
    potential_path: Seq<char>,
    potential: Manifest,
    name: Seq<char>,
)
    ensures
        select_in_workspace(
            seen,
            workspace_path,
            workspace,
            potential_path,
            potential,
            Some(name),
        ) matches Ok((_, chosen)) ==> declares(chosen, name),
        workspace.members_spec(seen, paths::directory(workspace_path)) matches Ok(members) ==> (
        workspace_path == potential_path || lists_dir(members, paths::directory(potential_path)))
            && !declares(workspace, name) && (forall|i: int|
            0 <= i < members.len() ==> !declares(members[i].manifest, name)) ==> select_in_workspace(
            seen,
            workspace_path,
            workspace,
            potential_path,
            potential,
            Some(name),
        ) == Err::<(Seq<char>, Manifest), ErrorView>(
            ErrorView::PackageNotFound(workspace_path, name),
        ),
{
    match workspace.members_spec(seen, paths::directory(workspace_path)) {
        Ok(members) => {
            lemma_member_named(members, name);
            match member_named(members, name) {
                Some(member) => {
                    let i = choose|i: int| 0 <= i < members.len() && members[i] == member;
                    assert(declares(members[i].manifest, name));
                },
                None => {},
            }
        },
        Err(_) => {},
    }
}

/// Whichever way a package is selected, its descriptor declares a package.
pub proof fn lemma_selected_is_package(
    seen: Observations,
    workspace_path: Seq<char>,
    workspace: Manifest,
    potential_path: Seq<char>,
    potential: Manifest,
    name: Option<Seq<char>>,
)
    ensures
        select_in_workspace(seen, workspace_path, workspace, potential_path, potential, name) matches Ok(
            (_, chosen),
        ) ==> chosen.package is Some,
        select_alone(potential, potential_path, name) matches Ok((_, chosen)) ==> chosen.package
            is Some,
{
    lemma_members_are_packages(workspace, seen, paths::directory(workspace_path));
    match (workspace.members_spec(seen, paths::directory(workspace_path)), name) {
        (Ok(members), Some(name)) => {
            lemma_member_named(members, name);
            match member_named(members, name) {
                Some(member) => {
                    let i = choose|i: int| 0 <= i < members.len() && members[i] == member;
                    assert(is_member(members[i]));
                },
                None => {},
            }
        },
        _ => {},
    }
}

/// Outside any workspace, a request without a name yields the package that
/// the descriptor itself declares.
pub proof fn lemma_selection_alone(manifest: Manifest, path: Seq<char>)
    requires
        manifest.workspace is None,
        manifest.package is Some,
    ensures
        select_alone(manifest, path, None) == Ok::<(Seq<char>, Manifest), ErrorView>(
            (path, manifest),
        ),
{
}

/// Whether one of `members` lies in `dir`.
pub fn member_in_dir<'a>(members: &Vec<Member<'a>>, dir: &str) -> (yes: bool)
    ensures
        yes == lists_dir(members.deep_view(), dir@),
{
    let mut i: usize = 0;
    while i < members.len()
        invariant
            i <= members.len(),
            forall|k: int| 0 <= k < i ==> (#[trigger] members.deep_view()[k]).dir != dir@,
        decreases members.len() - i,
    {
        if text::equal(members[i].dir.as_str(), dir) {
            assert(members.deep_view()[i as int].dir == dir@);
            return true;
        }
        i = i + 1;
    }
    false
}

/// Whether `manifest` declares the package called `name`.
pub fn declares_package(manifest: &Manifest, name: &str) -> (yes: bool)
    ensures
        yes == declares(*manifest, name@),
{
    match &manifest.package {
        Some(package) => text::equal(package.name.as_str(), name),
        None => false,
    }
}

/// The position of the first of `members` that declares the package called
/// `name`.
pub fn find_member_named<'a>(members: &Vec<Member<'a>>, name: &str) -> (at: Option<usize>)
    ensures
        match at {
            Some(i) => i < members.len() && member_named(members.deep_view(), name@) == Some(
                members[i as int]@,
            ),
            None => member_named(members.deep_view(), name@) is None,
        },
{
    let ghost all = members.deep_view();
    let mut i: usize = 0;
    assert(all.skip(0) =~= all);
    while i < members.len()
        invariant
            i <= members.len(),
            all == members.deep_view(),
            member_named(all, name@) == member_named(all.skip(i as int), name@),
        decreases members.len() - i,
    {
        assert(all.skip(i as int)[0] == members[i as int]@);
        assert(all.skip(i as int).drop_first() =~= all.skip(i + 1));
        if declares_package(members[i].manifest, name) {
            return Some(i);
        }
        i = i + 1;
    }
    None
}

impl Manifest {
    /// This descriptor as the package that is built, where no workspace
    /// encloses it.
    pub fn map_nonvirtual_package<'a>(&'a self, manifest_path: String, name: Option<&str>) -> (chosen:
        Result<Located<'a>, Error>)
        ensures
            located(chosen) == select_alone(*self, manifest_path@, text_of(name)),
    {
        if self.workspace.is_some() {
            return Err(Error::UnexpectedWorkspace(manifest_path));
        }
        if self.package.is_none() {
            return Err(Error::NoPackageInManifest(manifest_path));
        }
        match name {
            Some(name) => {
                if declares_package(self, name) {
                    Ok((manifest_path, self))
                } else {
                    Err(Error::PackageNotFound(manifest_path, name.to_owned()))
                }
            },
            None => Ok((manifest_path, self)),
        }
    }
}

} // verus!
