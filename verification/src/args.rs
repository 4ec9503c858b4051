//! The options of a build request.

use crate::profile::{Profile, ProfileView};
use vstd::prelude::*;
use vstd::string::*;

verus! {

/// What a request asks for: the package, the targets within it, the
/// profile, the features, and where to look and to write.
#[derive(Debug, PartialEq, Eq)]
pub struct Args {
    /// No output printed to stdout
    pub quiet: bool,
    /// Package to build
    pub package: Vec<String>,
    /// Build all packages in the workspace
    pub workspace: bool,
    /// Exclude packages from the build
    pub exclude: Vec<String>,
    /// Build only this package's library
    pub lib: bool,
    /// Build only the specified binary
    pub bin: Vec<String>,
    /// Build all binaries
    pub bins: bool,
    /// Build only the specified example
    pub example: Vec<String>,
    /// Build all examples
    pub examples: bool,
    /// Build artifacts in release mode, with optimizations
    pub release: bool,
    /// Build artifacts with the specified profile
    pub profile: Option<Profile>,
    /// Space or comma separated list of features to activate
    pub features: Vec<String>,
    /// Activate all available features
    pub all_features: bool,
    /// Do not activate the `default` feature
    pub no_default_features: bool,
    /// Build for the target triple
    pub target: Option<String>,
    /// Directory for all generated artifacts
    pub target_dir: Option<String>,
    /// Path to Cargo.toml
    pub manifest_path: Option<String>,
}

impl Args {
    /// Whether two requests ask for the same.
    pub open spec fn same_as(self, other: Args) -> bool {
        &&& self.quiet == other.quiet
        &&& self.package@ == other.package@
        &&& self.workspace == other.workspace
        &&& self.exclude@ == other.exclude@
        &&& self.lib == other.lib
        &&& self.bin@ == other.bin@
        &&& self.bins == other.bins
        &&& self.example@ == other.example@
        &&& self.examples == other.examples
        &&& self.release == other.release
        &&& self.profile == other.profile
        &&& self.features@ == other.features@
        &&& self.all_features == other.all_features
        &&& self.no_default_features == other.no_default_features
        &&& self.target == other.target
        &&& self.target_dir == other.target_dir
        &&& self.manifest_path == other.manifest_path
    }
}

impl Clone for Args {
    fn clone(&self) -> (copy: Self)
        ensures
            copy.same_as(*self),
    {
        Args {
            quiet: self.quiet,
            package: self.package.clone(),
            workspace: self.workspace,
            exclude: self.exclude.clone(),
            lib: self.lib,
            bin: self.bin.clone(),
            bins: self.bins,
            example: self.example.clone(),
            examples: self.examples,
            release: self.release,
            profile: self.profile.clone(),
            features: self.features.clone(),
            all_features: self.all_features,
            no_default_features: self.no_default_features,
            target: self.target.clone(),
            target_dir: self.target_dir.clone(),
            manifest_path: self.manifest_path.clone(),
        }
    }
}

/// The arguments of a switch: its name where it is on, nothing where it is
/// off.
pub open spec fn switch(on: bool, name: Seq<char>) -> Seq<Seq<char>> {
    if on {
        seq![name]
    } else {
        Seq::empty()
    }
}

/// The arguments of a repeated option: for each value in order, the
/// option's name and the value.
pub open spec fn repeated(name: Seq<char>, values: Seq<String>) -> Seq<Seq<char>>
    decreases values.len(),
{
    if values.len() == 0 {
        Seq::empty()
    } else {
        repeated(name, values.drop_last()) + seq![name, values.last()@]
    }
}

/// The arguments of an option that is given at most once.
pub open spec fn single(name: Seq<char>, value: Option<Seq<char>>) -> Seq<Seq<char>> {
    match value {
        Some(value) => seq![name, value],
        None => Seq::empty(),
    }
}

/// The characters of an optional text.
pub open spec fn chars_of(text: Option<String>) -> Option<Seq<char>> {
    match text {
        Some(text) => Some(text@),
        None => None,
    }
}

impl Args {
    /// The profile that the request means: the named one, else the release
    /// profile where that is asked for, else the development profile.
    pub open spec fn chosen_profile(self) -> ProfileView {
        match self.profile {
            Some(profile) => profile@,
            None => if self.release {
                ProfileView::Release
            } else {
                ProfileView::Dev
            },
        }
    }

    /// Whether the request restricts the targets that are built.
    pub open spec fn selects_targets(self) -> bool {
        self.lib || self.bins || self.examples || self.bin.len() > 0 || self.example.len() > 0
    }

    /// The request as the arguments of a command line, in a fixed order.
    pub open spec fn arguments(self) -> Seq<Seq<char>> {
        switch(self.quiet, "--quiet"@) + repeated("--package"@, self.package@) + switch(
            self.workspace,
            "--workspace"@,
        ) + repeated("--exclude"@, self.exclude@) + switch(self.lib, "--lib"@) + repeated(
            "--bin"@,
            self.bin@,
        ) + switch(self.bins, "--bins"@) + repeated("--example"@, self.example@) + switch(
            self.examples,
            "--examples"@,
        ) + switch(self.release, "--release"@) + single(
            "--profile"@,
            match self.profile {
                Some(profile) => Some(profile@.name()),
                None => None,
            },
        ) + repeated("--features"@, self.features@) + switch(self.all_features, "--all-features"@)
            + switch(self.no_default_features, "--no-default-features"@) + single(
            "--target"@,
            chars_of(self.target),
        ) + single("--target-dir"@, chars_of(self.target_dir)) + single(
            "--manifest-path"@,
            chars_of(self.manifest_path),
        )
    }

    /// The request as the arguments of a command line.
    pub fn to_arguments(&self) -> (list: Vec<String>)
        ensures
            list.deep_view() == self.arguments(),
    {
        let mut list: Vec<String> = Vec::new();
        assert(list.deep_view() =~= Seq::<Seq<char>>::empty());
        push_switch(&mut list, self.quiet, "--quiet");
        assert(list.deep_view() =~= switch(self.quiet, "--quiet"@));
        push_repeated(&mut list, "--package", &self.package);
        push_switch(&mut list, self.workspace, "--workspace");
        push_repeated(&mut list, "--exclude", &self.exclude);
        push_switch(&mut list, self.lib, "--lib");
        push_repeated(&mut list, "--bin", &self.bin);
        push_switch(&mut list, self.bins, "--bins");
        push_repeated(&mut list, "--example", &self.example);
        push_switch(&mut list, self.examples, "--examples");
        push_switch(&mut list, self.release, "--release");
        match &self.profile {
            Some(profile) => {
                let name = profile.to_string();
                push_single(&mut list, "--profile", Some(name.as_str()));
            },
            None => {
                push_single(&mut list, "--profile", None);
            },
        }
        push_repeated(&mut list, "--features", &self.features);
        push_switch(&mut list, self.all_features, "--all-features");
        push_switch(&mut list, self.no_default_features, "--no-default-features");
        push_single(&mut list, "--target", as_text(&self.target));
        push_single(&mut list, "--target-dir", as_text(&self.target_dir));
        push_single(&mut list, "--manifest-path", as_text(&self.manifest_path));
        list
    }

    /// Appends the request to a command line, as the arguments that ask for
    /// it.
    pub fn apply(&self, cmd: &mut Vec<String>)
        ensures
            final(cmd).deep_view() == old(cmd).deep_view() + self.arguments(),
    {
        let mut list = self.to_arguments();
        cmd.append(&mut list);
        assert(cmd.deep_view() =~= old(cmd).deep_view() + self.arguments());
    }

    /// The profile that the request means.
    pub fn profile(&self) -> (profile: Profile)
        ensures
            profile@ == self.chosen_profile(),
    {
        if let Some(profile) = self.profile.as_ref() {
            profile.clone()
        } else if self.release {
            Profile::Release
        } else {
            Profile::Dev
        }
    }

    /// Whether the request restricts the targets that are built.
    pub fn specific_target_selected(&self) -> (yes: bool)
        ensures
            yes == self.selects_targets(),
    {
        self.lib || self.bins || self.examples || self.bin.len() > 0 || self.example.len() > 0
    }
}

/// An optional text, borrowed.
pub fn as_text(text: &Option<String>) -> (borrowed: Option<&str>)
    ensures
        match borrowed {
            Some(b) => chars_of(*text) == Some(b@),
            None => chars_of(*text) is None,
        },
{
    match text {
        Some(text) => Some(text.as_str()),
        None => None,
    }
}

fn push_text(cmd: &mut Vec<String>, text: &str)
    ensures
        final(cmd).deep_view() == old(cmd).deep_view().push(text@),
{
    cmd.push(text.to_owned());
    assert(cmd.deep_view() =~= old(cmd).deep_view().push(text@));
}

fn push_switch(cmd: &mut Vec<String>, on: bool, name: &str)
    ensures
        final(cmd).deep_view() == old(cmd).deep_view() + switch(on, name@),
{
    if on {
        push_text(cmd, name);
    }
    assert(cmd.deep_view() =~= old(cmd).deep_view() + switch(on, name@));
}

fn push_single(cmd: &mut Vec<String>, name: &str, value: Option<&str>)
    ensures
        final(cmd).deep_view() == old(cmd).deep_view() + single(
            name@,
            match value {
                Some(v) => Some(v@),
                None => None,
            },
        ),
{
    match value {
        Some(value) => {
            push_text(cmd, name);
            push_text(cmd, value);
            assert(cmd.deep_view() =~= old(cmd).deep_view() + seq![name@, value@]);
        },
        None => {
            assert(cmd.deep_view() =~= old(cmd).deep_view() + Seq::<Seq<char>>::empty());
        },
    }
}

fn push_repeated(cmd: &mut Vec<String>, name: &str, values: &Vec<String>)
    ensures
        final(cmd).deep_view() == old(cmd).deep_view() + repeated(name@, values@),
{
    let ghost start = cmd.deep_view();
    let mut i: usize = 0;
    assert(cmd.deep_view() =~= start + repeated(name@, values@.subrange(0, 0)));
    while i < values.len()
        invariant
            i <= values.len(),
            cmd.deep_view() == start + repeated(name@, values@.subrange(0, i as int)),
        decreases values.len() - i,
    {
        let ghost before = cmd.deep_view();
        push_text(cmd, name);
        push_text(cmd, values[i].as_str());
        proof {
            let done = values@.subrange(0, i + 1);
            assert(done.drop_last() =~= values@.subrange(0, i as int));
            assert(done.last() == values@[i as int]);
            assert(cmd.deep_view() =~= start + repeated(name@, done));
        }
        i = i + 1;
    }
    assert(values@.subrange(0, i as int) =~= values@);
}

} // verus!
