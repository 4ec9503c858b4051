//! Build profiles.

use crate::error::Error;
use vstd::prelude::*;
use vstd::string::*;

verus! {

/// A named build configuration. The two built-in profiles have names and
/// output directories of their own; any other profile is its name.
#[derive(Debug, PartialEq, Eq, Hash)]
pub enum Profile {
    Dev,
    Release,
    Custom(String),
}

/// What a [`Profile`] is, with its name as a sequence of characters.
pub enum ProfileView {
    Dev,
    Release,
    Custom(Seq<char>),
}

impl ProfileView {
    /// The profile of a given name.
    pub open spec fn named(name: Seq<char>) -> ProfileView {
        if name == "dev"@ {
            ProfileView::Dev
        } else if name == "release"@ {
            ProfileView::Release
        } else {
            ProfileView::Custom(name)
        }
    }

    /// The profile's name.
    pub open spec fn name(self) -> Seq<char> {
        match self {
            ProfileView::Dev => "dev"@,
            ProfileView::Release => "release"@,
            ProfileView::Custom(name) => name,
        }
    }

    /// The directory, below the output root, that holds the profile's output.
    pub open spec fn dir_name(self) -> Seq<char> {
        match self {
            ProfileView::Dev => "debug"@,
            ProfileView::Release => "release"@,
            ProfileView::Custom(name) => name,
        }
    }
}

impl View for Profile {
    type V = ProfileView;

    open spec fn view(&self) -> ProfileView {
        match self {
            Profile::Dev => ProfileView::Dev,
            Profile::Release => ProfileView::Release,
            Profile::Custom(name) => ProfileView::Custom(name@),
        }
    }
}

impl Clone for Profile {
    fn clone(&self) -> (copy: Self)
        ensures
            copy == *self,
    {
        match self {
            Profile::Dev => Profile::Dev,
            Profile::Release => Profile::Release,
            Profile::Custom(name) => Profile::Custom(name.clone()),
        }
    }
}

impl Profile {
    /// The profile of a given name. Every name is a profile, so this never
    /// fails.
    pub fn from_str(profile: &str) -> (parsed: Result<Profile, Error>)
        ensures
            parsed matches Ok(p) && p@ == ProfileView::named(profile@),
    {
        if crate::text::equal(profile, "dev") {
            Ok(Profile::Dev)
        } else if crate::text::equal(profile, "release") {
            Ok(Profile::Release)
        } else {
            Ok(Profile::Custom(profile.to_owned()))
        }
    }

    /// The profile's name.
    pub fn to_string(&self) -> (name: String)
        ensures
            name@ == self@.name(),
    {
        match self {
            Profile::Dev => "dev".to_owned(),
            Profile::Release => "release".to_owned(),
            Profile::Custom(custom) => custom.clone(),
        }
    }

    /// The directory, below the output root, that holds the profile's output.
    pub fn as_ref(&self) -> (dir: &str)
        ensures
            dir@ == self@.dir_name(),
    {
        match self {
            Profile::Dev => "debug",
            Profile::Release => "release",
            Profile::Custom(profile) => profile.as_str(),
        }
    }
}

} // verus!
