//! The settings file `.cargo/config.toml`: the table of environment
//! variables that it sets, and how its entries and those of the process
//! environment take precedence over each other.

use crate::error::{Error, ErrorView};
use crate::observe::{Loaded, Observations, Query, QueryView, Table};
use crate::paths;
use vstd::prelude::*;
use vstd::string::*;

verus! {

/// Why the value of an environment variable could not be resolved.
#[derive(Debug, PartialEq, Eq)]
pub enum EnvError {
    /// The path could not be made canonical; the second text says why.
    Io(String, String),
    /// Neither the settings nor the environment hold the variable.
    NotPresent(String),
    /// An answer that the resolution needs was not recorded.
    Unobserved(Query),
}

/// What an [`EnvError`] is, with its texts as sequences of characters.
pub enum EnvErrorView {
    Io(Seq<char>, Seq<char>),
    NotPresent(Seq<char>),
    Unobserved(QueryView),
}

impl View for EnvError {
    type V = EnvErrorView;

    open spec fn view(&self) -> EnvErrorView {
        match self {
            EnvError::Io(path, message) => EnvErrorView::Io(path@, message@),
            EnvError::NotPresent(key) => EnvErrorView::NotPresent(key@),
            EnvError::Unobserved(query) => EnvErrorView::Unobserved(query@),
        }
    }
}

impl EnvErrorView {
    /// The failure in words.
    pub open spec fn message(self) -> Seq<char> {
        match self {
            EnvErrorView::Io(path, message) => path + ": "@ + message,
            EnvErrorView::NotPresent(_) => "environment variable not found"@,
            EnvErrorView::Unobserved(query) => "unanswered: "@ + query.question(),
        }
    }
}

impl EnvError {
    /// The failure in words.
    pub fn to_string(&self) -> (words: String)
        ensures
            words@ == self@.message(),
    {
        match self {
            EnvError::Io(path, message) => crate::observe::between(
                path.as_str(),
                ": ",
                message.as_str(),
            ),
            EnvError::NotPresent(_) => "environment variable not found".to_owned(),
            EnvError::Unobserved(query) => {
                let question = query.to_string();
                crate::text::concat("unanswered: ", question.as_str())
            },
        }
    }
}

/// The build section of the settings.
#[derive(Debug, PartialEq)]
pub struct Build {
    pub target_dir: Option<String>,
}

/// What the settings say of one environment variable: a plain value, or a
/// value with its two switches.
#[derive(Debug, PartialEq)]
pub enum EnvOption {
    String(String),
    Value { value: String, force: bool, relative: bool },
}

/// One entry of the settings' table of environment variables.
#[derive(Debug, PartialEq)]
pub struct EnvEntry {
    pub name: String,
    pub option: EnvOption,
}

/// The parsed settings. The entries of `env` stand in the order in which
/// they are applied. A table holds each key once: settings that the library
/// reads are refused where two entries set one variable, and what is proved
/// of lookup and propagation together is proved of settings with distinct
/// names.
#[derive(Debug, PartialEq)]
pub struct Config {
    pub build: Option<Build>,
    pub env: Option<Vec<EnvEntry>>,
}

/// What a [`Config`] holds.
pub struct ConfigView {
    pub build: Option<Build>,
    pub env: Option<Seq<EnvEntry>>,
}

impl View for Config {
    type V = ConfigView;

    open spec fn view(&self) -> ConfigView {
        ConfigView {
            build: self.build,
            env: match self.env {
                Some(entries) => Some(entries@),
                None => None,
            },
        }
    }
}

/// The settings together with the directory that holds `.cargo/config.toml`.
#[derive(Debug, PartialEq)]
pub struct LocalizedConfig {
    pub config: Config,
    pub workspace: String,
}

/// What a [`LocalizedConfig`] holds.
pub struct LocalizedConfigView {
    pub config: ConfigView,
    pub workspace: Seq<char>,
}

impl View for LocalizedConfig {
    type V = LocalizedConfigView;

    open spec fn view(&self) -> LocalizedConfigView {
        LocalizedConfigView { config: self.config@, workspace: self.workspace@ }
    }
}

impl Clone for Build {
    fn clone(&self) -> (copy: Self)
        ensures
            copy == *self,
    {
        Build { target_dir: self.target_dir.clone() }
    }
}

impl Clone for EnvOption {
    fn clone(&self) -> (copy: Self)
        ensures
            copy == *self,
    {
        match self {
            EnvOption::String(value) => EnvOption::String(value.clone()),
            EnvOption::Value { value, force, relative } => EnvOption::Value {
                value: value.clone(),
                force: *force,
                relative: *relative,
            },
        }
    }
}

impl Clone for EnvEntry {
    fn clone(&self) -> (copy: Self)
        ensures
            copy == *self,
    {
        EnvEntry { name: self.name.clone(), option: self.option.clone() }
    }
}

impl Clone for Config {
    fn clone(&self) -> (copy: Self)
        ensures
            copy@ == self@,
    {
        let build = match &self.build {
            Some(build) => Some(build.clone()),
            None => None,
        };
        let env = match &self.env {
            Some(entries) => {
                let mut copied: Vec<EnvEntry> = Vec::new();
                let mut i: usize = 0;
                while i < entries.len()
                    invariant
                        i <= entries.len(),
                        copied@ == entries@.subrange(0, i as int),
                    decreases entries.len() - i,
                {
                    copied.push(entries[i].clone());
                    assert(copied@ =~= entries@.subrange(0, i + 1));
                    i = i + 1;
                }
                assert(entries@.subrange(0, i as int) =~= entries@);
                Some(copied)
            },
            None => None,
        };
        Config { build, env }
    }
}

impl Clone for LocalizedConfig {
    fn clone(&self) -> (copy: Self)
        ensures
            copy@ == self@,
    {
        LocalizedConfig { config: self.config.clone(), workspace: self.workspace.clone() }
    }
}

/// The variables of a process: an explicit store from names to values, in
/// place of the environment of the running process. A driver fills it from
/// the real environment and writes it back.
#[derive(Debug)]
pub struct Environment {
    pub vars: Table<String>,
}

impl View for Environment {
    type V = Map<Seq<char>, Seq<char>>;

    open spec fn view(&self) -> Map<Seq<char>, Seq<char>> {
        Map::new(|key: Seq<char>| self.vars.get(key) is Some, |key: Seq<char>| self.vars.get(key)->0@)
    }
}

impl Environment {
    /// An environment without variables.
    pub fn new() -> (env: Self)
        ensures
            env@ == Map::<Seq<char>, Seq<char>>::empty(),
    {
        let env = Environment { vars: Table::new() };
        assert(env@ =~= Map::<Seq<char>, Seq<char>>::empty());
        env
    }

    /// The value of the variable `key`, if it is set.
    pub fn var(&self, key: &str) -> (value: Option<&String>)
        ensures
            match value {
                Some(text) => self@.contains_key(key@) && self@[key@] == text@,
                None => !self@.contains_key(key@),
            },
    {
        self.vars.find(key)
    }

    /// Sets the variable `key` to `value`.
    pub fn set_var(&mut self, key: String, value: String)
        ensures
            final(self)@ == old(self)@.insert(key@, value@),
    {
        self.vars.put(key, value);
        assert forall|k: Seq<char>| #[trigger] self@.contains_key(k) == old(self)@.insert(
            key@,
            value@,
        ).contains_key(k) by {
            let _ = self.vars.get(k);
        }
        assert forall|k: Seq<char>| #[trigger] self@.contains_key(k) implies self@[k] == old(
            self,
        )@.insert(key@, value@)[k] by {
            let _ = self.vars.get(k);
        }
        assert(self@ =~= old(self)@.insert(key@, value@));
    }
}

/// The settings file of the directory `dir`.
pub open spec fn config_in(dir: Seq<char>) -> Seq<char> {
    paths::join(dir, ".cargo/config.toml"@)
}

/// Whether an entry is set even where the environment holds the variable.
pub open spec fn is_forced(option: EnvOption) -> bool {
    option matches EnvOption::Value { force: true, .. }
}

/// The value that an entry of the settings gives. A relative entry is a
/// path from the directory that holds the settings, and its value is that
/// path made canonical: where that fails, the entry has no value. Any other
/// entry gives its text as it stands.
pub open spec fn resolved_value(option: EnvOption, config_parent: Seq<char>, seen: Observations) -> Result<
    Seq<char>,
    EnvErrorView,
> {
    match option {
        EnvOption::Value { value, relative: true, .. } => {
            let path = paths::join(config_parent, value@);
            match seen.canonical.get(path) {
                None => Err(EnvErrorView::Unobserved(QueryView::Canonical(path))),
                Some(Ok(resolved)) => Ok(resolved@),
                Some(Err(message)) => Err(EnvErrorView::Io(path, message@)),
            }
        },
        EnvOption::Value { value, .. } => Ok(value@),
        EnvOption::String(value) => Ok(value@),
    }
}

/// What the entries say of the variable `key`: the first entry of that name.
pub open spec fn entry_for(entries: Seq<EnvEntry>, key: Seq<char>) -> Option<EnvOption>
    decreases entries.len(),
{
    if entries.len() == 0 {
        None
    } else if entries[0].name@ == key {
        Some(entries[0].option)
    } else {
        entry_for(entries.drop_first(), key)
    }
}

/// Whether no two entries set the same variable.
pub open spec fn distinct_names(entries: Seq<EnvEntry>) -> bool {
    forall|i: int, j: int|
        0 <= i < j < entries.len() ==> (#[trigger] entries[i]).name@ != (#[trigger] entries[j]).name@
}

/// The environment after the entries were applied to `env` in order, and
/// the failure that ended the run, if one did. An entry is applied where it
/// is forced or the environment does not hold its variable; the failure of
/// an entry that is applied ends the run and leaves the rest untouched.
pub open spec fn applied(
    entries: Seq<EnvEntry>,
    config_parent: Seq<char>,
    seen: Observations,
    env: Map<Seq<char>, Seq<char>>,
) -> (Map<Seq<char>, Seq<char>>, Option<EnvErrorView>)
    decreases entries.len(),
{
    if entries.len() == 0 {
        (env, None)
    } else if !is_forced(entries[0].option) && env.contains_key(entries[0].name@) {
        applied(entries.drop_first(), config_parent, seen, env)
    } else {
        match resolved_value(entries[0].option, config_parent, seen) {
            Err(error) => (env, Some(error)),
            Ok(value) => applied(
                entries.drop_first(),
                config_parent,
                seen,
                env.insert(entries[0].name@, value),
            ),
        }
    }
}

impl ConfigView {
    /// The entries of the table of environment variables; none where the
    /// settings have no such table.
    pub open spec fn entries(self) -> Seq<EnvEntry> {
        match self.env {
            Some(entries) => entries,
            None => Seq::empty(),
        }
    }
}

impl LocalizedConfigView {
    /// The value of the variable `key`. A forced entry of the settings
    /// comes first, then the environment, then any other entry of the
    /// settings; a variable that none of them holds is not present.
    pub open spec fn resolved_env(
        self,
        env: Map<Seq<char>, Seq<char>>,
        key: Seq<char>,
        seen: Observations,
    ) -> Result<Seq<char>, EnvErrorView> {
        match entry_for(self.config.entries(), key) {
            Some(option) if is_forced(option) => resolved_value(option, self.workspace, seen),
            _ if env.contains_key(key) => Ok(env[key]),
            Some(option) => resolved_value(option, self.workspace, seen),
            None => Err(EnvErrorView::NotPresent(key)),
        }
    }
}

impl Config {
    /// The settings read from `path`. A file that is not there is a failure
    /// like any other file that cannot be read, with the text that the
    /// attempt to read it gave. Settings that set a variable twice make no
    /// sense: a table holds each key once.
    pub open spec fn parsed(seen: Observations, path: Seq<char>) -> Result<ConfigView, ErrorView> {
        match seen.configs.get(path) {
            None => Err(ErrorView::Unobserved(QueryView::Config(path))),
            Some(Loaded::Missing(message)) => Err(ErrorView::Io(path, message@)),
            Some(Loaded::Found(config)) => if distinct_names(config@.entries()) {
                Ok(config@)
            } else {
                Err(ErrorView::Toml(path, "duplicate key in table `env`"@))
            },
            Some(Loaded::Unreadable(message)) => Err(ErrorView::Io(path, message@)),
            Some(Loaded::Malformed(message)) => Err(ErrorView::Toml(path, message@)),
        }
    }

    /// Whether no two entries of the settings set the same variable.
    pub fn has_distinct_names(&self) -> (yes: bool)
        ensures
            yes == distinct_names(self@.entries()),
    {
        let entries = match &self.env {
            Some(entries) => entries,
            None => return true,
        };
        let mut j: usize = 0;
        while j < entries.len()
            invariant
                j <= entries.len(),
                self@.entries() == entries@,
                forall|a: int, b: int|
                    0 <= a < b < j ==> (#[trigger] entries@[a]).name@ != (#[trigger] entries@[b]).name@,
            decreases entries.len() - j,
        {
            let mut i: usize = 0;
            while i < j
                invariant
                    i <= j < entries.len(),
                    self@.entries() == entries@,
                    forall|a: int| 0 <= a < i ==> (#[trigger] entries@[a]).name@ != entries@[j as int].name@,
                decreases j - i,
            {
                if crate::text::equal(entries[i].name.as_str(), entries[j].name.as_str()) {
                    assert(entries@[i as int].name@ == entries@[j as int].name@);
                    return false;
                }
                i = i + 1;
            }
            j = j + 1;
        }
        true
    }

    /// Reads the settings at `path`.
    pub fn parse_from_toml(path: &str, seen: &Observations) -> (read: Result<Config, Error>)
        ensures
            match read {
                Ok(config) => Self::parsed(*seen, path@) == Ok::<ConfigView, ErrorView>(config@),
                Err(error) => Self::parsed(*seen, path@) == Err::<ConfigView, ErrorView>(error@),
            },
            read matches Ok(config) ==> distinct_names(config@.entries()),
    {
        match seen.configs.find(path) {
            None => Err(Error::Unobserved(Query::Config(path.to_owned()))),
            Some(Loaded::Missing(message)) => Err(Error::Io(path.to_owned(), message.clone())),
            Some(Loaded::Found(config)) => {
                if config.has_distinct_names() {
                    Ok(config.clone())
                } else {
                    Err(Error::Toml(path.to_owned(), "duplicate key in table `env`".to_owned()))
                }
            },
            Some(Loaded::Unreadable(message)) => Err(Error::Io(path.to_owned(), message.clone())),
            Some(Loaded::Malformed(message)) => Err(Error::Toml(path.to_owned(), message.clone())),
        }
    }
}

impl EnvOption {
    /// Whether the entry is set even where the environment holds the
    /// variable.
    pub fn forced(&self) -> (yes: bool)
        ensures
            yes == is_forced(*self),
    {
        match self {
            EnvOption::Value { force, .. } => *force,
            EnvOption::String(_) => false,
        }
    }

    /// The entry's value, made canonical from `config_parent` where the
    /// entry is relative. `config_parent` is the directory that holds the
    /// `.cargo/config.toml` which the entry was read from.
    pub fn resolve_value(&self, config_parent: &str, seen: &Observations) -> (value: Result<
        String,
        EnvError,
    >)
        ensures
            match value {
                Ok(text) => resolved_value(*self, config_parent@, *seen) == Ok::<
                    Seq<char>,
                    EnvErrorView,
                >(text@),
                Err(error) => resolved_value(*self, config_parent@, *seen) == Err::<
                    Seq<char>,
                    EnvErrorView,
                >(error@),
            },
    {
        match self {
            EnvOption::Value { value, relative, .. } => {
                if *relative {
                    let path = paths::join_path(config_parent, value.as_str());
                    match seen.canonical.find(path.as_str()) {
                        None => Err(EnvError::Unobserved(Query::Canonical(path))),
                        Some(Ok(resolved)) => Ok(resolved.clone()),
                        Some(Err(message)) => Err(EnvError::Io(path, message.clone())),
                    }
                } else {
                    Ok(value.clone())
                }
            },
            EnvOption::String(value) => Ok(value.clone()),
        }
    }
}

/// The nearest directory at or above `dir` that holds a settings file.
pub open spec fn nearest_config_dir(seen: Observations, dir: Seq<char>) -> Result<
    Option<Seq<char>>,
    ErrorView,
>
    decreases dir.len(),
{
    let path = config_in(dir);
    match seen.files.get(path) {
        None => Err(ErrorView::Unobserved(QueryView::IsFile(path))),
        Some(true) => Ok(Some(dir)),
        Some(false) => match paths::parent(dir) {
            Some(up) => {
                proof {
                    paths::lemma_parent_shorter(dir);
                }
                nearest_config_dir(seen, up)
            },
            None => Ok(None),
        },
    }
}

/// The nearest settings file is the first one walking outward. Where the
/// search from `dir` finds a directory, it is `dir` or a directory above
/// it that holds a settings file, and no directory before it holds one;
/// where it finds none, no directory up to the root holds one.
pub proof fn lemma_nearest_config_dir(seen: Observations, dir: Seq<char>)
    ensures
        match nearest_config_dir(seen, dir) {
            Ok(Some(found)) => exists|at: int|
                0 <= at < paths::ancestors(dir).len() && found == #[trigger] paths::ancestors(
                    dir,
                )[at] && seen.files.get(config_in(found)) == Some(true) && forall|j: int|
                    0 <= j < at ==> seen.files.get(
                        config_in(#[trigger] paths::ancestors(dir)[j]),
                    ) == Some(false),
            Ok(None) => forall|j: int|
                0 <= j < paths::ancestors(dir).len() ==> seen.files.get(
                    config_in(#[trigger] paths::ancestors(dir)[j]),
                ) == Some(false),
            Err(_) => true,
        },
    decreases dir.len(),
{
    let dirs = paths::ancestors(dir);
    if seen.files.get(config_in(dir)) == Some(false) {
        match paths::parent(dir) {
            Some(up) => {
                paths::lemma_parent_shorter(dir);
                lemma_nearest_config_dir(seen, up);
                let above = paths::ancestors(up);
                assert forall|j: int| 0 <= j < above.len() implies dirs[j + 1] == above[j] by {}
                match nearest_config_dir(seen, up) {
                    Ok(Some(found)) => {
                        let at = choose|at: int|
                            0 <= at < above.len() && found == #[trigger] above[at]
                                && seen.files.get(config_in(found)) == Some(true) && forall|j: int|
                                0 <= j < at ==> seen.files.get(config_in(#[trigger] above[j]))
                                    == Some(false);
                        assert(dirs[at + 1] == above[at]);
                        assert forall|j: int| 0 <= j < at + 1 implies seen.files.get(
                            config_in(#[trigger] dirs[j]),
                        ) == Some(false) by {
                            if j > 0 {
                                assert(dirs[j] == above[j - 1]);
                            }
                        }
                    },
                    Ok(None) => {
                        assert forall|j: int| 0 <= j < dirs.len() implies seen.files.get(
                            config_in(#[trigger] dirs[j]),
                        ) == Some(false) by {
                            if j > 0 {
                                assert(dirs[j] == above[j - 1]);
                            }
                        }
                    },
                    Err(_) => {},
                }
            },
            None => {},
        }
    } else {
        assert(dirs[0] == dir);
    }
}

/// The directory whose settings govern `workspace`: the nearest directory
/// at or above the canonical form of `workspace` that holds a settings file.
pub open spec fn config_parent(seen: Observations, workspace: Seq<char>) -> Result<
    Option<Seq<char>>,
    ErrorView,
> {
    match seen.canonical.get(workspace) {
        None => Err(ErrorView::Unobserved(QueryView::Canonical(workspace))),
        Some(Err(message)) => Err(ErrorView::Io(workspace, message@)),
        Some(Ok(start)) => nearest_config_dir(seen, start@),
    }
}

/// The settings of the directory `dir`.
pub open spec fn localized(seen: Observations, dir: Seq<char>) -> Result<
    LocalizedConfigView,
    ErrorView,
> {
    match Config::parsed(seen, config_in(dir)) {
        Ok(config) => Ok(LocalizedConfigView { config, workspace: dir }),
        Err(error) => Err(error),
    }
}

/// The settings that govern `workspace`, if any directory at or above it
/// holds a settings file.
pub open spec fn config_for_workspace(seen: Observations, workspace: Seq<char>) -> Result<
    Option<LocalizedConfigView>,
    ErrorView,
> {
    match config_parent(seen, workspace) {
        Err(error) => Err(error),
        Ok(None) => Ok(None),
        Ok(Some(dir)) => match localized(seen, dir) {
            Ok(config) => Ok(Some(config)),
            Err(error) => Err(error),
        },
    }
}

/// What an optional [`LocalizedConfig`] holds.
pub open spec fn config_view(config: Option<LocalizedConfig>) -> Option<LocalizedConfigView> {
    match config {
        Some(config) => Some(config@),
        None => None,
    }
}

impl LocalizedConfig {
    /// Reads the settings of the directory `workspace`.
    pub fn new(workspace: String, seen: &Observations) -> (read: Result<Self, Error>)
        ensures
            match read {
                Ok(config) => localized(*seen, workspace@) == Ok::<LocalizedConfigView, ErrorView>(
                    config@,
                ),
                Err(error) => localized(*seen, workspace@) == Err::<LocalizedConfigView, ErrorView>(
                    error@,
                ),
            },
            read matches Ok(config) ==> distinct_names(config@.config.entries()),
    {
        let path = paths::join_path(workspace.as_str(), ".cargo/config.toml");
        match Config::parse_from_toml(path.as_str(), seen) {
            Ok(config) => Ok(LocalizedConfig { config, workspace }),
            Err(error) => Err(error),
        }
    }

    /// Searches for `.cargo/config.toml` in the workspace root and every
    /// directory above it. Returns the directory that holds `.cargo`, not
    /// the path of the settings file.
    pub fn find_cargo_config_parent(workspace: &str, seen: &Observations) -> (found: Result<
        Option<String>,
        Error,
    >)
        ensures
            match found {
                Ok(Some(dir)) => config_parent(*seen, workspace@) == Ok::<
                    Option<Seq<char>>,
                    ErrorView,
                >(Some(dir@)),
                Ok(None) => config_parent(*seen, workspace@) == Ok::<Option<Seq<char>>, ErrorView>(
                    None,
                ),
                Err(error) => config_parent(*seen, workspace@) == Err::<
                    Option<Seq<char>>,
                    ErrorView,
                >(error@),
            },
    {
        let mut dir = match seen.canonical.find(workspace) {
            None => return Err(Error::Unobserved(Query::Canonical(workspace.to_owned()))),
            Some(Err(message)) => return Err(Error::Io(workspace.to_owned(), message.clone())),
            Some(Ok(start)) => start.clone(),
        };
        loop
            invariant
                nearest_config_dir(*seen, dir@) == config_parent(*seen, workspace@),
            decreases dir@.len(),
        {
            let candidate = paths::join_path(dir.as_str(), ".cargo/config.toml");
            match seen.files.find(candidate.as_str()) {
                None => {
                    return Err(Error::Unobserved(Query::IsFile(candidate)));
                },
                Some(is_file) => {
                    if *is_file {
                        return Ok(Some(dir));
                    }
                },
            }
            match paths::parent_of(dir.as_str()) {
                Some(up) => {
                    proof {
                        paths::lemma_parent_shorter(dir@);
                    }
                    dir = up;
                },
                None => {
                    return Ok(None);
                },
            }
        }
    }

    /// Searches for `.cargo/config.toml` in the workspace root and every
    /// directory above it, and reads the first one found.
    pub fn find_cargo_config_for_workspace(workspace: &str, seen: &Observations) -> (found: Result<
        Option<Self>,
        Error,
    >)
        ensures
            match found {
                Ok(config) => config_for_workspace(*seen, workspace@) == Ok::<
                    Option<LocalizedConfigView>,
                    ErrorView,
                >(config_view(config)),
                Err(error) => config_for_workspace(*seen, workspace@) == Err::<
                    Option<LocalizedConfigView>,
                    ErrorView,
                >(error@),
            },
            found matches Ok(Some(config)) ==> distinct_names(config@.config.entries()),
    {
        match Self::find_cargo_config_parent(workspace, seen) {
            Err(error) => Err(error),
            Ok(None) => Ok(None),
            Ok(Some(dir)) => match LocalizedConfig::new(dir, seen) {
                Ok(config) => Ok(Some(config)),
                Err(error) => Err(error),
            },
        }
    }

    /// What the settings say of the variable `key`.
    pub fn entry(&self, key: &str) -> (found: Option<&EnvOption>)
        ensures
            match found {
                Some(option) => entry_for(self@.config.entries(), key@) == Some(*option),
                None => entry_for(self@.config.entries(), key@) is None,
            },
    {
        let entries = match &self.config.env {
            Some(entries) => entries,
            None => return None,
        };
        let mut i: usize = 0;
        assert(entries@.skip(0) =~= entries@);
        while i < entries.len()
            invariant
                i <= entries.len(),
                self@.config.entries() == entries@,
                entry_for(entries@, key@) == entry_for(entries@.skip(i as int), key@),
            decreases entries.len() - i,
        {
            assert(entries@.skip(i as int)[0] == entries@[i as int]);
            assert(entries@.skip(i as int).drop_first() =~= entries@.skip(i + 1));
            if crate::text::equal(entries[i].name.as_str(), key) {
                return Some(&entries[i].option);
            }
            i = i + 1;
        }
        None
    }

    /// The value of the variable `key`, from the settings or from the
    /// environment, whichever takes precedence.
    pub fn resolve_env(&self, key: &str, env: &Environment, seen: &Observations) -> (value: Result<
        String,
        EnvError,
    >)
        ensures
            match value {
                Ok(text) => self@.resolved_env(env@, key@, *seen) == Ok::<Seq<char>, EnvErrorView>(
                    text@,
                ),
                Err(error) => self@.resolved_env(env@, key@, *seen) == Err::<
                    Seq<char>,
                    EnvErrorView,
                >(error@),
            },
    {
        let setting = self.entry(key);
        if let Some(option) = setting {
            if option.forced() {
                return option.resolve_value(self.workspace.as_str(), seen);
            }
        }
        if let Some(value) = env.var(key) {
            return Ok(value.clone());
        }
        match setting {
            Some(option) => option.resolve_value(self.workspace.as_str(), seen),
            None => Err(EnvError::NotPresent(key.to_owned())),
        }
    }

    /// Carries the variables of the settings over to `env`. A variable that
    /// `env` holds keeps its value unless the settings force theirs.
    pub fn set_env_vars(&self, env: &mut Environment, seen: &Observations) -> (done: Result<
        (),
        EnvError,
    >)
        ensures
            final(env)@ == applied(self@.config.entries(), self.workspace@, *seen, old(env)@).0,
            match done {
                Ok(_) => applied(self@.config.entries(), self.workspace@, *seen, old(env)@).1
                    is None,
                Err(error) => applied(self@.config.entries(), self.workspace@, *seen, old(env)@).1
                    == Some(error@),
            },
    {
        let entries = match &self.config.env {
            Some(entries) => entries,
            None => return Ok(()),
        };
        let ghost goal = applied(entries@, self.workspace@, *seen, old(env)@);
        let mut i: usize = 0;
        assert(entries@.skip(0) =~= entries@);
        while i < entries.len()
            invariant
                i <= entries.len(),
                goal == applied(self@.config.entries(), self.workspace@, *seen, old(env)@),
                goal == applied(entries@.skip(i as int), self.workspace@, *seen, env@),
            decreases entries.len() - i,
        {
            assert(entries@.skip(i as int)[0] == entries@[i as int]);
            assert(entries@.skip(i as int).drop_first() =~= entries@.skip(i + 1));
            let entry = &entries[i];
            if entry.option.forced() || env.var(entry.name.as_str()).is_none() {
                match entry.option.resolve_value(self.workspace.as_str(), seen) {
                    Ok(value) => env.set_var(entry.name.clone(), value),
                    Err(error) => return Err(error),
                }
            }
            i = i + 1;
        }
        Ok(())
    }
}

/// Applying entries never removes a variable.
pub proof fn lemma_applied_grows(
    entries: Seq<EnvEntry>,
    config_parent: Seq<char>,
    seen: Observations,
    env: Map<Seq<char>, Seq<char>>,
    key: Seq<char>,
)
    requires
        env.contains_key(key),
    ensures
        applied(entries, config_parent, seen, env).0.contains_key(key),
    decreases entries.len(),
{
    if entries.len() > 0 {
        let rest = entries.drop_first();
        if !is_forced(entries[0].option) && env.contains_key(entries[0].name@) {
            lemma_applied_grows(rest, config_parent, seen, env, key);
        } else {
            match resolved_value(entries[0].option, config_parent, seen) {
                Err(_) => {},
                Ok(value) => {
                    lemma_applied_grows(
                        rest,
                        config_parent,
                        seen,
                        env.insert(entries[0].name@, value),
                        key,
                    );
                },
            }
        }
    }
}

/// Applying entries leaves every variable alone that none of them names.
pub proof fn lemma_applied_keeps_others(
    entries: Seq<EnvEntry>,
    config_parent: Seq<char>,
    seen: Observations,
    env: Map<Seq<char>, Seq<char>>,
    key: Seq<char>,
)
    requires
        forall|i: int| 0 <= i < entries.len() ==> (#[trigger] entries[i]).name@ != key,
    ensures
        applied(entries, config_parent, seen, env).0.contains_key(key) == env.contains_key(key),
        env.contains_key(key) ==> applied(entries, config_parent, seen, env).0[key] == env[key],
    decreases entries.len(),
{
    if entries.len() > 0 {
        let rest = entries.drop_first();
        assert forall|i: int| 0 <= i < rest.len() implies (#[trigger] rest[i]).name@ != key by {
            assert(rest[i] == entries[i + 1]);
        }
        assert(entries[0].name@ != key);
        if !is_forced(entries[0].option) && env.contains_key(entries[0].name@) {
            lemma_applied_keeps_others(rest, config_parent, seen, env, key);
        } else {
            match resolved_value(entries[0].option, config_parent, seen) {
                Err(_) => {},
                Ok(value) => {
                    lemma_applied_keeps_others(
                        rest,
                        config_parent,
                        seen,
                        env.insert(entries[0].name@, value),
                        key,
                    );
                },
            }
        }
    }
}

/// Entries with distinct names keep them distinct when the first is taken
/// away, and none of the others carries the first one's name.
pub proof fn lemma_distinct_rest(entries: Seq<EnvEntry>)
    requires
        distinct_names(entries),
        entries.len() > 0,
    ensures
        distinct_names(entries.drop_first()),
        forall|i: int|
            0 <= i < entries.drop_first().len() ==> (#[trigger] entries.drop_first()[i]).name@
                != entries[0].name@,
{
    let rest = entries.drop_first();
    assert forall|i: int, j: int| 0 <= i < j < rest.len() implies (#[trigger] rest[i]).name@ != (
    #[trigger] rest[j]).name@ by {
        assert(rest[i] == entries[i + 1]);
        assert(rest[j] == entries[j + 1]);
    }
    assert forall|i: int| 0 <= i < rest.len() implies (#[trigger] rest[i]).name@
        != entries[0].name@ by {
        assert(rest[i] == entries[i + 1]);
    }
}

/// Where no two entries share a name, the entry found for a name is the
/// one entry that carries it.
pub proof fn lemma_entry_for(entries: Seq<EnvEntry>, at: int)
    requires
        distinct_names(entries),
        0 <= at < entries.len(),
    ensures
        entry_for(entries, entries[at].name@) == Some(entries[at].option),
    decreases entries.len(),
{
    if at > 0 {
        lemma_distinct_rest(entries);
        let rest = entries.drop_first();
        assert(rest[at - 1] == entries[at]);
        lemma_entry_for(rest, at - 1);
    }
}

/// Propagation is idempotent. Applying the entries to the environment that
/// a first application left changes nothing and ends as the first did: a
/// variable that an unforced entry set, or that the environment held, keeps
/// its value, and a forced entry sets its value again.
pub proof fn lemma_applied_idempotent(
    entries: Seq<EnvEntry>,
    config_parent: Seq<char>,
    seen: Observations,
    env: Map<Seq<char>, Seq<char>>,
)
    requires
        distinct_names(entries),
    ensures
        applied(
            entries,
            config_parent,
            seen,
            applied(entries, config_parent, seen, env).0,
        ) == applied(entries, config_parent, seen, env),
    decreases entries.len(),
{
    if entries.len() > 0 {
        let rest = entries.drop_first();
        let key = entries[0].name@;
        lemma_distinct_rest(entries);
        if !is_forced(entries[0].option) && env.contains_key(key) {
            lemma_applied_idempotent(rest, config_parent, seen, env);
            lemma_applied_grows(rest, config_parent, seen, env, key);
        } else {
            match resolved_value(entries[0].option, config_parent, seen) {
                Err(_) => {},
                Ok(value) => {
                    let set = env.insert(key, value);
                    let after = applied(rest, config_parent, seen, set).0;
                    lemma_applied_idempotent(rest, config_parent, seen, set);
                    lemma_applied_keeps_others(rest, config_parent, seen, set, key);
                    assert(after.insert(key, value) =~= after);
                },
            }
        }
    }
}

/// Propagation and lookup agree. After the entries were applied without
/// failure, each variable that they name holds what a lookup of it gave
/// before: the value of a forced entry, else the value that the
/// environment held, else the value of the entry.
pub proof fn lemma_applied_is_resolved(
    config: LocalizedConfigView,
    seen: Observations,
    env: Map<Seq<char>, Seq<char>>,
    at: int,
)
    requires
        distinct_names(config.config.entries()),
        0 <= at < config.config.entries().len(),
        applied(config.config.entries(), config.workspace, seen, env).1 is None,
    ensures
        ({
            let key = config.config.entries()[at].name@;
            let after = applied(config.config.entries(), config.workspace, seen, env).0;
            after.contains_key(key) && config.resolved_env(env, key, seen) == Ok::<
                Seq<char>,
                EnvErrorView,
            >(after[key])
        }),
{
    let entries = config.config.entries();
    lemma_entry_for(entries, at);
    lemma_applied_entry(entries, config.workspace, seen, env, at);
}

/// The value that applying the entries leaves in the variable of one of
/// them: that of the environment where it held the variable and the entry
/// is not forced, and the entry's own anywhere else.
pub proof fn lemma_applied_entry(
    entries: Seq<EnvEntry>,
    config_parent: Seq<char>,
    seen: Observations,
    env: Map<Seq<char>, Seq<char>>,
    at: int,
)
    requires
        distinct_names(entries),
        0 <= at < entries.len(),
        applied(entries, config_parent, seen, env).1 is None,
    ensures
        ({
            let key = entries[at].name@;
            let after = applied(entries, config_parent, seen, env).0;
            &&& after.contains_key(key)
            &&& if !is_forced(entries[at].option) && env.contains_key(key) {
                after[key] == env[key]
            } else {
                resolved_value(entries[at].option, config_parent, seen) == Ok::<
                    Seq<char>,
                    EnvErrorView,
                >(after[key])
            }
        }),
    decreases entries.len(),
{
    let rest = entries.drop_first();
    let first = entries[0].name@;
    lemma_distinct_rest(entries);
    let next = if !is_forced(entries[0].option) && env.contains_key(first) {
        env
    } else {
        match resolved_value(entries[0].option, config_parent, seen) {
            Ok(value) => env.insert(first, value),
            Err(_) => env,
        }
    };
    if at == 0 {
        lemma_applied_keeps_others(rest, config_parent, seen, next, first);
    } else {
        assert(rest[at - 1] == entries[at]);
        lemma_applied_entry(rest, config_parent, seen, next, at - 1);
    }
}

} // verus!
