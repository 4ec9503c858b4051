//! What is known of the file system. The resolution reads no file itself: it
//! looks each fact up among recorded observations, and where a fact it needs
//! was not recorded it stops and names the question. Whoever drives it
//! answers the question from the real file system, records the answer, and
//! resolves again.

use crate::config::Config;
use crate::manifest::Manifest;
use crate::text;
use vstd::prelude::*;

verus! {

/// A question to the file system.
#[derive(Debug, PartialEq, Eq)]
pub enum Query {
    /// Is this path a regular file?
    IsFile(String),
    /// Which absolute path, free of links, is this one?
    Canonical(String),
    /// In which directory does the process work?
    CurrentDir,
    /// What does the descriptor at this path hold?
    Manifest(String),
    /// What does the settings file at this path hold?
    Config(String),
    /// Which paths does this pattern match?
    Glob(String),
    /// Which entries does this directory hold?
    Listing(String),
}

/// What a [`Query`] is, with its path as a sequence of characters.
pub enum QueryView {
    IsFile(Seq<char>),
    Canonical(Seq<char>),
    CurrentDir,
    Manifest(Seq<char>),
    Config(Seq<char>),
    Glob(Seq<char>),
    Listing(Seq<char>),
}

impl View for Query {
    type V = QueryView;

    open spec fn view(&self) -> QueryView {
        match self {
            Query::IsFile(path) => QueryView::IsFile(path@),
            Query::Canonical(path) => QueryView::Canonical(path@),
            Query::CurrentDir => QueryView::CurrentDir,
            Query::Manifest(path) => QueryView::Manifest(path@),
            Query::Config(path) => QueryView::Config(path@),
            Query::Glob(pattern) => QueryView::Glob(pattern@),
            Query::Listing(dir) => QueryView::Listing(dir@),
        }
    }
}

impl QueryView {
    /// The question in words.
    pub open spec fn question(self) -> Seq<char> {
        match self {
            QueryView::IsFile(path) => "is `"@ + path + "` a file?"@,
            QueryView::Canonical(path) => "what is the canonical form of `"@ + path + "`?"@,
            QueryView::CurrentDir => "what is the current directory?"@,
            QueryView::Manifest(path) => "what does the manifest `"@ + path + "` hold?"@,
            QueryView::Config(path) => "what does the configuration `"@ + path + "` hold?"@,
            QueryView::Glob(pattern) => "what does the pattern `"@ + pattern + "` match?"@,
            QueryView::Listing(dir) => "what does the directory `"@ + dir + "` hold?"@,
        }
    }
}

/// `before`, then `middle`, then `after`.
pub fn between(before: &str, middle: &str, after: &str) -> (whole: String)
    ensures
        whole@ == before@ + middle@ + after@,
{
    let mut whole = text::concat(before, middle);
    whole.append(after);
    whole
}

impl Clone for Query {
    fn clone(&self) -> (copy: Self)
        ensures
            copy == *self,
    {
        match self {
            Query::IsFile(path) => Query::IsFile(path.clone()),
            Query::Canonical(path) => Query::Canonical(path.clone()),
            Query::CurrentDir => Query::CurrentDir,
            Query::Manifest(path) => Query::Manifest(path.clone()),
            Query::Config(path) => Query::Config(path.clone()),
            Query::Glob(pattern) => Query::Glob(pattern.clone()),
            Query::Listing(dir) => Query::Listing(dir.clone()),
        }
    }
}

impl Query {
    /// The question in words.
    pub fn to_string(&self) -> (words: String)
        ensures
            words@ == self@.question(),
    {
        match self {
            Query::IsFile(path) => between("is `", path.as_str(), "` a file?"),
            Query::Canonical(path) => between(
                "what is the canonical form of `",
                path.as_str(),
                "`?",
            ),
            Query::CurrentDir => "what is the current directory?".to_owned(),
            Query::Manifest(path) => between("what does the manifest `", path.as_str(), "` hold?"),
            Query::Config(path) => between(
                "what does the configuration `",
                path.as_str(),
                "` hold?",
            ),
            Query::Glob(pattern) => between("what does the pattern `", pattern.as_str(), "` match?"),
            Query::Listing(dir) => between("what does the directory `", dir.as_str(), "` hold?"),
        }
    }
}

/// What was found where a file was looked for and read.
#[derive(Debug)]
pub enum Loaded<T> {
    /// No file is there; the text is what the attempt to read it gave.
    Missing(String),
    /// The file is there and holds this.
    Found(T),
    /// The file is there and could not be read; the text says why.
    Unreadable(String),
    /// The file was read and makes no sense; the text says why.
    Malformed(String),
}

/// One entry of a directory.
#[derive(Debug)]
pub struct DirEntry {
    pub name: String,
    pub is_file: bool,
}

/// What was found where a directory was looked for and listed.
#[derive(Debug)]
pub enum Listing {
    /// No directory is there.
    Absent,
    /// The directory holds these entries, in the order they were read.
    Entries(Vec<DirEntry>),
    /// The directory could not be read; the text says why.
    Unreadable(String),
}

/// Values found by a text key. Of two values recorded under one key the
/// later stands.
#[derive(Debug)]
pub struct Table<T> {
    pub entries: Vec<(String, T)>,
}

impl<T> Table<T> {
    /// The value that a sequence of entries holds for `key`: that of the
    /// last entry with this key.
    pub open spec fn lookup(entries: Seq<(String, T)>, key: Seq<char>) -> Option<T>
        decreases entries.len(),
    {
        if entries.len() == 0 {
            None
        } else if entries.last().0@ == key {
            Some(entries.last().1)
        } else {
            Self::lookup(entries.drop_last(), key)
        }
    }

    /// The value recorded for `key`.
    pub open spec fn get(&self, key: Seq<char>) -> Option<T> {
        Self::lookup(self.entries@, key)
    }

    /// A table that holds nothing.
    pub fn new() -> (table: Self)
        ensures
            forall|key: Seq<char>| table.get(key) is None,
    {
        Table { entries: Vec::new() }
    }

    /// The value recorded for `key`.
    pub fn find(&self, key: &str) -> (found: Option<&T>)
        ensures
            match found {
                Some(value) => self.get(key@) == Some(*value),
                None => self.get(key@) is None,
            },
    {
        let mut i: usize = self.entries.len();
        assert(self.entries@.subrange(0, i as int) =~= self.entries@);
        while i > 0
            invariant
                i <= self.entries.len(),
                self.get(key@) == Self::lookup(self.entries@.subrange(0, i as int), key@),
            decreases i,
        {
            if text::equal(self.entries[i - 1].0.as_str(), key) {
                return Some(&self.entries[i - 1].1);
            }
            assert(self.entries@.subrange(0, i as int).drop_last() =~= self.entries@.subrange(
                0,
                i - 1,
            ));
            i = i - 1;
        }
        None
    }

    /// Records `value` for `key`, in place of what was recorded for it.
    pub fn put(&mut self, key: String, value: T)
        ensures
            forall|k: Seq<char>| #[trigger]
                final(self).get(k) == if k == key@ {
                    Some(value)
                } else {
                    old(self).get(k)
                },
    {
        self.entries.push((key, value));
        assert(self.entries@.drop_last() =~= old(self).entries@);
    }
}

/// The recorded answers, one table for each kind of question.
#[derive(Debug)]
pub struct Observations {
    pub files: Table<bool>,
    pub canonical: Table<Result<String, String>>,
    pub current_dir: Option<Result<String, String>>,
    pub manifests: Table<Loaded<Manifest>>,
    pub configs: Table<Loaded<Config>>,
    pub globs: Table<Result<Vec<Result<String, String>>, String>>,
    pub listings: Table<Listing>,
}

impl Observations {
    /// Whether `query` has an answer.
    pub open spec fn answers(&self, query: QueryView) -> bool {
        match query {
            QueryView::IsFile(path) => self.files.get(path) is Some,
            QueryView::Canonical(path) => self.canonical.get(path) is Some,
            QueryView::CurrentDir => self.current_dir is Some,
            QueryView::Manifest(path) => self.manifests.get(path) is Some,
            QueryView::Config(path) => self.configs.get(path) is Some,
            QueryView::Glob(pattern) => self.globs.get(pattern) is Some,
            QueryView::Listing(dir) => self.listings.get(dir) is Some,
        }
    }

    /// No observation at all.
    pub fn new() -> (seen: Self)
        ensures
            forall|query: QueryView| !seen.answers(query),
    {
        let seen = Observations {
            files: Table::new(),
            canonical: Table::new(),
            current_dir: None,
            manifests: Table::new(),
            configs: Table::new(),
            globs: Table::new(),
            listings: Table::new(),
        };
        assert forall|query: QueryView| !seen.answers(query) by {}
        seen
    }

    /// Whether `query` has an answer.
    pub fn is_answered(&self, query: &Query) -> (yes: bool)
        ensures
            yes == self.answers(query@),
    {
        match query {
            Query::IsFile(path) => self.files.find(path.as_str()).is_some(),
            Query::Canonical(path) => self.canonical.find(path.as_str()).is_some(),
            Query::CurrentDir => self.current_dir.is_some(),
            Query::Manifest(path) => self.manifests.find(path.as_str()).is_some(),
            Query::Config(path) => self.configs.find(path.as_str()).is_some(),
            Query::Glob(pattern) => self.globs.find(pattern.as_str()).is_some(),
            Query::Listing(dir) => self.listings.find(dir.as_str()).is_some(),
        }
    }
}

} // verus!
