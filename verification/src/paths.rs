//! Paths as text, after the model of POSIX: a path is a string whose
//! components are separated by `/`, and a path that begins with `/` is
//! absolute. No other separator, no drive and no prefix is known here, so a
//! path in the form of another system is one relative component to these
//! operations. Nothing here touches a file system: these are the operations
//! on the text alone.

use crate::text;
use vstd::prelude::*;
use vstd::string::*;

verus! {

/// Whether `path` begins at the root.
pub open spec fn is_absolute(path: Seq<char>) -> bool {
    path.len() > 0 && path[0] == '/'
}

/// `rel` taken from `base`: an absolute `rel` stands for itself, any other
/// follows `base`, with one separator between them unless `base` is empty or
/// already ends with one.
pub open spec fn join(base: Seq<char>, rel: Seq<char>) -> Seq<char> {
    if is_absolute(rel) {
        rel
    } else if base.len() == 0 || base.last() == '/' {
        base + rel
    } else {
        base + seq!['/'] + rel
    }
}

/// `name` inside the directory `dir`: the two with one separator between
/// them.
pub open spec fn inside(dir: Seq<char>, name: Seq<char>) -> Seq<char> {
    dir + seq!['/'] + name
}

/// The position of the last separator in `path`, or -1 where it has none.
pub open spec fn last_slash(path: Seq<char>) -> int
    decreases path.len(),
{
    if path.len() == 0 {
        -1
    } else if path.last() == '/' {
        path.len() - 1
    } else {
        last_slash(path.drop_last())
    }
}

/// The directory that holds `path`: the text before its last separator. The
/// root and the empty path have none; a path of one component lies in the
/// empty path, and a component directly under the root lies in the root.
pub open spec fn parent(path: Seq<char>) -> Option<Seq<char>> {
    let cut = last_slash(path);
    if path.len() == 0 || path == seq!['/'] {
        None
    } else if cut < 0 {
        Some(Seq::empty())
    } else if cut == 0 {
        Some(seq!['/'])
    } else {
        Some(path.subrange(0, cut))
    }
}

/// The directory that holds `path`; the root and the empty path stand for
/// themselves.
pub open spec fn directory(path: Seq<char>) -> Seq<char> {
    match parent(path) {
        Some(up) => up,
        None => path,
    }
}

/// `path` and the directories above it, walking outward: the path itself
/// first, the outermost directory last.
pub open spec fn ancestors(path: Seq<char>) -> Seq<Seq<char>>
    decreases path.len(),
{
    match parent(path) {
        Some(up) => {
            proof {
                lemma_parent_shorter(path);
            }
            seq![path] + ancestors(up)
        },
        None => seq![path],
    }
}

/// `path` as seen from the directory `base` that it lies in; nothing where
/// it does not lie in `base`.
pub open spec fn relative_to(path: Seq<char>, base: Seq<char>) -> Option<Seq<char>> {
    if path == base {
        Some(Seq::empty())
    } else if base.len() == 0 {
        Some(path)
    } else if base.last() == '/' {
        if text::starts_with(path, base) {
            Some(path.skip(base.len() as int))
        } else {
            None
        }
    } else if text::starts_with(path, base + seq!['/']) {
        Some(path.skip(base.len() as int + 1))
    } else {
        None
    }
}

/// The last component of `path`: the text after its last separator.
pub open spec fn file_name(path: Seq<char>) -> Seq<char> {
    path.subrange(last_slash(path) + 1, path.len() as int)
}

/// Whether `name` is the name of a Rust source file: it ends in `.rs` and
/// has something before that.
pub open spec fn is_rust_file_name(name: Seq<char>) -> bool {
    name.len() > 3 && name.subrange(name.len() - 3, name.len() as int) == seq!['.', 'r', 's']
}

/// A Rust source file's name without its `.rs`; any other name as it is.
pub open spec fn file_stem(name: Seq<char>) -> Seq<char> {
    if is_rust_file_name(name) {
        name.subrange(0, name.len() - 3)
    } else {
        name
    }
}

/// Where the last separator stands: within the path, on a separator, and
/// with no separator after it.
pub proof fn lemma_last_slash(path: Seq<char>)
    ensures
        -1 <= last_slash(path) < path.len(),
        last_slash(path) >= 0 ==> path[last_slash(path)] == '/',
        forall|i: int| last_slash(path) < i < path.len() ==> path[i] != '/',
    decreases path.len(),
{
    if path.len() > 0 && path.last() != '/' {
        let front = path.drop_last();
        lemma_last_slash(front);
        assert forall|i: int| last_slash(path) < i < path.len() implies path[i] != '/' by {
            if i < front.len() {
                assert(front[i] == path[i]);
            }
        }
    }
}

/// A parent is shorter than its child, so that walking upward ends.
pub proof fn lemma_parent_shorter(path: Seq<char>)
    ensures
        parent(path) matches Some(up) ==> up.len() < path.len(),
{
    lemma_last_slash(path);
    if path.len() == 1 && last_slash(path) == 0 {
        assert(path =~= seq!['/']);
    }
}

/// A name inside a directory is the name joined to the directory, where the
/// directory has a name of its own and the name does not begin at the root.
pub proof fn lemma_inside_is_join(dir: Seq<char>, name: Seq<char>)
    requires
        dir.len() > 0,
        dir.last() != '/',
        !is_absolute(name),
    ensures
        inside(dir, name) == join(dir, name),
{
}

/// What lies inside a relative directory is relative.
pub proof fn lemma_inside_relative(dir: Seq<char>, name: Seq<char>)
    requires
        dir.len() > 0,
        !is_absolute(dir),
    ensures
        !is_absolute(inside(dir, name)),
{
    assert(inside(dir, name)[0] == dir[0]);
}

/// A joined path ends as the path that was joined on ends.
pub proof fn lemma_join_ends_with(base: Seq<char>, rel: Seq<char>, suffix: Seq<char>)
    requires
        text::ends_with(rel, suffix),
    ensures
        text::ends_with(join(base, rel), suffix),
{
    let joined = join(base, rel);
    assert(joined.subrange(joined.len() - suffix.len(), joined.len() as int) =~= rel.subrange(
        rel.len() - suffix.len(),
        rel.len() as int,
    ));
}

/// Whether `path` begins at the root.
pub fn absolute(path: &str) -> (yes: bool)
    ensures
        yes == is_absolute(path@),
{
    let n: usize = path.unicode_len();
    n > 0 && path.get_char(0) == '/'
}

/// `rel` taken from `base`.
pub fn join_path(base: &str, rel: &str) -> (joined: String)
    ensures
        joined@ == join(base@, rel@),
{
    if absolute(rel) {
        return rel.to_owned();
    }
    let n: usize = base.unicode_len();
    if n == 0 || base.get_char(n - 1) == '/' {
        text::concat(base, rel)
    } else {
        proof {
            reveal_strlit("/");
        }
        assert("/"@ =~= seq!['/']);
        let mut joined = text::concat(base, "/");
        joined.append(rel);
        joined
    }
}

/// `name` inside the directory `dir`.
pub fn inside_dir(dir: &str, name: &str) -> (path: String)
    ensures
        path@ == inside(dir@, name@),
{
    proof {
        reveal_strlit("/");
    }
    assert("/"@ =~= seq!['/']);
    let mut path = text::concat(dir, "/");
    path.append(name);
    path
}

/// The position of the last separator in `path`, if it has one.
pub fn find_last_slash(path: &str) -> (at: Option<usize>)
    ensures
        match at {
            Some(i) => i == last_slash(path@),
            None => last_slash(path@) == -1,
        },
{
    let n: usize = path.unicode_len();
    let mut i: usize = n;
    assert(path@.subrange(0, n as int) =~= path@);
    while i > 0
        invariant
            i <= n,
            n == path@.len(),
            last_slash(path@) == last_slash(path@.subrange(0, i as int)),
        decreases i,
    {
        if path.get_char(i - 1) == '/' {
            return Some(i - 1);
        }
        assert(path@.subrange(0, i as int).drop_last() =~= path@.subrange(0, i - 1));
        i = i - 1;
    }
    None
}

/// The directory that holds `path`, if it has one.
pub fn parent_of(path: &str) -> (up: Option<String>)
    ensures
        match (up, parent(path@)) {
            (Some(dir), Some(expected)) => dir@ == expected,
            (None, None) => true,
            _ => false,
        },
{
    proof {
        lemma_last_slash(path@);
        reveal_strlit("/");
    }
    assert("/"@ =~= seq!['/']);
    let n: usize = path.unicode_len();
    if n == 0 || text::equal(path, "/") {
        return None;
    }
    match find_last_slash(path) {
        None => Some(String::new()),
        Some(cut) => {
            if cut == 0 {
                Some("/".to_owned())
            } else {
                Some(path.substring_char(0, cut).to_owned())
            }
        },
    }
}

/// The directory that holds `path`; the root and the empty path stand for
/// themselves.
pub fn directory_of(path: &str) -> (dir: String)
    ensures
        dir@ == directory(path@),
{
    match parent_of(path) {
        Some(up) => up,
        None => path.to_owned(),
    }
}

/// `path` as seen from the directory `base`, if it lies in it.
pub fn strip_prefix(path: &str, base: &str) -> (rest: Option<String>)
    ensures
        match rest {
            Some(rest) => relative_to(path@, base@) == Some(rest@),
            None => relative_to(path@, base@) is None,
        },
{
    proof {
        reveal_strlit("/");
    }
    assert("/"@ =~= seq!['/']);
    let n: usize = path.unicode_len();
    let m: usize = base.unicode_len();
    if text::equal(path, base) {
        return Some(String::new());
    }
    if m == 0 {
        return Some(path.to_owned());
    }
    if base.get_char(m - 1) == '/' {
        if text::has_prefix(path, base) {
            assert(path@.skip(m as int) =~= path@.subrange(m as int, n as int));
            Some(path.substring_char(m, n).to_owned())
        } else {
            None
        }
    } else {
        let with_slash = text::concat(base, "/");
        if text::has_prefix(path, with_slash.as_str()) {
            assert(path@.skip(m + 1) =~= path@.subrange(m + 1, n as int));
            Some(path.substring_char(m + 1, n).to_owned())
        } else {
            None
        }
    }
}

/// The last component of `path`.
pub fn file_name_of(path: &str) -> (name: String)
    ensures
        name@ == file_name(path@),
{
    proof {
        lemma_last_slash(path@);
    }
    let n: usize = path.unicode_len();
    match find_last_slash(path) {
        None => path.substring_char(0, n).to_owned(),
        Some(cut) => path.substring_char(cut + 1, n).to_owned(),
    }
}

/// Whether `name` is the name of a Rust source file.
pub fn rust_file_name(name: &str) -> (yes: bool)
    ensures
        yes == is_rust_file_name(name@),
{
    proof {
        reveal_strlit(".rs");
    }
    assert(".rs"@ =~= seq!['.', 'r', 's']);
    let n: usize = name.unicode_len();
    n > 3 && text::equal(name.substring_char(n - 3, n), ".rs")
}

/// A Rust source file's name without its `.rs`; any other name as it is.
pub fn file_stem_of(name: &str) -> (stem: String)
    ensures
        stem@ == file_stem(name@),
{
    if rust_file_name(name) {
        let n: usize = name.unicode_len();
        name.substring_char(0, n - 3).to_owned()
    } else {
        name.to_owned()
    }
}

} // verus!
