//! From the path of a request to a path on disk, and what can be read off
//! such a path without touching the disk.

use vstd::prelude::*;
use vstd::string::*;
use crate::param::HTML_INDEX;
use crate::text::{push_char, str_eq, string_from, to_chars};

verus! {

/// What the path of a request resolved to on disk. A file comes with its
/// size in bytes.
pub enum ResourceOutcome {
    File { path: String, size: u64 },
    Directory { path: String },
    NotFound,
}

/// The outcome of resolving a path, as mathematical values.
pub enum OutcomeView {
    File { path: Seq<char>, size: u64 },
    Directory { path: Seq<char> },
    NotFound,
}

impl View for ResourceOutcome {
    type V = OutcomeView;

    open spec fn view(&self) -> OutcomeView {
        match self {
            ResourceOutcome::File { path, size } => OutcomeView::File { path: path@, size: *size },
            ResourceOutcome::Directory { path } => OutcomeView::Directory { path: path@ },
            ResourceOutcome::NotFound => OutcomeView::NotFound,
        }
    }
}

/// What a look at the disk found at a path.
#[derive(Debug, Clone, Copy, PartialEq, Eq, Structural)]
pub enum Found {
    Nothing,
    Directory,
    File { size: u64 },
}

/// What a path resolved to, given what a look at the disk found there.
pub open spec fn resolved(target: Seq<char>, found: Found) -> OutcomeView {
    match found {
        Found::Nothing => OutcomeView::NotFound,
        Found::Directory => OutcomeView::Directory { path: target },
        Found::File { size } => OutcomeView::File { path: target, size },
    }
}

/// Classifies the path `target` by what one look at the disk found there.
pub fn resolve(target: String, found: Found) -> (outcome: ResourceOutcome)
    ensures
        outcome@ == resolved(target@, found),
{
    match found {
        Found::Nothing => ResourceOutcome::NotFound,
        Found::Directory => ResourceOutcome::Directory { path: target },
        Found::File { size } => ResourceOutcome::File { path: target, size },
    }
}

/// `rest` set onto `root` as path components are: a `rest` that starts at
/// the root of the file system stands alone; else it follows `root`, with a
/// slash between the two where `root` does not end in one.
pub open spec fn joined(root: Seq<char>, rest: Seq<char>) -> Seq<char> {
    if rest.len() > 0 && rest[0] == '/' {
        rest
    } else if root.len() == 0 || root.last() == '/' {
        root + rest
    } else {
        root + seq!['/'] + rest
    }
}

/// The path on disk that the path of a request stands for. The path `/`
/// stands for the index page; any other path loses its leading slash and is
/// set onto the web root.
///
/// Nothing keeps the result inside the root: segments such as `..` are
/// taken as they are, and a path with two leading slashes leaves the root
/// behind altogether. A server that must not serve files from outside its
/// root has to check the path itself.
pub open spec fn routed(path: Seq<char>, root: Seq<char>) -> Seq<char> {
    if path == "/"@ {
        HTML_INDEX@
    } else if path.len() > 0 && path[0] == '/' {
        joined(root, path.drop_first())
    } else {
        joined(root, path)
    }
}

/// Maps the path of a request to the path on disk that is to be looked up.
///
/// `id` names the connection in the caller's records and has no part in
/// the result.
pub fn route(path: &str, id: u128, root: &str) -> (target: String)
    ensures
        target@ == routed(path@, root@),
{
    if str_eq(path, "/") {
        return String::from_str(HTML_INDEX);
    }
    let chars = to_chars(path);
    let from: usize = if chars.len() > 0 && chars[0] == '/' {
        1
    } else {
        0
    };
    let rest = string_from(&chars, from, chars.len());
    let ghost tail = chars@.subrange(from as int, chars.len() as int);
    assert(tail =~= if path@.len() > 0 && path@[0] == '/' {
        path@.drop_first()
    } else {
        path@
    });
    if chars.len() > from && chars[from] == '/' {
        assert(tail[0] == '/');
        return rest;
    }
    let base = to_chars(root);
    let mut target = String::from_str(root);
    if base.len() > 0 && base[base.len() - 1] != '/' {
        push_char(&mut target, '/');
    }
    target.append(rest.as_str());
    assert(target@ =~= joined(root@, tail));
    target
}

/// The index at which the last component of a path begins: just after its
/// last slash, or at its start where it has none.
pub open spec fn name_start(path: Seq<char>) -> int
    decreases path.len(),
{
    if path.len() == 0 {
        0
    } else if path.last() == '/' {
        path.len() as int
    } else {
        name_start(path.drop_last())
    }
}

/// The last component of a path: what follows its last slash.
pub open spec fn file_name(path: Seq<char>) -> Seq<char> {
    path.subrange(name_start(path), path.len() as int)
}

/// The index of the last dot in a name, or -1 where it has none.
pub open spec fn last_dot(name: Seq<char>) -> int
    decreases name.len(),
{
    if name.len() == 0 {
        -1
    } else if name.last() == '.' {
        name.len() - 1
    } else {
        last_dot(name.drop_last())
    }
}

/// The extension of the file that a path names: what follows the last dot
/// of the last component. There is none where that component has no dot,
/// where its only dot is its first character, or where it is `..`.
pub open spec fn extension_of(path: Seq<char>) -> Option<Seq<char>> {
    let name = file_name(path);
    let dot = last_dot(name);
    if dot <= 0 || name == ".."@ {
        None
    } else {
        Some(name.subrange(dot + 1, name.len() as int))
    }
}

/// The extension of the file that `path` names.
pub fn extension(path: &str) -> (ext: Option<String>)
    ensures
        match ext {
            Some(e) => extension_of(path@) == Some(e@),
            None => extension_of(path@) is None,
        },
{
    let chars = to_chars(path);
    let n: usize = chars.len();
    let mut start: usize = n;
    assert(chars@.take(n as int) =~= chars@);
    while start > 0 && chars[start - 1] != '/'
        invariant
            start <= n,
            n == chars.len(),
            name_start(chars@) == name_start(chars@.take(start as int)),
        decreases start,
    {
        assert(chars@.take(start as int).drop_last() =~= chars@.take(start as int - 1));
        start -= 1;
    }
    assert(name_start(chars@) == start);
    let ghost name = chars@.subrange(start as int, n as int);
    let mut dot: usize = n;
    assert(name.take((n - start) as int) =~= name);
    while dot > start && chars[dot - 1] != '.'
        invariant
            start <= dot <= n,
            n == chars.len(),
            name == chars@.subrange(start as int, n as int),
            last_dot(name) == last_dot(name.take(dot - start)),
        decreases dot,
    {
        assert(name.take(dot - start).drop_last() =~= name.take(dot - start - 1));
        assert(name.take(dot - start).last() == chars@[dot - 1]);
        dot -= 1;
    }
    proof {
        if dot > start {
            assert(name.take(dot - start).last() == chars@[dot - 1]);
        }
        reveal_strlit("..");
    }
    if dot - start <= 1 {
        return None;
    }
    if n - start == 2 && chars[start] == '.' && chars[start + 1] == '.' {
        assert(name =~= ".."@);
        return None;
    }
    assert(name != ".."@) by {
        if name == ".."@ {
            assert(name[0] == '.' && name[1] == '.');
        }
    }
    assert(name.subrange(dot - start, name.len() as int) =~= chars@.subrange(
        dot as int,
        n as int,
    ));
    Some(string_from(&chars, dot, n))
}

} // verus!
