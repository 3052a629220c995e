//! Paths of report pages. A path is text whose components are separated by
//! `/`, on every platform; the links of a summary page are relative to the
//! directory that holds the summary page. No other character separates: a
//! caller whose platform writes paths otherwise hands them over with `/`.

use crate::text::chars_of;
use vstd::prelude::*;

verus! {

/// The character that separates the components of a path.
pub open spec fn separator() -> char {
    '/'
}

/// `at` is the position of the last separator in `path`.
pub open spec fn is_last_separator(path: Seq<char>, at: int) -> bool {
    &&& 0 <= at < path.len()
    &&& path[at] == separator()
    &&& forall|j: int| at < j < path.len() ==> path[j] != separator()
}

/// The directory that holds the file at `path`: the text before the last
/// separator. A path without a separator lies in the current directory,
/// written as the empty text; a path directly under the root lies in `/`.
pub open spec fn directory_of(path: Seq<char>) -> Seq<char> {
    if exists|at: int| is_last_separator(path, at) {
        let at = choose|at: int| is_last_separator(path, at);
        if at == 0 {
            path.take(1)
        } else {
            path.take(at)
        }
    } else {
        Seq::empty()
    }
}

/// The path of `link` taken relative to the directory `base`: `link` itself
/// for the current directory, else `base`, one separator and `link`.
pub open spec fn resolved(base: Seq<char>, link: Seq<char>) -> Seq<char> {
    if base.len() == 0 {
        link
    } else if base.last() == separator() {
        base + link
    } else {
        base + seq![separator()] + link
    }
}

/// A resolved link ends with the link, and starts with the base directory.
pub proof fn lemma_resolved_keeps_parts(base: Seq<char>, link: Seq<char>)
    ensures
        resolved(base, link).len() >= base.len() + link.len(),
        resolved(base, link).take(base.len() as int) == base,
        resolved(base, link).skip(resolved(base, link).len() - link.len()) == link,
{
    let whole = resolved(base, link);
    assert(whole.take(base.len() as int) =~= base);
    assert(whole.skip(whole.len() - link.len()) =~= link);
}

/// The directory that holds the file at `path`.
pub fn containing_directory(path: &str) -> (directory: String)
    ensures
        directory@ == directory_of(path@),
{
    let chars = chars_of(path);
    let mut at: usize = chars.len();
    while at > 0
        invariant
            at <= chars.len(),
            chars@ == path@,
            forall|j: int| at <= j < chars.len() ==> chars@[j] != separator(),
        decreases at,
    {
        at -= 1;
        if chars[at] == '/' {
            assert(is_last_separator(path@, at as int));
            assert forall|other: int| is_last_separator(path@, other) implies other == at by {
                if other < at {
                    assert(path@[at as int] == separator());
                } else if other > at {
                    assert(path@[other] != separator());
                }
            }
            let cut: usize = if at == 0 { 1 } else { at };
            return path.substring_char(0, cut).to_owned();
        }
    }
    assert forall|other: int| !is_last_separator(path@, other) by {
        if 0 <= other < path@.len() {
            assert(chars@[other] != separator());
        }
    }
    String::new()
}

/// The path of `link` taken relative to the directory `base`.
pub fn resolve_link(base: &str, link: &str) -> (path: String)
    ensures
        path@ == resolved(base@, link@),
{
    let chars = chars_of(base);
    if chars.len() == 0 {
        return link.to_owned();
    }
    let mut path = base.to_owned();
    if chars[chars.len() - 1] != '/' {
        proof {
            reveal_strlit("/");
            assert("/"@ =~= seq![separator()]);
        }
        path.append("/");
    }
    path.append(link);
    path
}

} // verus!
