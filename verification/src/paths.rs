//! The platforms the manager runs on, and how it writes file-system paths.
use vstd::prelude::*;

use crate::text::{str_chars, str_eq};

verus! {

/// The operating system family that decides commands, separators and the
/// environment variables used for isolation.
#[derive(Clone, Copy, Debug, PartialEq, Eq, Structural)]
pub enum Platform {
    MacOs,
    Windows,
    Linux,
}

/// The separator written between path components.
pub open spec fn separator(p: Platform) -> char {
    if p == Platform::Windows {
        '\\'
    } else {
        '/'
    }
}

/// The characters that end a path component: `/` everywhere, and `\` too on
/// Windows.
pub open spec fn is_separator(p: Platform, c: char) -> bool {
    c == '/' || (p == Platform::Windows && c == '\\')
}

/// `part` appended to `base` as a new path component: nothing is added
/// between them when `base` is empty or already ends with a separator,
/// otherwise the platform's separator is. Unlike `PathBuf::join`, a `part`
/// that is itself an absolute path is appended too rather than replacing
/// `base`.
pub open spec fn join_path(p: Platform, base: Seq<char>, part: Seq<char>) -> Seq<char> {
    if base.len() == 0 {
        part
    } else if is_separator(p, base.last()) {
        base + part
    } else {
        base + seq![separator(p)] + part
    }
}

/// `path` is `dir` itself or lies below it.
pub open spec fn is_within(p: Platform, dir: Seq<char>, path: Seq<char>) -> bool {
    ||| path == dir
    ||| {
        &&& dir.len() < path.len()
        &&& path.subrange(0, dir.len() as int) == dir
        &&& (dir.len() == 0 || is_separator(p, dir.last()) || is_separator(
            p,
            path[dir.len() as int],
        ))
    }
}

/// No character of `s` is a separator on `p`.
pub open spec fn has_no_separator(p: Platform, s: Seq<char>) -> bool {
    forall|i: int| 0 <= i < s.len() ==> !is_separator(p, #[trigger] s[i])
}

/// A name of exactly one directory entry: not empty, holding no path
/// separator, and neither `.` nor `..`. Any other text, whitespace
/// included, names one entry.
pub open spec fn is_path_component(p: Platform, s: Seq<char>) -> bool {
    &&& s.len() > 0
    &&& has_no_separator(p, s)
    &&& s != "."@
    &&& s != ".."@
}

/// A profile id that names exactly one directory below the profiles
/// directory.
pub open spec fn is_valid_profile_id(p: Platform, id: Seq<char>) -> bool {
    is_path_component(p, id)
}

/// Whether `id` may name a profile directory.
pub fn profile_id_is_valid(p: Platform, id: &str) -> (r: bool)
    ensures
        r == is_valid_profile_id(p, id@),
{
    path_component_is_valid(p, id)
}

/// Whether `s` names exactly one directory entry.
pub fn path_component_is_valid(p: Platform, id: &str) -> (r: bool)
    ensures
        r == is_path_component(p, id@),
{
    let v = str_chars(id);
    if v.len() == 0 || str_eq(id, ".") || str_eq(id, "..") {
        return false;
    }
    let mut i: usize = 0;
    while i < v.len()
        invariant
            i <= v.len(),
            v@ == id@,
            forall|j: int| 0 <= j < i ==> !is_separator(p, #[trigger] v@[j]),
        decreases v.len() - i,
    {
        if char_is_separator(p, v[i]) {
            return false;
        }
        i = i + 1;
    }
    true
}

pub fn separator_char(p: Platform) -> (c: char)
    ensures
        c == separator(p),
{
    if p == Platform::Windows {
        '\\'
    } else {
        '/'
    }
}

pub fn char_is_separator(p: Platform, c: char) -> (r: bool)
    ensures
        r == is_separator(p, c),
{
    c == '/' || (p == Platform::Windows && c == '\\')
}

/// `part` appended to `base` as a new path component.
pub fn join(p: Platform, base: &str, part: &str) -> (r: String)
    ensures
        r@ == join_path(p, base@, part@),
{
    let b = str_chars(base);
    let mut r = String::from_str(base);
    if b.len() == 0 {
        return String::from_str(part);
    }
    if !char_is_separator(p, b[b.len() - 1]) {
        crate::text::push_char(&mut r, separator_char(p));
    }
    r.append(part);
    r
}

} // verus!
