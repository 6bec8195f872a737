//! Small helpers on paths.

use std::path::Path;
use vstd::prelude::*;

verus! {

/// Position of the last slash in a path, or -1 if there is none.
pub open spec fn last_slash(s: Seq<char>) -> int
    decreases s.len(),
{
    if s.len() == 0 {
        -1
    } else if s.last() == '/' {
        s.len() - 1
    } else {
        last_slash(s.drop_last())
    }
}

/// The final component of a path, as `Path::file_name` gives it for a Unix
/// path: the last piece between slashes that is neither empty nor `.`, and
/// `None` when that piece is `..` or when there is none.
pub open spec fn path_file_name(path: Seq<char>) -> Option<Seq<char>>
    decreases path.len(),
{
    let s = last_slash(path);
    let tail = path.skip(s + 1);
    if tail.len() == 0 || tail == seq!['.'] {
        if 0 <= s < path.len() {
            path_file_name(path.take(s))
        } else {
            None
        }
    } else if tail == seq!['.', '.'] {
        None
    } else {
        Some(tail)
    }
}

/// Position of the last dot in a name, or -1 if there is none.
pub open spec fn last_dot(s: Seq<char>) -> int
    decreases s.len(),
{
    if s.len() == 0 {
        -1
    } else if s.last() == '.' {
        s.len() - 1
    } else {
        last_dot(s.drop_last())
    }
}

/// The stem of a file name: the whole name if it has no dot or only a
/// leading one, otherwise what comes before the final dot.
pub open spec fn name_stem(name: Seq<char>) -> Seq<char> {
    let d = last_dot(name);
    if d <= 0 {
        name
    } else {
        name.take(d)
    }
}

/// View of an optional string.
pub open spec fn opt_string_view(s: Option<String>) -> Option<Seq<char>> {
    match s {
        Some(s) => Some(s@),
        None => None,
    }
}

/// `Path::file_name` of a path given as text, as text.
#[verifier::external_body]
fn file_name(path: &str) -> (r: Option<String>)
    ensures
        opt_string_view(r) == path_file_name(path@),
{
    Path::new(path).file_name().and_then(|name| name.to_str()).map(String::from)
}

/// `Path::file_stem` of a path given as text, as text: the stem of the
/// file name.
#[verifier::external_body]
fn file_stem(path: &str) -> (r: Option<String>)
    ensures
        opt_string_view(r) == match path_file_name(path@) {
            Some(name) => Some(name_stem(name)),
            None => None,
        },
{
    Path::new(path).file_stem().and_then(|name| name.to_str()).map(String::from)
}

/// Base name of a file, with or without its extension.
pub fn basename(path: &str, no_extension: bool) -> (r: Option<String>)
    ensures
        opt_string_view(r) == match path_file_name(path@) {
            Some(name) => Some(if no_extension { name_stem(name) } else { name }),
            None => None,
        },
{
    if no_extension {
        file_stem(path)
    } else {
        file_name(path)
    }
}

/// Whether a character is a given lower case ASCII letter, in either case.
pub open spec fn is_letter(c: char, lower: char) -> bool {
    c == lower || c as int == lower as int - 32
}

/// Whether a dot followed by `utf`, in any case, starts at position `i`.
pub open spec fn utf_mark_at(lang: Seq<char>, i: int) -> bool {
    &&& 0 <= i
    &&& i + 4 <= lang.len()
    &&& lang[i] == '.'
    &&& is_letter(lang[i + 1], 'u')
    &&& is_letter(lang[i + 2], 't')
    &&& is_letter(lang[i + 3], 'f')
}

/// Whether a locale, as the `LANG` variable holds it, names a Unicode
/// character set: somewhere a dot is followed by `utf`, in any case.
pub open spec fn names_unicode(lang: Seq<char>) -> bool {
    exists|i: int| #[trigger] utf_mark_at(lang, i)
}

/// Whether a locale, as the `LANG` variable holds it, uses a Unicode
/// character set.
pub fn locale_is_unicode(lang: &str) -> (b: bool)
    ensures
        b == names_unicode(lang@),
{
    let chars = crate::strings::str_chars(lang);
    let n = chars.len();
    let mut i: usize = 0;
    while i < n && n - i >= 4
        invariant
            i <= n,
            chars@ == lang@,
            n == chars@.len(),
            forall|j: int| 0 <= j < i ==> !#[trigger] utf_mark_at(lang@, j),
        decreases n - i,
    {
        let c0 = chars[i];
        let c1 = chars[i + 1];
        let c2 = chars[i + 2];
        let c3 = chars[i + 3];
        if c0 == '.' && (c1 == 'u' || c1 == 'U') && (c2 == 't' || c2 == 'T') && (c3 == 'f' || c3 == 'F') {
            assert(utf_mark_at(lang@, i as int));
            return true;
        }
        i = i + 1;
    }
    proof {
        assert forall|j: int| !#[trigger] utf_mark_at(lang@, j) by {
            if 0 <= j && j < i {
            }
        }
    }
    false
}

} // verus!
