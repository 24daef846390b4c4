//! Path utilities for safe and robust file path handling.
//!
//! The library treats a path as UTF-8 text whose segments are separated by
//! `/`.  The *file name* of a path is the text after the last separator,
//! except that an empty tail, `.` and `..` name no file.  Canonicalization
//! and any other contact with the file system is the caller's concern.

use vstd::prelude::*;

use crate::error::Error;
use crate::strutil::{char_range, chars_to_string, str_chars};

verus! {

/// The prefix that marks an already-extended path on Windows; the `?` in it
/// is exempt from character validation.
pub open spec fn long_path_prefix() -> Seq<char> {
    seq!['\\', '\\', '?', '\\']
}

/// Index of the first character after the last `/` of `s` (0 when `s` has no
/// separator).
pub open spec fn file_name_start(s: Seq<char>) -> int
    decreases s.len(),
{
    if s.len() == 0 {
        0
    } else if s[s.len() - 1] == '/' {
        s.len() as int
    } else {
        file_name_start(s.take(s.len() - 1))
    }
}

/// The final path segment, or `None` when the path ends in a separator or
/// when the tail is empty, `.` or `..`.
pub open spec fn spec_file_name(s: Seq<char>) -> Option<Seq<char>> {
    let t = s.subrange(file_name_start(s), s.len() as int);
    if t.len() == 0 || t == seq!['.'] || t == seq!['.', '.'] {
        None
    } else {
        Some(t)
    }
}

/// Whether the final path segment starts with a dot.
pub open spec fn spec_is_hidden(s: Seq<char>) -> bool {
    match spec_file_name(s) {
        Some(t) => t[0] == '.',
        None => false,
    }
}

/// Finds `file_name_start` of the given characters.
pub(crate) fn file_name_start_exec(v: &Vec<char>) -> (r: usize)
    ensures
        r == file_name_start(v@),
        r <= v@.len(),
{
    let mut i: usize = v.len();
    proof {
        assert(v@.take(v@.len() as int) =~= v@);
    }
    while i > 0 && v[i - 1] != '/'
        invariant
            i <= v@.len(),
            file_name_start(v@) == file_name_start(v@.take(i as int)),
        decreases i,
    {
        proof {
            assert(v@.take(i as int).take(i as int - 1) =~= v@.take(i as int - 1));
        }
        i = i - 1;
    }
    i
}

/// Index of the first character after the last `.` of `s` (0 when `s` has no
/// dot).
pub open spec fn ext_start(s: Seq<char>) -> int
    decreases s.len(),
{
    if s.len() == 0 {
        0
    } else if s[s.len() - 1] == '.' {
        s.len() as int
    } else {
        ext_start(s.take(s.len() - 1))
    }
}

/// Finds `ext_start` of the given characters.
pub(crate) fn ext_start_exec(v: &Vec<char>) -> (r: usize)
    ensures
        r == ext_start(v@),
        r <= v@.len(),
{
    let mut i: usize = v.len();
    proof {
        assert(v@.take(v@.len() as int) =~= v@);
    }
    while i > 0 && v[i - 1] != '.'
        invariant
            i <= v@.len(),
            ext_start(v@) == ext_start(v@.take(i as int)),
        decreases i,
    {
        proof {
            assert(v@.take(i as int).take(i as int - 1) =~= v@.take(i as int - 1));
        }
        i = i - 1;
    }
    i
}

/// The extension of a path: the text after the last `.` of the final path
/// segment, provided that dot is not the segment's first character.  `None`
/// when the path names no file or the segment has no such dot.
pub open spec fn spec_extension(s: Seq<char>) -> Option<Seq<char>> {
    match spec_file_name(s) {
        Some(name) => {
            if ext_start(name) >= 2 {
                Some(name.subrange(ext_start(name), name.len() as int))
            } else {
                None
            }
        },
        None => None,
    }
}

/// The extension of a path's final segment, as `spec_extension` says.
pub(crate) fn extension_chars(v: &Vec<char>) -> (r: Option<Vec<char>>)
    ensures
        match r {
            Some(t) => spec_extension(v@) == Some(t@),
            None => spec_extension(v@) is None,
        },
{
    match file_name_chars(v) {
        Some(name) => {
            let e = ext_start_exec(&name);
            if e >= 2 {
                Some(char_range(&name, e, name.len()))
            } else {
                None
            }
        },
        None => None,
    }
}

/// The final path segment of `v`, or `None` as `spec_file_name` says.
pub(crate) fn file_name_chars(v: &Vec<char>) -> (r: Option<Vec<char>>)
    ensures
        match r {
            Some(t) => spec_file_name(v@) == Some(t@),
            None => spec_file_name(v@) is None,
        },
{
    let start = file_name_start_exec(v);
    let tail = char_range(v, start, v.len());
    if tail.len() == 0 {
        None
    } else if tail.len() == 1 && tail[0] == '.' {
        proof {
            assert(tail@ =~= seq!['.']);
        }
        None
    } else if tail.len() == 2 && tail[0] == '.' && tail[1] == '.' {
        proof {
            assert(tail@ =~= seq!['.', '.']);
        }
        None
    } else {
        proof {
            assert(tail@ != seq!['.'] && tail@ != seq!['.', '.']);
        }
        Some(tail)
    }
}

/// Checks if a path's final segment starts with a dot (a hidden file).
///
/// For every path, the result is true exactly when the path has a final
/// segment and that segment's first character is `.`.
pub fn is_hidden_file(path: &str) -> (r: bool)
    ensures
        r == spec_is_hidden(path@),
{
    let chars = str_chars(path);
    match file_name_chars(&chars) {
        Some(t) => t[0] == '.',
        None => false,
    }
}

/// Safely converts a path to an owned string; never fails for UTF-8 input.
pub fn path_to_string_safe(path: &str) -> (r: Result<String, Error>)
    ensures
        r matches Ok(s) && s@ == path@,
{
    Ok(path.to_owned())
}

/// Converts a path to an owned string.
pub fn path_to_string_lossy(path: &str) -> (r: String)
    ensures
        r@ == path@,
{
    path.to_owned()
}

/// Gets the file name from a path, or an error when the path names no file.
pub fn get_file_name_safe(path: &str) -> (r: Result<String, Error>)
    ensures
        match r {
            Ok(s) => spec_file_name(path@) == Some(s@),
            Err(e) => spec_file_name(path@) is None && (e matches Error::PathUtf8Error(p)
                && p@ == path@),
        },
{
    let chars = str_chars(path);
    match file_name_chars(&chars) {
        Some(t) => Ok(chars_to_string(&t)),
        None => Err(Error::PathUtf8Error(path.to_owned())),
    }
}

/// Gets the file name from a path, falling back to `"unknown"`.
pub fn get_file_name_lossy(path: &str) -> (r: String)
    ensures
        r@ == match spec_file_name(path@) {
            Some(t) => t,
            None => "unknown"@,
        },
{
    let chars = str_chars(path);
    match file_name_chars(&chars) {
        Some(t) => chars_to_string(&t),
        None => "unknown".to_owned(),
    }
}

/// The extension of a path as text, empty where it has none.
pub fn extension_text(path: &str) -> (r: String)
    ensures
        r@ == match spec_extension(path@) {
            Some(e) => e,
            None => Seq::<char>::empty(),
        },
{
    let chars = str_chars(path);
    match extension_chars(&chars) {
        Some(e) => chars_to_string(&e),
        None => String::new(),
    }
}

/// Whether a character is refused in paths handed to archive writers.
pub open spec fn is_invalid_path_char(c: char) -> bool {
    c == '<' || c == '>' || c == '"' || c == '|' || c == '?' || c == '*'
}

fn invalid_path_char(c: char) -> (r: bool)
    ensures
        r == is_invalid_path_char(c),
{
    c == '<' || c == '>' || c == '"' || c == '|' || c == '?' || c == '*'
}

/// Where character validation starts: after the Windows long-path prefix when
/// the path carries one, else at the beginning.
pub open spec fn validation_start(s: Seq<char>) -> int {
    if s.len() >= 4 && s.subrange(0, 4) == long_path_prefix() {
        4
    } else {
        0
    }
}

/// Whether every character of the checked region of `s` is acceptable.
pub open spec fn spec_path_valid(s: Seq<char>) -> bool {
    forall|i: int|
        validation_start(s) <= i < s.len() ==> !is_invalid_path_char(#[trigger] s[i])
}

/// Checks a path for characters that archives and file systems refuse.
///
/// Returns `Ok` exactly when no character after the optional long-path prefix
/// is one of `<ltgt>"|?*`.
pub fn validate_path(path: &str) -> (r: Result<(), Error>)
    ensures
        r matches Ok(_) <==> spec_path_valid(path@),
        r matches Err(e) ==> e matches Error::InvalidPath(p, m) && p@ == path@
            && m@ == "Path contains invalid characters"@,
{
    let chars = str_chars(path);
    let mut start: usize = 0;
    if chars.len() >= 4 && chars[0] == '\\' && chars[1] == '\\' && chars[2] == '?'
        && chars[3] == '\\' {
        proof {
            assert(path@.subrange(0, 4) =~= long_path_prefix());
        }
        start = 4;
    } else {
        proof {
            assert(chars@.len() >= 4 ==> chars@.subrange(0, 4) != long_path_prefix() || (
            chars@[0] == '\\' && chars@[1] == '\\' && chars@[2] == '?' && chars@[3] == '\\'));
        }
    }
    let mut i: usize = start;
    while i < chars.len()
        invariant
            start == validation_start(path@),
            chars@ == path@,
            start <= i,
            forall|j: int| start <= j < i ==> !is_invalid_path_char(#[trigger] path@[j]),
        decreases chars@.len() - i,
    {
        if invalid_path_char(chars[i]) {
            return Err(Error::InvalidPath(
                path.to_owned(),
                "Path contains invalid characters".to_owned(),
            ));
        }
        i = i + 1;
    }
    Ok(())
}

/// Prepares a path for use with long-path support.  With plain `/` paths this
/// is the identity; the caller decides whether a platform prefix is needed.
pub fn prepare_long_path(path: &str) -> (r: Result<String, Error>)
    ensures
        r matches Ok(s) && s@ == path@,
{
    Ok(path.to_owned())
}

/// Validates a path and hands it back unchanged.  Resolving the path against
/// the real file system is the caller's concern; a path that does not exist
/// yet (an output file) passes as long as its characters are acceptable.
pub fn normalize_path(path: &str) -> (r: Result<String, Error>)
    ensures
        r matches Ok(s) ==> spec_path_valid(path@) && s@ == path@,
        r matches Err(_) ==> !spec_path_valid(path@),
{
    match validate_path(path) {
        Ok(_) => Ok(path.to_owned()),
        Err(e) => Err(e),
    }
}

/// How `sanitize_filename` rewrites one character.
pub open spec fn sanitize_char(c: char) -> char {
    if c == '<' || c == '>' || c == '"' || c == '|' || c == '?' || c == '*' {
        '-'
    } else if c == ':' || c == '/' || c == '\\' {
        '-'
    } else if (c as u32) < 0x20 || (0x7f <= c as u32 && c as u32 <= 0x9f) {
        '_'
    } else {
        c
    }
}

/// Sanitizes a filename: characters that file systems refuse become `-`,
/// control characters become `_`, everything else stays.
pub fn sanitize_filename(filename: &str) -> (r: String)
    ensures
        r@ == filename@.map_values(|c: char| sanitize_char(c)),
{
    let chars = str_chars(filename);
    let mut out: Vec<char> = Vec::new();
    let mut i: usize = 0;
    while i < chars.len()
        invariant
            chars@ == filename@,
            i <= chars@.len(),
            out@ == filename@.take(i as int).map_values(|c: char| sanitize_char(c)),
        decreases chars@.len() - i,
    {
        let c = chars[i];
        let mapped: char = if c == '<' || c == '>' || c == '"' || c == '|' || c == '?'
            || c == '*' {
            '-'
        } else if c == ':' || c == '/' || c == '\\' {
            '-'
        } else if (c as u32) < 0x20 || (0x7f <= c as u32 && c as u32 <= 0x9f) {
            '_'
        } else {
            c
        };
        out.push(mapped);
        i = i + 1;
        proof {
            assert(out@ =~= filename@.take(i as int).map_values(|c: char| sanitize_char(c)));
        }
    }
    proof {
        assert(filename@.take(chars@.len() as int) =~= filename@);
    }
    chars_to_string(&out)
}

} // verus!
