//! Telling video files from other files by their extension.

use vstd::prelude::*;
use vstd::string::*;
use crate::paths::{base_name, base_name_of, Target};
use crate::text::{all_ascii, chars_of};

verus! {

/// Index of the last `.` in `s`, or -1 where there is none.
pub open spec fn last_dot(s: Seq<char>) -> int
    decreases s.len(),
{
    if s.len() == 0 {
        -1
    } else if s.last() == '.' {
        s.len() - 1
    } else {
        last_dot(s.drop_last())
    }
}

/// The extension of a single name: what follows its last `.`. A name without
/// a `.`, or whose only `.` is its first character (`.profile`), has none.
pub open spec fn name_extension(s: Seq<char>) -> Option<Seq<char>> {
    let k = last_dot(s);
    if k <= 0 {
        None
    } else {
        Some(s.subrange(k + 1, s.len() as int))
    }
}

/// The extension of a path: that of its last name (see `base_name_of`), so
/// that trailing separators are passed over and a directory's `.` plays no
/// part.
pub open spec fn extension(t: Target, s: Seq<char>) -> Option<Seq<char>> {
    match base_name_of(t, s) {
        Some(b) => name_extension(b),
        None => None,
    }
}

/// One of the lower-case extensions that name a video file.
pub open spec fn is_video_extension(e: Seq<char>) -> bool {
    ||| e == seq!['m', 'p', '4']
    ||| e == seq!['m', 'k', 'v']
    ||| e == seq!['a', 'v', 'i']
    ||| e == seq!['m', 'o', 'v']
    ||| e == seq!['f', 'l', 'v']
    ||| e == seq!['w', 'm', 'v']
}

pub open spec fn ascii_lower_char(c: char) -> char {
    if 'A' <= c && c <= 'Z' {
        ((c as u32) + 32) as char
    } else {
        c
    }
}

/// `s` with its ASCII capitals made small.
pub open spec fn ascii_lower(s: Seq<char>) -> Seq<char> {
    s.map_values(|c: char| ascii_lower_char(c))
}

/// The lower-case form of `s`, by the Unicode `Lowercase` property.
pub uninterp spec fn lower_of(s: Seq<char>) -> Seq<char>;

/// Relies on `str::to_lowercase`: its result depends on the characters alone,
/// and on ASCII text it makes `A`..`Z` small and keeps every other character.
#[verifier::external_body]
fn lowercase(s: &str) -> (r: String)
    ensures
        r@ == lower_of(s@),
        all_ascii(s@) ==> r@ == ascii_lower(s@),
{
    s.to_lowercase()
}

/// Whether `e` is one of the lower-case video extensions.
fn video_extension(e: &Vec<char>) -> (r: bool)
    ensures
        r == is_video_extension(e@),
{
    if e.len() != 3 {
        return false;
    }
    let (a, b, c) = (e[0], e[1], e[2]);
    assert(e@ =~= seq![a, b, c]);
    (a == 'm' && b == 'p' && c == '4') || (a == 'm' && b == 'k' && c == 'v') || (a == 'a' && b
        == 'v' && c == 'i') || (a == 'm' && b == 'o' && c == 'v') || (a == 'f' && b == 'l' && c
        == 'v') || (a == 'w' && b == 'm' && c == 'v')
}

/// Whether a single name has a video extension, in any case.
fn name_is_video(filename: &str) -> (r: bool)
    ensures
        r == (name_extension(filename@) matches Some(e) && is_video_extension(lower_of(e))),
        name_extension(filename@) matches Some(e) ==> (all_ascii(e) ==> r == is_video_extension(
            ascii_lower(e),
        )),
{
    let cs = chars_of(filename);
    let n = cs.len();
    let mut k: usize = n;
    assert(filename@.subrange(0, n as int) =~= filename@);
    while k > 0 && cs[k - 1] != '.'
        invariant
            k <= n,
            n == cs@.len(),
            cs@ == filename@,
            last_dot(filename@) == last_dot(filename@.subrange(0, k as int)),
        decreases k,
    {
        assert(filename@.subrange(0, k - 1) =~= filename@.subrange(0, k as int).drop_last());
        k = k - 1;
    }
    assert(last_dot(filename@) == k - 1);
    if k <= 1 {
        return false;
    }
    let ext = filename.substring_char(k, n);
    let lower = lowercase(ext);
    let lc = chars_of(lower.as_str());
    video_extension(&lc)
}

/// A file is a video file when the extension of its last name, taken
/// without regard to case, is mp4, mkv, avi, mov, flv or wmv.
pub fn is_video_file(t: Target, filename: &str) -> (r: bool)
    ensures
        r == (extension(t, filename@) matches Some(e) && is_video_extension(lower_of(e))),
        extension(t, filename@) matches Some(e) ==> (all_ascii(e) ==> r == is_video_extension(
            ascii_lower(e),
        )),
        extension(t, filename@) is None ==> !r,
{
    match base_name(t, filename) {
        Some(name) => name_is_video(name.as_str()),
        None => false,
    }
}

} // verus!
