//! File paths as text: joining a directory and a name, and the last name of
//! a directory path, after the conventions of the platform in use.

use vstd::prelude::*;
use vstd::string::*;
use crate::text::chars_of;

verus! {

/// The platform whose path and script conventions apply.
#[derive(Clone, Copy, Debug, PartialEq, Eq, Structural)]
pub enum Target {
    /// `/` separates names; launcher scripts are shell scripts.
    Unix,
    /// `\` and `/` separate names; launcher scripts are batch files.
    Windows,
}

pub open spec fn is_separator(t: Target, c: char) -> bool {
    match t {
        Target::Unix => c == '/',
        Target::Windows => c == '/' || c == '\\',
    }
}

/// The separator that joining puts between a directory and a name.
pub open spec fn main_separator(t: Target) -> char {
    match t {
        Target::Unix => '/',
        Target::Windows => '\\',
    }
}

/// `name` under `dir`. A name that starts with a separator stands alone; a
/// separator is put in between unless `dir` is empty or already ends in one.
pub open spec fn joined(t: Target, dir: Seq<char>, name: Seq<char>) -> Seq<char> {
    if name.len() > 0 && is_separator(t, name[0]) {
        name
    } else if dir.len() == 0 || is_separator(t, dir.last()) {
        dir + name
    } else {
        dir + seq![main_separator(t)] + name
    }
}

/// Start of the name that holds the character at `j`: just after the
/// nearest separator before `j`, or 0.
pub open spec fn name_start(t: Target, s: Seq<char>, j: int) -> int
    decreases j,
{
    if j <= 0 {
        0
    } else if is_separator(t, s[j - 1]) {
        j
    } else {
        name_start(t, s, j - 1)
    }
}

/// The last name of the path `s.subrange(0, end)`, where trailing separators
/// and `.` names are passed over; a path that ends in `..`, or that holds no
/// name, has none.
pub open spec fn base_name_upto(t: Target, s: Seq<char>, end: int) -> Option<Seq<char>>
    decreases end,
{
    if end <= 0 || end > s.len() {
        None
    } else if is_separator(t, s[end - 1]) {
        base_name_upto(t, s, end - 1)
    } else {
        let name = s.subrange(name_start(t, s, end - 1), end);
        if name == seq!['.'] {
            base_name_upto(t, s, end - 1)
        } else if name == seq!['.', '.'] {
            None
        } else {
            Some(name)
        }
    }
}

pub open spec fn base_name_of(t: Target, s: Seq<char>) -> Option<Seq<char>> {
    base_name_upto(t, s, s.len() as int)
}

fn separator_at(t: Target, c: char) -> (r: bool)
    ensures
        r == is_separator(t, c),
{
    match t {
        Target::Unix => c == '/',
        Target::Windows => c == '/' || c == '\\',
    }
}

/// `name` joined under `dir`.
pub fn join_path(t: Target, dir: &str, name: &str) -> (r: String)
    ensures
        r@ == joined(t, dir@, name@),
{
    let n = dir.unicode_len();
    if name.unicode_len() > 0 && separator_at(t, name.get_char(0)) {
        return name.to_owned();
    }
    let mut r = dir.to_owned();
    if !(n == 0 || separator_at(t, dir.get_char(n - 1))) {
        match t {
            Target::Unix => {
                proof {
                    reveal_strlit("/");
                }
                r.append("/");
            },
            Target::Windows => {
                proof {
                    reveal_strlit("\\");
                }
                r.append("\\");
            },
        }
    }
    r.append(name);
    r
}

/// The last name of a directory path (`shows` for `media/shows/`), if it
/// has one.
pub fn base_name(t: Target, dir: &str) -> (r: Option<String>)
    ensures
        r matches Some(s) ==> base_name_of(t, dir@) == Some(s@),
        r is None ==> base_name_of(t, dir@) is None,
{
    let cs = chars_of(dir);
    let mut end: usize = cs.len();
    loop
        invariant
            cs@ == dir@,
            end <= cs@.len(),
            base_name_of(t, dir@) == base_name_upto(t, dir@, end as int),
        decreases end,
    {
        if end == 0 {
            return None;
        }
        if separator_at(t, cs[end - 1]) {
            end = end - 1;
        } else {
            let mut k: usize = end - 1;
            while k > 0 && !separator_at(t, cs[k - 1])
                invariant
                    cs@ == dir@,
                    k < end <= cs@.len(),
                    name_start(t, dir@, end - 1) == name_start(t, dir@, k as int),
                decreases k,
            {
                k = k - 1;
            }
            assert(name_start(t, dir@, k as int) == k);
            let ghost name = dir@.subrange(k as int, end as int);
            if end - k == 1 && cs[k] == '.' {
                assert(name =~= seq!['.']);
                end = end - 1;
            } else if end - k == 2 && cs[k] == '.' && cs[k + 1] == '.' {
                assert(name =~= seq!['.', '.']);
                return None;
            } else {
                assert(name != seq!['.']) by {
                    if name == seq!['.'] {
                        assert(name.len() == 1);
                        assert(seq!['.'][0] == '.');
                        assert(name[0] == cs@[k as int]);
                    }
                }
                assert(name != seq!['.', '.']) by {
                    if name == seq!['.', '.'] {
                        assert(name.len() == 2);
                        assert(seq!['.', '.'][0] == '.');
                        assert(seq!['.', '.'][1] == '.');
                        assert(name[0] == cs@[k as int]);
                        assert(name[1] == cs@[k + 1]);
                    }
                }
                return Some(dir.substring_char(k, end).to_owned());
            }
        }
    }
}

} // verus!
