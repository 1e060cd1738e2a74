//! Episodes and the season/episode tag that file names carry (`S01E02`).

use vstd::prelude::*;
use crate::text::{all_ascii, all_digits, is_digit, number_of, parse_decimal_u32};

verus! {

/// One video file of a season/episode series.
#[derive(Debug, PartialEq, Eq)]
pub struct Episode {
    pub season: u32,
    pub episode: u32,
    pub filename: String,
}

impl View for Episode {
    type V = (u32, u32, Seq<char>);

    open spec fn view(&self) -> (u32, u32, Seq<char>) {
        (self.season, self.episode, self.filename@)
    }
}

impl Episode {
    pub fn new(season: u32, episode: u32, filename: String) -> (r: Episode)
        ensures
            r.season == season,
            r.episode == episode,
            r.filename == filename,
    {
        Episode { season, episode, filename }
    }
}

pub open spec fn episode_view(e: Option<Episode>) -> Option<(u32, u32, Seq<char>)> {
    match e {
        Some(e) => Some(e@),
        None => None,
    }
}

pub open spec fn tag_view(t: Option<(String, String)>) -> Option<(Seq<char>, Seq<char>)> {
    match t {
        Some((a, b)) => Some((a@, b@)),
        None => None,
    }
}

/// The first index at or after `j` that does not hold an ASCII digit.
pub open spec fn digit_run_end(s: Seq<char>, j: int) -> int
    decreases s.len() - j,
{
    if 0 <= j < s.len() && is_digit(s[j]) {
        digit_run_end(s, j + 1)
    } else {
        j
    }
}

/// `S<digits>E<digits>` starts at `i` (ASCII digits).
pub open spec fn tag_starts_at(s: Seq<char>, i: int) -> bool {
    let e1 = digit_run_end(s, i + 1);
    &&& 0 <= i < s.len()
    &&& s[i] == 'S'
    &&& e1 > i + 1
    &&& e1 < s.len()
    &&& s[e1] == 'E'
    &&& digit_run_end(s, e1 + 1) > e1 + 1
}

/// The two digit groups of the tag that starts at `i`, each taken whole.
pub open spec fn tag_groups_at(s: Seq<char>, i: int) -> (Seq<char>, Seq<char>) {
    let e1 = digit_run_end(s, i + 1);
    let e2 = digit_run_end(s, e1 + 1);
    (s.subrange(i + 1, e1), s.subrange(e1 + 1, e2))
}

pub open spec fn first_tag_from(s: Seq<char>, i: int) -> Option<(Seq<char>, Seq<char>)>
    decreases s.len() - i,
{
    if i < 0 || i >= s.len() {
        None
    } else if tag_starts_at(s, i) {
        Some(tag_groups_at(s, i))
    } else {
        first_tag_from(s, i + 1)
    }
}

/// The digit groups of the leftmost season/episode tag of `s`.
pub open spec fn first_tag(s: Seq<char>) -> Option<(Seq<char>, Seq<char>)> {
    first_tag_from(s, 0)
}

/// `s` holds a season/episode tag made of ASCII digits somewhere.
pub open spec fn contains_tag(s: Seq<char>) -> bool {
    exists|i: int| tag_starts_at(s, i)
}

/// The text of a tag with digit groups `a` and `b`.
pub open spec fn tag_text(a: Seq<char>, b: Seq<char>) -> Seq<char> {
    seq!['S'] + a + seq!['E'] + b
}

pub open spec fn occurs_at(s: Seq<char>, i: int, t: Seq<char>) -> bool {
    0 <= i && i + t.len() <= s.len() && s.subrange(i, i + t.len()) == t
}

/// The episode that a file name gives, from the digit groups found in it.
pub open spec fn episode_of(name: Seq<char>, tag: Option<(Seq<char>, Seq<char>)>) -> Option<
    (u32, u32, Seq<char>),
> {
    match tag {
        Some((a, b)) => match (number_of(a), number_of(b)) {
            (Some(x), Some(y)) => Some((x, y, name)),
            _ => None,
        },
        None => None,
    }
}

/// What the pattern `S(\d+)E(\d+)` captures in `s` at its leftmost match
/// (`\d` being any Unicode decimal digit).
pub uninterp spec fn episode_tag(s: Seq<char>) -> Option<(Seq<char>, Seq<char>)>;

/// Relies on `regex::Regex::new` and `regex::Regex::captures`: the two groups
/// of the leftmost-first match of `S(\d+)E(\d+)`. On ASCII text `\d` is
/// `[0-9]` and greedy groups take whole digit runs; a match is a piece of the
/// haystack with non-empty groups.
#[verifier::external_body]
fn find_episode_tag(filename: &str) -> (r: Option<(String, String)>)
    ensures
        tag_view(r) == episode_tag(filename@),
        all_ascii(filename@) ==> tag_view(r) == first_tag(filename@),
        r matches Some(t) ==> t.0@.len() > 0 && t.1@.len() > 0 && exists|i: int|
            occurs_at(filename@, i, tag_text(t.0@, t.1@)),
{
    let re = regex::Regex::new(r"S(\d+)E(\d+)").unwrap();
    re.captures(filename).map(|c| (c[1].to_string(), c[2].to_string()))
}

proof fn lemma_run_end(s: Seq<char>, j: int, k: int)
    requires
        0 <= j <= k <= s.len(),
        forall|m: int| j <= m < k ==> is_digit(#[trigger] s[m]),
    ensures
        digit_run_end(s, j) >= k,
        k < s.len() && !is_digit(s[k]) ==> digit_run_end(s, j) == k,
    decreases k - j,
{
    if j < k {
        lemma_run_end(s, j + 1, k);
    } else {
        lemma_run_end_ge(s, j);
    }
}

proof fn lemma_run_end_ge(s: Seq<char>, j: int)
    ensures
        digit_run_end(s, j) >= j,
    decreases s.len() - j,
{
    if 0 <= j < s.len() && is_digit(s[j]) {
        lemma_run_end_ge(s, j + 1);
    }
}

/// A tag spelled with ASCII digit groups at `i` is a tag that starts there.
proof fn lemma_occurrence_is_tag(s: Seq<char>, i: int, a: Seq<char>, b: Seq<char>)
    requires
        a.len() > 0,
        b.len() > 0,
        all_digits(a),
        all_digits(b),
        occurs_at(s, i, tag_text(a, b)),
    ensures
        tag_starts_at(s, i),
{
    let t = tag_text(a, b);
    let e1 = i + 1 + a.len();
    assert forall|m: int| i + 1 <= m < e1 implies is_digit(#[trigger] s[m]) by {
        assert(s[m] == s.subrange(i, i + t.len())[m - i]);
        assert(t[m - i] == a[m - i - 1]);
    }
    assert(s[i] == s.subrange(i, i + t.len())[0]);
    assert(s[e1] == s.subrange(i, i + t.len())[e1 - i]);
    assert(t[e1 - i] == 'E');
    assert(!is_digit(s[e1]));
    lemma_run_end(s, i + 1, e1);
    assert forall|m: int| e1 + 1 <= m < e1 + 1 + b.len() implies is_digit(#[trigger] s[m]) by {
        assert(s[m] == s.subrange(i, i + t.len())[m - i]);
        assert(t[m - i] == b[m - e1 - 1]);
    }
    lemma_run_end(s, e1 + 1, e1 + 1 + b.len());
}

/// The episode that `filename` names, given the digit groups that were found
/// in it (`None`: no tag). Both groups must read as `u32` numbers.
pub fn episode_from_tag(filename: &str, tag: Option<(String, String)>) -> (r: Option<Episode>)
    ensures
        episode_view(r) == episode_of(filename@, tag_view(tag)),
{
    match tag {
        Some((a, b)) => {
            let season = parse_decimal_u32(a.as_str());
            let episode = parse_decimal_u32(b.as_str());
            match (season, episode) {
                (Some(season), Some(episode)) => Some(
                    Episode { season, episode, filename: filename.to_owned() },
                ),
                _ => None,
            }
        },
        None => None,
    }
}

/// Reads the season and episode of the leftmost `S<digits>E<digits>` tag
/// (upper-case letters only) of a file name.
pub fn parse_filename(filename: &str) -> (r: Option<Episode>)
    ensures
        episode_view(r) == episode_of(filename@, episode_tag(filename@)),
        !contains_tag(filename@) ==> r is None,
        all_ascii(filename@) ==> episode_view(r) == episode_of(filename@, first_tag(filename@)),
{
    let tag = find_episode_tag(filename);
    let ghost tv = tag_view(tag);
    proof {
        if let Some((a, b)) = tv {
            if number_of(a) is Some && number_of(b) is Some {
                let i = choose|i: int| occurs_at(filename@, i, tag_text(a, b));
                lemma_occurrence_is_tag(filename@, i, a, b);
            }
        }
    }
    episode_from_tag(filename, tag)
}

} // verus!
