//! Gathering the episodes of a directory listing and writing them out as a
//! playlist: one path per line, in the order given.

use vstd::prelude::*;
use vstd::string::*;
use crate::episode::{episode_of, episode_tag, parse_filename, Episode};
use crate::filter::{extension, is_video_extension, is_video_file, lower_of};
use crate::paths::{base_name, base_name_of, join_path, joined, Target};

verus! {

pub open spec fn names_view(v: Seq<String>) -> Seq<Seq<char>> {
    v.map_values(|s: String| s@)
}

pub open spec fn episodes_view(v: Seq<Episode>) -> Seq<(u32, u32, Seq<char>)> {
    v.map_values(|e: Episode| e@)
}

/// A file name with a video extension (in any case).
pub open spec fn is_video_name(t: Target, s: Seq<char>) -> bool {
    extension(t, s) matches Some(e) && is_video_extension(lower_of(e))
}

/// The episodes that the names of a directory listing give, in listing
/// order: each video file name with a readable season/episode tag.
pub open spec fn scanned(t: Target, names: Seq<Seq<char>>) -> Seq<(u32, u32, Seq<char>)>
    decreases names.len(),
{
    if names.len() == 0 {
        seq![]
    } else {
        let rest = scanned(t, names.drop_last());
        let n = names.last();
        match episode_of(n, episode_tag(n)) {
            Some(e) => if is_video_name(t, n) {
                rest.push(e)
            } else {
                rest
            },
            None => rest,
        }
    }
}

/// The playlist's file name for a directory: its last name and
/// `_playlist.txt`.
pub open spec fn playlist_name_of(t: Target, dir: Seq<char>) -> Option<Seq<char>> {
    match base_name_of(t, dir) {
        Some(b) => Some(b + "_playlist.txt"@),
        None => None,
    }
}

/// The playlist text: for each episode its path under `dir` and a newline.
pub open spec fn playlist_text(t: Target, dir: Seq<char>, eps: Seq<Episode>) -> Seq<char>
    decreases eps.len(),
{
    if eps.len() == 0 {
        seq![]
    } else {
        playlist_text(t, dir, eps.drop_last()) + joined(t, dir, eps.last().filename@) + seq![
            '\n',
        ]
    }
}

/// The episodes among the names of a directory listing, in listing order.
pub fn collect_episodes(t: Target, names: &Vec<String>) -> (r: Vec<Episode>)
    ensures
        episodes_view(r@) == scanned(t, names_view(names@)),
{
    let mut r: Vec<Episode> = Vec::new();
    let mut i: usize = 0;
    while i < names.len()
        invariant
            i <= names@.len(),
            episodes_view(r@) == scanned(t, names_view(names@).subrange(0, i as int)),
        decreases names@.len() - i,
    {
        let ghost before = r@;
        let name = names[i].as_str();
        let ghost pre = names_view(names@).subrange(0, i + 1);
        assert(pre.drop_last() =~= names_view(names@).subrange(0, i as int));
        assert(pre.last() == name@);
        if is_video_file(t, name) {
            if let Some(e) = parse_filename(name) {
                r.push(e);
                assert(episodes_view(r@) =~= episodes_view(before).push(e@));
            }
        }
        i = i + 1;
    }
    assert(names_view(names@).subrange(0, names@.len() as int) =~= names_view(names@));
    r
}

/// The file name of the playlist for `dir`, if `dir` has a last name.
pub fn playlist_file_name(t: Target, dir: &str) -> (r: Option<String>)
    ensures
        r matches Some(s) ==> playlist_name_of(t, dir@) == Some(s@),
        r is None ==> playlist_name_of(t, dir@) is None,
{
    match base_name(t, dir) {
        Some(b) => {
            let mut s = b;
            s.append("_playlist.txt");
            Some(s)
        },
        None => None,
    }
}

/// Where the playlist for `dir` lies: its file name under `dir`.
pub fn playlist_path(t: Target, dir: &str) -> (r: Option<String>)
    ensures
        r matches Some(p) ==> playlist_name_of(t, dir@) matches Some(n) && p@ == joined(
            t,
            dir@,
            n,
        ),
        r is None ==> playlist_name_of(t, dir@) is None,
{
    match playlist_file_name(t, dir) {
        Some(n) => Some(join_path(t, dir, n.as_str())),
        None => None,
    }
}

/// The playlist text for `episodes` in `dir`: each one's path, on a line of
/// its own, in the order given.
pub fn playlist_contents(t: Target, dir: &str, episodes: &Vec<Episode>) -> (r: String)
    ensures
        r@ == playlist_text(t, dir@, episodes@),
{
    let mut r = String::new();
    let mut i: usize = 0;
    while i < episodes.len()
        invariant
            i <= episodes@.len(),
            r@ == playlist_text(t, dir@, episodes@.subrange(0, i as int)),
        decreases episodes@.len() - i,
    {
        let line = join_path(t, dir, episodes[i].filename.as_str());
        r.append(line.as_str());
        proof {
            reveal_strlit("\n");
        }
        r.append("\n");
        let ghost pre = episodes@.subrange(0, i + 1);
        assert(pre.drop_last() =~= episodes@.subrange(0, i as int));
        i = i + 1;
        assert(r@ =~= playlist_text(t, dir@, episodes@.subrange(0, i as int)));
    }
    assert(episodes@.subrange(0, episodes@.len() as int) =~= episodes@);
    r
}

} // verus!
