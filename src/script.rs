//! The launcher script: a two-line file that starts the player on the
//! playlist, for when the player cannot be started directly.

use vstd::prelude::*;
use vstd::string::*;
use crate::paths::{join_path, joined, Target};

verus! {

pub open spec fn script_name_of(t: Target) -> Seq<char> {
    match t {
        Target::Unix => "play_playlist.sh"@,
        Target::Windows => "play_playlist.bat"@,
    }
}

/// The first line of a launcher script.
pub open spec fn script_header(t: Target) -> Seq<char> {
    match t {
        Target::Unix => "#!/bin/bash"@,
        Target::Windows => "@echo off"@,
    }
}

/// The script text: the header line, then one line that starts the player
/// on the quoted playlist path.
pub open spec fn script_text(t: Target, playlist: Seq<char>) -> Seq<char> {
    script_header(t) + "\n"@ + "mpv --playlist=\""@ + playlist + "\"\n"@
}

/// The launcher script's file name.
pub fn script_name(t: Target) -> (r: &'static str)
    ensures
        r@ == script_name_of(t),
{
    match t {
        Target::Unix => "play_playlist.sh",
        Target::Windows => "play_playlist.bat",
    }
}

/// Where the launcher script for `dir` lies.
pub fn script_path(t: Target, dir: &str) -> (r: String)
    ensures
        r@ == joined(t, dir@, script_name_of(t)),
{
    join_path(t, dir, script_name(t))
}

/// The launcher script's text for the playlist at `playlist`.
pub fn script_contents(t: Target, playlist: &str) -> (r: String)
    ensures
        r@ == script_text(t, playlist@),
{
    let mut r = match t {
        Target::Unix => "#!/bin/bash".to_owned(),
        Target::Windows => "@echo off".to_owned(),
    };
    r.append("\n");
    r.append("mpv --playlist=\"");
    r.append(playlist);
    r.append("\"\n");
    r
}

} // verus!
