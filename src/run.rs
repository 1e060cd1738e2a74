//! The course of one run, as decisions: given what the last step found, the
//! next step to take. The steps themselves (looking at the file system,
//! writing files, starting the player) are the caller's.

use vstd::prelude::*;
use crate::paths::Target;

verus! {

/// How a run ended.
#[derive(Clone, Copy, Debug, PartialEq, Eq, Structural)]
pub enum Outcome {
    /// The player was started on the playlist.
    Playing,
    /// The player could not be started; a launcher script was written.
    ScriptCreated,
    /// The directory named does not exist.
    MissingDirectory,
    /// The directory could not be listed.
    ListingFailed,
    /// The playlist could not be written.
    PlaylistFailed,
    /// The launcher script could not be written.
    ScriptFailed,
}

/// What the last step found.
#[derive(Clone, Copy, Debug, PartialEq, Eq, Structural)]
pub enum Event {
    /// The run begins.
    Started,
    /// Whether the path names a directory.
    DirectoryChecked(bool),
    /// Whether the directory could be listed.
    DirectoryListed(bool),
    /// Whether the playlist file is there already.
    PlaylistLookedUp(bool),
    /// Whether writing the playlist succeeded.
    PlaylistWritten(bool),
    /// Whether the player could be started.
    PlayerStarted(bool),
    /// Whether writing the launcher script succeeded.
    ScriptWritten(bool),
}

/// The next step.
#[derive(Clone, Copy, Debug, PartialEq, Eq, Structural)]
pub enum Action {
    CheckDirectory,
    ListDirectory,
    LookUpPlaylist,
    WritePlaylist,
    StartPlayer,
    /// Write the launcher script, then mark it executable where asked.
    WriteScript { make_executable: bool },
    Stop(Outcome),
}

pub open spec fn next_step(t: Target, e: Event) -> Action {
    match e {
        Event::Started => Action::CheckDirectory,
        Event::DirectoryChecked(is_dir) => if is_dir {
            Action::ListDirectory
        } else {
            Action::Stop(Outcome::MissingDirectory)
        },
        Event::DirectoryListed(ok) => if ok {
            Action::LookUpPlaylist
        } else {
            Action::Stop(Outcome::ListingFailed)
        },
        Event::PlaylistLookedUp(exists) => if exists {
            Action::StartPlayer
        } else {
            Action::WritePlaylist
        },
        Event::PlaylistWritten(ok) => if ok {
            Action::StartPlayer
        } else {
            Action::Stop(Outcome::PlaylistFailed)
        },
        Event::PlayerStarted(ok) => if ok {
            Action::Stop(Outcome::Playing)
        } else {
            Action::WriteScript { make_executable: t == Target::Unix }
        },
        Event::ScriptWritten(ok) => if ok {
            Action::Stop(Outcome::ScriptCreated)
        } else {
            Action::Stop(Outcome::ScriptFailed)
        },
    }
}

/// Steps that write a file.
pub open spec fn writes_file(a: Action) -> bool {
    a is WritePlaylist || a is WriteScript
}

/// Running twice on an unchanged directory writes the playlist once: a run
/// that finds no playlist writes it, a run that finds one goes straight to
/// the player, and no later step of that run writes a playlist.
pub proof fn lemma_playlist_written_once(t: Target)
    ensures
        next_step(t, Event::PlaylistLookedUp(false)) == Action::WritePlaylist,
        next_step(t, Event::PlaylistLookedUp(true)) == Action::StartPlayer,
        !writes_file(next_step(t, Event::PlayerStarted(true))),
        next_step(t, Event::PlayerStarted(false)) != Action::WritePlaylist,
        !writes_file(next_step(t, Event::ScriptWritten(true))),
        !writes_file(next_step(t, Event::ScriptWritten(false))),
{
}

/// The step that follows `e`. A missing directory or a failed listing ends
/// the run before anything is written; a playlist that is there already is
/// never written again; a script is written only when the player could not
/// be started.
pub fn next_action(t: Target, e: Event) -> (r: Action)
    ensures
        r == next_step(t, e),
        e == Event::DirectoryChecked(false) ==> r == Action::Stop(Outcome::MissingDirectory),
        e == Event::DirectoryListed(false) ==> r == Action::Stop(Outcome::ListingFailed),
        writes_file(r) ==> e == Event::PlaylistLookedUp(false) || e == Event::PlayerStarted(false),
{
    match e {
        Event::Started => Action::CheckDirectory,
        Event::DirectoryChecked(is_dir) => if is_dir {
            Action::ListDirectory
        } else {
            Action::Stop(Outcome::MissingDirectory)
        },
        Event::DirectoryListed(ok) => if ok {
            Action::LookUpPlaylist
        } else {
            Action::Stop(Outcome::ListingFailed)
        },
        Event::PlaylistLookedUp(exists) => if exists {
            Action::StartPlayer
        } else {
            Action::WritePlaylist
        },
        Event::PlaylistWritten(ok) => if ok {
            Action::StartPlayer
        } else {
            Action::Stop(Outcome::PlaylistFailed)
        },
        Event::PlayerStarted(ok) => if ok {
            Action::Stop(Outcome::Playing)
        } else {
            let unix = match t {
                Target::Unix => true,
                Target::Windows => false,
            };
            Action::WriteScript { make_executable: unix }
        },
        Event::ScriptWritten(ok) => if ok {
            Action::Stop(Outcome::ScriptCreated)
        } else {
            Action::Stop(Outcome::ScriptFailed)
        },
    }
}

} // verus!
