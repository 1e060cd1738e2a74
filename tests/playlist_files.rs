use episode_playlist::episode::Episode;
use episode_playlist::order::sort_episodes;
use episode_playlist::paths::{base_name, join_path, Target};
use episode_playlist::playlist::{collect_episodes, playlist_contents, playlist_file_name, playlist_path};
use episode_playlist::run::{next_action, Action, Event, Outcome};
use episode_playlist::script::{script_contents, script_name, script_path};

fn names(v: &[&str]) -> Vec<String> {
    v.iter().map(|s| s.to_string()).collect()
}

#[test]
fn end_to_end_playlist() {
    let listing = names(&["Show.S01E02.mp4", "readme.txt", "Show.S01E01.mp4"]);
    let mut eps = collect_episodes(Target::Unix, &listing);
    sort_episodes(&mut eps);
    assert_eq!(
        playlist_path(Target::Unix, "files").unwrap(),
        "files/files_playlist.txt"
    );
    assert_eq!(
        playlist_contents(Target::Unix, "files", &eps),
        "files/Show.S01E01.mp4\nfiles/Show.S01E02.mp4\n"
    );
}

#[test]
fn collect_keeps_listing_order_and_drops_others() {
    let listing = names(&[
        "b.S02E01.mkv",
        "notes.txt",
        "a.S01E01.avi",
        "clip.mp4",
        "x.S01E01.txt",
        "low.s01e01.mp4",
    ]);
    let eps = collect_episodes(Target::Unix, &listing);
    assert_eq!(
        eps,
        vec![
            Episode::new(2, 1, "b.S02E01.mkv".to_string()),
            Episode::new(1, 1, "a.S01E01.avi".to_string()),
        ]
    );
    assert!(collect_episodes(Target::Unix, &vec![]).is_empty());
}

#[test]
fn empty_playlist_text() {
    assert_eq!(playlist_contents(Target::Unix, "files", &vec![]), "");
}

#[test]
fn joining_paths() {
    assert_eq!(join_path(Target::Unix, "files", "a.mp4"), "files/a.mp4");
    assert_eq!(join_path(Target::Unix, "files/", "a.mp4"), "files/a.mp4");
    assert_eq!(join_path(Target::Unix, "", "a.mp4"), "a.mp4");
    assert_eq!(join_path(Target::Unix, "files", "/abs"), "/abs");
    assert_eq!(join_path(Target::Windows, "files", "a.mp4"), "files\\a.mp4");
    assert_eq!(join_path(Target::Windows, "files/", "a.mp4"), "files/a.mp4");
}

#[test]
fn last_names_of_directories() {
    assert_eq!(base_name(Target::Unix, "files").as_deref(), Some("files"));
    assert_eq!(base_name(Target::Unix, "./files").as_deref(), Some("files"));
    assert_eq!(base_name(Target::Unix, "/media/shows/").as_deref(), Some("shows"));
    assert_eq!(base_name(Target::Unix, "shows/.").as_deref(), Some("shows"));
    assert_eq!(base_name(Target::Unix, "a//b//"), Some("b".to_string()));
    assert_eq!(base_name(Target::Windows, "C:\\tv\\show"), Some("show".to_string()));
    assert_eq!(base_name(Target::Unix, "."), None);
    assert_eq!(base_name(Target::Unix, ".."), None);
    assert_eq!(base_name(Target::Unix, "a/.."), None);
    assert_eq!(base_name(Target::Unix, "/"), None);
    assert_eq!(base_name(Target::Unix, ""), None);
}

#[test]
fn playlist_names() {
    assert_eq!(
        playlist_file_name(Target::Unix, "./files").unwrap(),
        "files_playlist.txt"
    );
    assert_eq!(
        playlist_path(Target::Unix, "./files").unwrap(),
        "./files/files_playlist.txt"
    );
    assert!(playlist_path(Target::Unix, ".").is_none());
}

#[test]
fn unix_launcher_script() {
    assert_eq!(script_name(Target::Unix), "play_playlist.sh");
    assert_eq!(script_path(Target::Unix, "files"), "files/play_playlist.sh");
    assert_eq!(
        script_contents(Target::Unix, "files/files_playlist.txt"),
        "#!/bin/bash\nmpv --playlist=\"files/files_playlist.txt\"\n"
    );
    assert_eq!(
        next_action(Target::Unix, Event::PlayerStarted(false)),
        Action::WriteScript { make_executable: true }
    );
}

#[test]
fn windows_launcher_script() {
    assert_eq!(script_name(Target::Windows), "play_playlist.bat");
    assert_eq!(
        script_contents(Target::Windows, "files\\files_playlist.txt"),
        "@echo off\nmpv --playlist=\"files\\files_playlist.txt\"\n"
    );
    assert_eq!(
        next_action(Target::Windows, Event::PlayerStarted(false)),
        Action::WriteScript { make_executable: false }
    );
}

#[test]
fn missing_directory_stops_the_run() {
    assert_eq!(
        next_action(Target::Unix, Event::DirectoryChecked(false)),
        Action::Stop(Outcome::MissingDirectory)
    );
}

#[test]
fn existing_playlist_is_kept() {
    assert_eq!(
        next_action(Target::Unix, Event::PlaylistLookedUp(true)),
        Action::StartPlayer
    );
    assert_eq!(
        next_action(Target::Unix, Event::PlaylistLookedUp(false)),
        Action::WritePlaylist
    );
}

#[test]
fn course_of_a_run() {
    let t = Target::Unix;
    assert_eq!(next_action(t, Event::Started), Action::CheckDirectory);
    assert_eq!(next_action(t, Event::DirectoryChecked(true)), Action::ListDirectory);
    assert_eq!(next_action(t, Event::DirectoryListed(true)), Action::LookUpPlaylist);
    assert_eq!(
        next_action(t, Event::DirectoryListed(false)),
        Action::Stop(Outcome::ListingFailed)
    );
    assert_eq!(next_action(t, Event::PlaylistWritten(true)), Action::StartPlayer);
    assert_eq!(
        next_action(t, Event::PlaylistWritten(false)),
        Action::Stop(Outcome::PlaylistFailed)
    );
    assert_eq!(
        next_action(t, Event::PlayerStarted(true)),
        Action::Stop(Outcome::Playing)
    );
    assert_eq!(
        next_action(t, Event::ScriptWritten(true)),
        Action::Stop(Outcome::ScriptCreated)
    );
    assert_eq!(
        next_action(t, Event::ScriptWritten(false)),
        Action::Stop(Outcome::ScriptFailed)
    );
}
