use episode_playlist::episode::{episode_from_tag, parse_filename, Episode};
use episode_playlist::filter::is_video_file;
use episode_playlist::order::sort_episodes;
use episode_playlist::paths::Target;
use episode_playlist::text::parse_decimal_u32;

fn ep(season: u32, episode: u32, name: &str) -> Episode {
    Episode::new(season, episode, name.to_string())
}

#[test]
fn parses_season_and_episode() {
    let e = parse_filename("Show.S02E10.mkv").unwrap();
    assert_eq!(e.season, 2);
    assert_eq!(e.episode, 10);
    assert_eq!(e.filename, "Show.S02E10.mkv");
}

#[test]
fn lower_case_tag_is_no_match() {
    assert!(parse_filename("Show.s02e10.mkv").is_none());
}

#[test]
fn name_without_tag_is_no_match() {
    assert!(parse_filename("holiday.mp4").is_none());
    assert!(parse_filename("SE.mp4").is_none());
    assert!(parse_filename("S01E.mp4").is_none());
    assert!(parse_filename("").is_none());
}

#[test]
fn leftmost_tag_wins() {
    let e = parse_filename("S03E04 and S01E01.mp4").unwrap();
    assert_eq!((e.season, e.episode), (3, 4));
}

#[test]
fn tag_after_false_start() {
    let e = parse_filename("SS1E2xS7E8.avi").unwrap();
    assert_eq!((e.season, e.episode), (1, 2));
    let e = parse_filename("S1x.S7E8.avi").unwrap();
    assert_eq!((e.season, e.episode), (7, 8));
}

#[test]
fn leading_zeros_and_largest_number() {
    let e = parse_filename("S0004294967295E007.mp4").unwrap();
    assert_eq!((e.season, e.episode), (4294967295, 7));
}

#[test]
fn overflowing_number_is_no_match() {
    assert!(parse_filename("S4294967296E01.mp4").is_none());
    assert!(parse_filename("S01E99999999999.mp4").is_none());
}

#[test]
fn non_ascii_digits_are_no_match() {
    assert!(parse_filename("S\u{0661}E\u{0662}.mp4").is_none());
}

#[test]
fn episode_from_given_groups() {
    let e = episode_from_tag("x", Some(("12".to_string(), "3".to_string()))).unwrap();
    assert_eq!((e.season, e.episode), (12, 3));
    assert_eq!(e.filename, "x");
    assert!(episode_from_tag("x", None).is_none());
    assert!(episode_from_tag("x", Some(("1a".to_string(), "3".to_string()))).is_none());
    assert!(episode_from_tag("x", Some(("".to_string(), "3".to_string()))).is_none());
}

#[test]
fn decimal_numbers() {
    assert_eq!(parse_decimal_u32("0"), Some(0));
    assert_eq!(parse_decimal_u32("0042"), Some(42));
    assert_eq!(parse_decimal_u32("4294967295"), Some(4294967295));
    assert_eq!(parse_decimal_u32("4294967296"), None);
    assert_eq!(parse_decimal_u32(""), None);
    assert_eq!(parse_decimal_u32("+1"), None);
    assert_eq!(parse_decimal_u32("12a"), None);
}

#[test]
fn video_extensions_in_any_case() {
    for name in [
        "a.mp4", "a.mkv", "a.avi", "a.mov", "a.flv", "a.wmv", "a.MP4", "b.MkV", "x.y.WMV",
    ] {
        assert!(is_video_file(Target::Unix, name), "{}", name);
    }
}

#[test]
fn other_files_are_not_videos() {
    assert!(!is_video_file(Target::Unix, "notes.txt"));
    assert!(!is_video_file(Target::Unix, "noext"));
    assert!(!is_video_file(Target::Unix, ".mp4"));
    assert!(!is_video_file(Target::Unix, "movie.mp4.part"));
    assert!(!is_video_file(Target::Unix, "movie."));
    assert!(!is_video_file(Target::Unix, ""));
    assert!(!is_video_file(Target::Unix, "mp4"));
}

#[test]
fn extension_of_last_path_name() {
    assert!(is_video_file(Target::Unix, "a.mp4/"));
    assert!(is_video_file(Target::Unix, "shows/a.mp4/."));
    assert!(is_video_file(Target::Unix, "d.x/clip.Mkv"));
    assert!(!is_video_file(Target::Unix, "d.x/.mp4"));
    assert!(!is_video_file(Target::Unix, "d.mp4/clip"));
    assert!(!is_video_file(Target::Unix, "a.mp4/.."));
    assert!(is_video_file(Target::Windows, "shows\\a.AVI"));
    assert!(!is_video_file(Target::Windows, "a.mp4\\clip"));
}

#[test]
fn hidden_file_with_extension_is_checked() {
    assert!(is_video_file(Target::Unix, ".hidden.mkv"));
}

#[test]
fn sorts_by_season_then_episode() {
    let mut v = vec![ep(1, 2, "a"), ep(1, 1, "b"), ep(2, 1, "c")];
    sort_episodes(&mut v);
    assert_eq!(v, vec![ep(1, 1, "b"), ep(1, 2, "a"), ep(2, 1, "c")]);
}

#[test]
fn sorting_empty_and_single() {
    let mut v: Vec<Episode> = vec![];
    sort_episodes(&mut v);
    assert!(v.is_empty());
    let mut v = vec![ep(3, 3, "x")];
    sort_episodes(&mut v);
    assert_eq!(v, vec![ep(3, 3, "x")]);
}

#[test]
fn sorting_keeps_every_episode() {
    let mut v = vec![
        ep(10, 1, "j"),
        ep(2, 5, "e"),
        ep(2, 5, "f"),
        ep(1, 9, "z"),
        ep(2, 1, "a"),
    ];
    sort_episodes(&mut v);
    let keys: Vec<(u32, u32)> = v.iter().map(|e| (e.season, e.episode)).collect();
    assert_eq!(keys, vec![(1, 9), (2, 1), (2, 5), (2, 5), (10, 1)]);
    let mut names: Vec<&str> = v.iter().map(|e| e.filename.as_str()).collect();
    names.sort();
    assert_eq!(names, vec!["a", "e", "f", "j", "z"]);
}
