//! Builds an ordered playlist from the video files of one directory whose
//! names carry a season/episode tag (`S01E02`), and the launcher script that
//! plays it when no player can be started directly.

pub mod episode;
pub mod filter;
pub mod order;
pub mod paths;
pub mod playlist;
pub mod run;
pub mod script;
pub mod text;
