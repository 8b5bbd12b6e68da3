//! A terminal YouTube client's decision logic: parsing what `yt-dlp`
//! prints, building the command lines handed to the player, reading the
//! user's menu choices, and the playback queue that moves from one video to
//! the next.

pub mod text;
pub mod title;
pub mod quality;
pub mod queue;
pub mod prompt;
pub mod browse;
pub mod ytdlp;
pub mod player;
pub mod setup;
