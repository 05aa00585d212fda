//! A player for the music mixes of musicforprogramming.net: the feed model,
//! duration parsing and formatting, track selection and the playback state
//! machine.
pub mod args;
pub mod duration;
pub mod feed;
pub mod player;
pub mod text;
