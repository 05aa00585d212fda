//! The command-line settings and the choice of what to play.
use vstd::prelude::*;
use crate::feed;
use crate::player::MAX_VOLUME;

verus! {

/// The command-line settings: an optional track number, counted from the
/// oldest mix as 1, and the volume level from 0 to 9.
#[derive(Debug, Clone, Copy, PartialEq, Eq, Structural)]
pub struct Args {
    pub track_number: Option<u16>,
    pub volume: u8,
}

/// What to play for a given feed size.
#[derive(Debug, Clone, Copy, PartialEq, Eq, Structural)]
pub enum Selection {
    /// Play the episode at this position in the feed.
    Track(usize),
    /// The requested track number names no episode.
    NoSuchTrack(usize),
    /// No track was requested: play all episodes in random order.
    Shuffle,
}

impl Args {
    /// Whether the volume lies between 0 and 9.
    pub fn volume_is_valid(&self) -> (b: bool)
        ensures
            b == (self.volume <= MAX_VOLUME),
    {
        self.volume <= MAX_VOLUME
    }

    /// What to play from a feed of `total` episodes.
    pub fn select(&self, total: usize) -> (s: Selection)
        ensures
            match self.track_number {
                None => s == Selection::Shuffle,
                Some(n) => match feed::spec_track_index(n as usize, total) {
                    Some(i) => s == Selection::Track(i),
                    None => s == Selection::NoSuchTrack(n as usize),
                },
            },
    {
        match self.track_number {
            None => Selection::Shuffle,
            Some(n) => {
                let requested = n as usize;
                match feed::track_index(requested, total) {
                    Some(i) => Selection::Track(i),
                    None => Selection::NoSuchTrack(requested),
                }
            },
        }
    }
}

} // verus!
