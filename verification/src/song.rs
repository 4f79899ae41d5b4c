//! The track a user interacts with: its names, its prepared sample
//! buffer, the playback cursor, and the playing flag.
//!
//! Reading the file, probing the device and persisting the cache are the
//! surrounding program's part; a `Song` is assembled from the values they
//! produce and from then on evolves by the verified transitions here.

use vstd::prelude::*;

use crate::playback::StreamAction;
use crate::playback::next_sample;
use crate::playback::spec_sample_at;
use crate::playback::spec_transition;
use crate::text::file_from_title;
use crate::text::spec_file_of;
use crate::text::spec_title_of;
use crate::text::title_from_file;

verus! {

/// The sample rate a track falls back to when its file cannot be read.
pub const FALLBACK_RATE: u32 = 44100;

/// One loaded track. An empty buffer stands for "no track selected".
pub struct Song {
    /// The display title, derived from the file name.
    pub title: String,
    /// The file name the track was loaded under.
    pub filename: String,
    /// Whether playback is running (the stream handle itself lives with
    /// the surrounding program).
    pub playing: bool,
    /// The prepared interleaved sample buffer, already at the target rate.
    pub audio_data: Vec<i16>,
    /// The playback cursor: the next buffer index the callback will read.
    pub position: usize,
    /// The rate the buffer is meant to be played at.
    pub final_sample_rate: u32,
}

impl Song {
    /// The track shown before anything is selected: stopped, with an empty
    /// buffer at the fallback rate.
    pub fn empty() -> (s: Song)
        ensures
            !s.playing,
            s.audio_data@.len() == 0,
            s.position == 0,
            s.title@.len() == 0,
            s.filename@.len() == 0,
            s.final_sample_rate == FALLBACK_RATE,
    {
        Song {
            title: String::new(),
            filename: String::new(),
            playing: false,
            audio_data: Vec::new(),
            position: 0,
            final_sample_rate: FALLBACK_RATE,
        }
    }

    /// Assembles a track from a prepared buffer: stopped, cursor at the
    /// start, title derived from the file name.
    pub fn new(filename: &str, audio_data: Vec<i16>, final_sample_rate: u32) -> (s: Song)
        ensures
            s.title@ == spec_title_of(filename@),
            s.filename@ == filename@,
            !s.playing,
            s.audio_data@ == audio_data@,
            s.position == 0,
            s.final_sample_rate == final_sample_rate,
    {
        Song {
            title: title_from_file(filename),
            filename: filename.to_owned(),
            playing: false,
            audio_data,
            position: 0,
            final_sample_rate,
        }
    }

    /// The display title for a file name.
    pub fn get_title_from_file(song_file_name: &str) -> (title: String)
        ensures
            title@ == spec_title_of(song_file_name@),
    {
        title_from_file(song_file_name)
    }

    /// The file name for a display title.
    pub fn get_file_from_title(title: &str) -> (name: String)
        ensures
            name@ == spec_file_of(title@),
    {
        file_from_title(title)
    }

    /// Applies a play/pause request: the flag follows the request, nothing
    /// else changes, and the returned action tells the caller what to do
    /// with the device stream (repeated requests are no-ops).
    pub fn update(&mut self, should_play: bool) -> (a: StreamAction)
        ensures
            a == spec_transition(old(self).playing, should_play),
            final(self).playing == should_play,
            final(self).title == old(self).title,
            final(self).filename == old(self).filename,
            final(self).audio_data == old(self).audio_data,
            final(self).position == old(self).position,
            final(self).final_sample_rate == old(self).final_sample_rate,
    {
        let a = if should_play && !self.playing {
            StreamAction::OpenStream
        } else if !should_play && self.playing {
            StreamAction::ReleaseStream
        } else {
            StreamAction::NoChange
        };
        self.playing = should_play;
        a
    }

    /// Whether the track is currently playing.
    pub fn is_playing(&self) -> (r: bool)
        ensures
            r == self.playing,
    {
        self.playing
    }

    /// Whether the track has no audio data.
    pub fn is_empty(&self) -> (r: bool)
        ensures
            r == (self.audio_data@.len() == 0),
    {
        self.audio_data.len() == 0
    }

    /// Reads the sample at the cursor (silence past the end) and advances
    /// the cursor by one.
    pub fn next_sample(&mut self) -> (s: i16)
        requires
            old(self).position < usize::MAX,
        ensures
            s == spec_sample_at(old(self).audio_data@, old(self).position as int, 0i16),
            final(self).position == old(self).position + 1,
            final(self).title == old(self).title,
            final(self).filename == old(self).filename,
            final(self).playing == old(self).playing,
            final(self).audio_data == old(self).audio_data,
            final(self).final_sample_rate == old(self).final_sample_rate,
    {
        next_sample(&self.audio_data, 0, &mut self.position)
    }
}

} // verus!
