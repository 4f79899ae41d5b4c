//! Playback semantics: the cursor over a shared sample buffer, and the
//! play/pause transitions that open and release the device stream.
//!
//! The device callback reads one sample per output slot at the cursor and
//! advances it; past the end of the buffer it reads silence, and the
//! stream is never closed on its own at end of track.

use vstd::prelude::*;

verus! {

/// What the control thread must do to the device stream after a play/pause
/// request.
#[derive(Clone, Copy, Debug, PartialEq, Eq, Structural)]
pub enum StreamAction {
    /// Open a stream at the track's target rate, bind it to the shared
    /// buffer and cursor, and start it.
    OpenStream,
    /// Stop the stream and release its handle.
    ReleaseStream,
    /// Leave the stream as it is.
    NoChange,
}

/// The transition table: opening only from stopped to playing, releasing
/// only from playing to stopped, and both requests idempotent.
pub open spec fn spec_transition(playing: bool, should_play: bool) -> StreamAction {
    if should_play && !playing {
        StreamAction::OpenStream
    } else if !should_play && playing {
        StreamAction::ReleaseStream
    } else {
        StreamAction::NoChange
    }
}

/// Exec form of [`spec_transition`].
pub fn playback_transition(playing: bool, should_play: bool) -> (a: StreamAction)
    ensures
        a == spec_transition(playing, should_play),
{
    if should_play && !playing {
        StreamAction::OpenStream
    } else if !should_play && playing {
        StreamAction::ReleaseStream
    } else {
        StreamAction::NoChange
    }
}

/// The sample an output slot receives for a given cursor value: the buffer
/// at the cursor while in range, silence from there on.
pub open spec fn spec_sample_at<T>(buffer: Seq<T>, cursor: int, silence: T) -> T {
    if 0 <= cursor < buffer.len() {
        buffer[cursor]
    } else {
        silence
    }
}

/// Every cursor position at or past the end of the buffer yields exactly
/// the silence value — never an out-of-bounds read.
pub proof fn lemma_silence_past_end<T>(buffer: Seq<T>, cursor: int, silence: T)
    requires
        cursor >= buffer.len(),
    ensures
        spec_sample_at(buffer, cursor, silence) == silence,
{
}

/// Reads the sample for the current cursor value and advances the cursor
/// by one: what the device callback does for each output slot.
pub fn next_sample<T: Copy>(buffer: &Vec<T>, silence: T, cursor: &mut usize) -> (s: T)
    requires
        *old(cursor) < usize::MAX,
    ensures
        s == spec_sample_at(buffer@, *old(cursor) as int, silence),
        *final(cursor) == *old(cursor) + 1,
{
    let s = if *cursor < buffer.len() {
        buffer[*cursor]
    } else {
        silence
    };
    *cursor += 1;
    s
}

/// Fills one callback-sized output block: `count` samples read at
/// successive cursor positions, the cursor advanced past them.
pub fn fill_block<T: Copy>(buffer: &Vec<T>, silence: T, cursor: &mut usize, count: usize) -> (out:
    Vec<T>)
    requires
        *old(cursor) + count <= usize::MAX,
    ensures
        out@.len() == count,
        forall|i: int|
            0 <= i < count ==> #[trigger] out@[i] == spec_sample_at(
                buffer@,
                *old(cursor) + i,
                silence,
            ),
        *final(cursor) == *old(cursor) + count,
{
    let mut out: Vec<T> = Vec::new();
    let mut i: usize = 0;
    while i < count
        invariant
            0 <= i <= count,
            *old(cursor) + count <= usize::MAX,
            *cursor == *old(cursor) + i,
            out@.len() == i,
            forall|k: int|
                0 <= k < i ==> #[trigger] out@[k] == spec_sample_at(
                    buffer@,
                    *old(cursor) + k,
                    silence,
                ),
        decreases count - i,
    {
        let s = next_sample(buffer, silence, cursor);
        out.push(s);
        i += 1;
    }
    out
}

} // verus!
