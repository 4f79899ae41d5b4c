use music_core::playback::fill_block;
use music_core::playback::next_sample;
use music_core::playback::playback_transition;
use music_core::playback::StreamAction;
use music_core::song::Song;

#[test]
fn cursor_past_end_yields_silence() {
    let buffer: Vec<i16> = vec![11, 22, 33, 44];
    for start in [4usize, 5, 100] {
        let mut cursor = start;
        let s = next_sample(&buffer, 0i16, &mut cursor);
        assert_eq!(s, 0);
        assert_eq!(cursor, start + 1);
    }
}

#[test]
fn block_across_the_end_pads_with_silence() {
    let buffer: Vec<i16> = vec![11, 22, 33, 44];
    let mut cursor = 2usize;
    let out = fill_block(&buffer, 0i16, &mut cursor, 5);
    assert_eq!(out, vec![33, 44, 0, 0, 0]);
    assert_eq!(cursor, 7);
}

#[test]
fn block_within_the_buffer_reads_it() {
    let buffer: Vec<i16> = vec![1, 2, 3, 4, 5, 6];
    let mut cursor = 0usize;
    assert_eq!(fill_block(&buffer, 0i16, &mut cursor, 3), vec![1, 2, 3]);
    assert_eq!(fill_block(&buffer, 0i16, &mut cursor, 3), vec![4, 5, 6]);
    assert_eq!(cursor, 6);
}

#[test]
fn silence_value_is_generic() {
    let buffer: Vec<u8> = vec![9];
    let mut cursor = 1usize;
    assert_eq!(next_sample(&buffer, 7u8, &mut cursor), 7);
}

#[test]
fn transition_table() {
    assert_eq!(playback_transition(false, true), StreamAction::OpenStream);
    assert_eq!(playback_transition(true, true), StreamAction::NoChange);
    assert_eq!(playback_transition(true, false), StreamAction::ReleaseStream);
    assert_eq!(playback_transition(false, false), StreamAction::NoChange);
}

#[test]
fn song_update_follows_the_table() {
    let mut song = Song::new("my-song.wav", vec![1, -1, 2, -2], 48000);
    assert!(!song.is_playing());
    assert_eq!(song.update(true), StreamAction::OpenStream);
    assert!(song.is_playing());
    assert_eq!(song.update(true), StreamAction::NoChange);
    assert_eq!(song.update(false), StreamAction::ReleaseStream);
    assert!(!song.is_playing());
    assert_eq!(song.update(false), StreamAction::NoChange);
}

#[test]
fn empty_song_is_empty_and_stopped() {
    let song = Song::empty();
    assert!(song.is_empty());
    assert!(!song.is_playing());
    assert_eq!(song.title, "");
    assert_eq!(song.filename, "");
    assert_eq!(song.final_sample_rate, 44100);
}

#[test]
fn new_song_derives_its_title() {
    let song = Song::new("test-tone.wav", vec![1, 2], 48000);
    assert_eq!(song.title, "Test Tone");
    assert_eq!(song.filename, "test-tone.wav");
    assert!(!song.is_empty());
    assert_eq!(song.final_sample_rate, 48000);
}

#[test]
fn song_cursor_reads_then_goes_silent() {
    let mut song = Song::new("t.wav", vec![5, 6], 48000);
    assert_eq!(song.next_sample(), 5);
    assert_eq!(song.next_sample(), 6);
    assert_eq!(song.next_sample(), 0);
    assert_eq!(song.next_sample(), 0);
    assert_eq!(song.position, 4);
}
