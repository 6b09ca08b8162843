use mpd_info_screen::mpd_handler::{MPDHandlerState, MPDPlayState, PollState};

const T0: u64 = 100_000;

fn feed(st: &mut MPDHandlerState, bytes: &[u8], now: u64) {
    st.handler_read_block(bytes.to_vec(), now).expect("the block is accepted");
}

/// Chooses the next request, checks it, and records it as sent.
fn expect_request(st: &mut MPDHandlerState, now: u64, want: PollState) {
    let p = st.handler_write_block(now);
    assert_eq!(p, want);
    st.request_sent(p);
}

/// A session past the handshake, with the server reported playing.
fn connected() -> MPDHandlerState {
    let mut st = MPDHandlerState::new(String::new(), T0);
    feed(&mut st, b"OK MPD 0.23.5\n", T0);
    // not known to be playing yet: the status comes first
    expect_request(&mut st, T0, PollState::Status);
    feed(&mut st, b"volume: 50\nstate: play\nOK\n", T0);
    st
}

/// A session playing `b.mp3`, with status fetched at `T0` and 500 of 1000
/// art bytes received by the embedded method.
fn playing_with_partial_art() -> MPDHandlerState {
    let mut st = connected();
    expect_request(&mut st, T0, PollState::CurrentSong);
    feed(
        &mut st,
        b"file: b.mp3\nTitle: Song B\nArtist: Someone\nduration: 180.000\nelapsed: 10.500\nOK\n",
        T0,
    );
    // a new track forces a status fetch
    expect_request(&mut st, T0, PollState::Status);
    feed(&mut st, b"volume: 50\nstate: play\nelapsed: 10.500\nduration: 180.000\nOK\n", T0);
    expect_request(&mut st, T0, PollState::ReadPicture);
    let mut block = b"size: 1000\ntype: image/png\nbinary: 500\n".to_vec();
    block.extend(std::iter::repeat(7u8).take(500));
    block.extend_from_slice(b"\nOK\n");
    feed(&mut st, &block, T0);
    st
}

#[test]
fn handshake_then_polls_current_song() {
    let mut st = MPDHandlerState::new(String::new(), T0);
    assert!(st.take_dirty());
    assert!(!st.take_dirty());
    assert!(st.handler_read_block(b"Hello\n".to_vec(), T0).is_err());
    let mut st = connected();
    assert_eq!(st.get_mpd_handler_shared_state(T0).mpd_play_state, MPDPlayState::Playing);
    let p = st.handler_write_block(T0);
    assert_eq!(p, PollState::CurrentSong);
    assert_eq!(st.request_text(p), "currentsong\n");
}

#[test]
fn password_is_sent_first() {
    let mut st = MPDHandlerState::new(String::from("secret"), T0);
    feed(&mut st, b"OK MPD 0.23.5\n", T0);
    let p = st.handler_write_block(T0);
    assert_eq!(p, PollState::Password);
    assert_eq!(st.request_text(p), "password secret\n");
    st.request_sent(p);
    feed(&mut st, b"OK\n", T0);
    assert!(st.is_authenticated());
    assert!(!st.failed_to_authenticate());
}

#[test]
fn refused_password_stops_the_session() {
    let mut st = MPDHandlerState::new(String::from("wrong"), T0);
    feed(&mut st, b"OK MPD 0.23.5\n", T0);
    expect_request(&mut st, T0, PollState::Password);
    feed(&mut st, b"ACK [3@0] {password} incorrect password\n", T0);
    assert!(st.failed_to_authenticate());
    assert!(st.stop_requested());
    assert_eq!(st.get_mpd_handler_shared_state(T0).error_text, "Failed to authenticate to MPD");
}

#[test]
fn status_refused_for_permission_loses_authentication() {
    let mut st = connected();
    expect_request(&mut st, T0, PollState::CurrentSong);
    feed(&mut st, b"ACK [4@0] {currentsong} you don't have permission for \"currentsong\"\n", T0);
    assert!(st.failed_to_authenticate());
    assert_eq!(
        st.get_mpd_handler_shared_state(T0).error_text,
        "Failed to get MPD status (not authenticated?)"
    );
    assert_eq!(st.handler_write_block(T0 + 60_000), PollState::Idle);
}

#[test]
fn art_arrives_and_is_requested_at_its_offset() {
    let mut st = playing_with_partial_art();
    assert_eq!(st.get_art_data().len(), 500);
    assert!(!st.is_art_data_ready());
    assert_eq!(st.get_art_type(), "image/png");
    let p = st.handler_write_block(T0);
    assert_eq!(p, PollState::ReadPicture);
    assert_eq!(st.request_text(p), "readpicture \"b.mp3\" 500\n");
    st.request_sent(p);
    let mut block = b"size: 1000\ntype: image/png\nbinary: 500\n".to_vec();
    block.extend(std::iter::repeat(9u8).take(500));
    block.extend_from_slice(b"\nOK\n");
    feed(&mut st, &block, T0);
    assert!(st.is_art_data_ready());
    assert_eq!(st.get_art_data()[499], 7);
    assert_eq!(st.get_art_data()[500], 9);
    assert_eq!(st.handler_write_block(T0), PollState::Idle);
}

#[test]
fn binary_chunk_across_reads_then_lines_resume() {
    let mut st = connected();
    feed(&mut st, b"file: c.mp3\nsize: 5\nbinary: 5\nab", T0);
    feed(&mut st, b"c", T0);
    feed(&mut st, b"de", T0);
    assert_eq!(st.get_art_data(), b"abcde");
    feed(&mut st, b"\nTitle: After\n", T0);
    assert_eq!(st.get_mpd_handler_shared_state(T0).title, "After");
    assert!(st.is_art_data_ready());
}

#[test]
fn binary_chunk_with_separator_in_same_read() {
    let mut st = connected();
    feed(&mut st, b"file: c.mp3\nsize: 3\nbinary: 3\nxyz\nArtist: Z\n", T0);
    assert_eq!(st.get_art_data(), b"xyz");
    assert_eq!(st.get_mpd_handler_shared_state(T0).artist, "Z");
}

#[test]
fn new_file_resets_track_and_art() {
    let mut st = playing_with_partial_art();
    expect_request(&mut st, T0, PollState::ReadPicture);
    feed(&mut st, b"ACK [50@0] {readpicture} No file exists\n", T0);
    feed(&mut st, b"file: a.mp3\n", T0);
    let info = st.get_mpd_handler_shared_state(T0);
    assert_eq!(info.filename, "a.mp3");
    assert_eq!(info.title, "");
    assert_eq!(info.artist, "");
    assert_eq!(info.length_ms, 0);
    assert_eq!(info.pos_ms, 0);
    assert!(st.get_art_data().is_empty());
    // the status is fetched again, then the embedded method is tried again
    expect_request(&mut st, T0, PollState::Status);
    feed(&mut st, b"elapsed: 0.000\nduration: 200.000\nOK\n", T0);
    assert_eq!(st.handler_write_block(T0), PollState::ReadPicture);
}

#[test]
fn refused_embedded_art_falls_back_to_directory() {
    let mut st = playing_with_partial_art();
    let before = st.get_mpd_handler_shared_state(T0).error_text;
    expect_request(&mut st, T0, PollState::ReadPicture);
    feed(&mut st, b"ACK [50@0] {readpicture} No file exists\n", T0);
    assert_eq!(st.get_mpd_handler_shared_state(T0).error_text, before);
    assert!(!st.is_reading_picture());
    let p = st.handler_write_block(T0);
    assert_eq!(p, PollState::ReadPictureInDir);
    assert_eq!(st.request_text(p), "albumart \"b.mp3\" 500\n");
}

#[test]
fn refused_directory_art_sets_error() {
    let mut st = playing_with_partial_art();
    expect_request(&mut st, T0, PollState::ReadPicture);
    feed(&mut st, b"ACK [50@0] {readpicture} No file exists\n", T0);
    expect_request(&mut st, T0, PollState::ReadPictureInDir);
    feed(&mut st, b"ACK [50@0] {albumart} No file exists\n", T0);
    assert_eq!(st.get_mpd_handler_shared_state(T0).error_text, "Failed to get album art from MPD");
    assert_eq!(st.handler_write_block(T0), PollState::Idle);
}

#[test]
fn same_file_keeps_lost_capability() {
    let mut st = playing_with_partial_art();
    expect_request(&mut st, T0, PollState::ReadPicture);
    feed(&mut st, b"ACK [50@0] {readpicture} No file exists\n", T0);
    feed(&mut st, b"file: b.mp3\nTitle: Song B\nsize: 10\nOK\n", T0);
    assert_eq!(st.handler_write_block(T0), PollState::ReadPictureInDir);
}

#[test]
fn overtime_forces_current_song_once() {
    let mut st = connected();
    expect_request(&mut st, T0, PollState::CurrentSong);
    feed(&mut st, b"file: d.mp3\nduration: 180.0\nelapsed: 178.0\nOK\n", T0);
    expect_request(&mut st, T0, PollState::Status);
    feed(&mut st, b"OK\n", T0);
    expect_request(&mut st, T0, PollState::ReadPicture);
    feed(&mut st, b"OK\n", T0);
    expect_request(&mut st, T0, PollState::ReadPictureInDir);
    feed(&mut st, b"OK\n", T0);
    // 178.0 + 2.0 - 0.2 is not past 180.0
    assert_eq!(st.handler_write_block(T0 + 2_000), PollState::Idle);
    // 178.0 + 3.0 - 0.2 is past 180.0
    expect_request(&mut st, T0 + 3_000, PollState::CurrentSong);
    feed(&mut st, b"file: d.mp3\nOK\n", T0 + 3_000);
    assert_eq!(st.handler_write_block(T0 + 3_500), PollState::Idle);
}

#[test]
fn stop_clears_track_and_pauses_song_polls() {
    let mut st = playing_with_partial_art();
    feed(&mut st, b"volume: 50\nstate: stop\nOK\n", T0);
    let info = st.get_mpd_handler_shared_state(T0);
    assert_eq!(info.mpd_play_state, MPDPlayState::Stopped);
    assert_eq!(info.filename, "");
    assert_eq!(info.title, "");
    assert_eq!(info.artist, "");
    assert_eq!(info.pos_ms, 0);
    assert_eq!(info.length_ms, 0);
    assert_eq!(st.get_mpd_handler_shared_state(T0 + 5_000).pos_ms, 0);
    assert_eq!(info.error_text, "MPD has Stopped");
    assert!(st.get_art_data().is_empty());
    for i in 0..3u64 {
        let now = T0 + 10_000 * (i + 1);
        expect_request(&mut st, now, PollState::Status);
        feed(&mut st, b"state: stop\nOK\n", now);
    }
    // playing again: the song is polled once more and the error cleared
    expect_request(&mut st, T0 + 50_000, PollState::Status);
    feed(&mut st, b"state: play\nOK\n", T0 + 50_000);
    let info = st.get_mpd_handler_shared_state(T0 + 50_000);
    assert_eq!(info.mpd_play_state, MPDPlayState::Playing);
    assert_eq!(info.error_text, "");
    assert_eq!(st.handler_write_block(T0 + 50_000), PollState::CurrentSong);
}

#[test]
fn pause_is_reported() {
    let mut st = connected();
    feed(&mut st, b"state: pause\n", T0);
    let info = st.get_mpd_handler_shared_state(T0);
    assert_eq!(info.mpd_play_state, MPDPlayState::Paused);
    assert_eq!(info.error_text, "MPD has Paused");
}

#[test]
fn one_request_in_flight() {
    let mut st = playing_with_partial_art();
    expect_request(&mut st, T0, PollState::ReadPicture);
    assert!(st.is_reading_picture());
    for dt in [0u64, 10_000, 60_000] {
        assert_eq!(st.handler_write_block(T0 + dt), PollState::Idle);
    }
    st.request_sent(PollState::Status);
    assert!(st.is_reading_picture());
    feed(&mut st, b"OK\n", T0);
    assert!(!st.is_reading_picture());
    assert_ne!(st.handler_write_block(T0 + 60_000), PollState::Idle);
}

#[test]
fn other_art_method_can_be_forced() {
    let mut st = playing_with_partial_art();
    st.force_try_other_album_art();
    assert!(st.get_art_data().is_empty());
    assert_eq!(st.handler_write_block(T0), PollState::ReadPictureInDir);
}

#[test]
fn position_advances_with_time() {
    let mut st = playing_with_partial_art();
    let info = st.get_mpd_handler_shared_state(T0 + 1_500);
    assert_eq!(info.pos_ms, 12_000);
    assert_eq!(info.length_ms, 180_000);
    st.force_get_current_song();
    assert_eq!(st.handler_write_block(T0), PollState::CurrentSong);
}

#[test]
fn partial_line_spans_three_reads() {
    let mut st = connected();
    feed(&mut st, b"Tit", T0);
    feed(&mut st, b"le: Lo", T0);
    feed(&mut st, b"ng\n", T0);
    assert_eq!(st.get_mpd_handler_shared_state(T0).title, "Long");
}

#[test]
fn art_request_pending_until_its_ok() {
    let mut st = playing_with_partial_art();
    expect_request(&mut st, T0, PollState::ReadPicture);
    let mut block = b"size: 1000\ntype: image/png\nbinary: 500\n".to_vec();
    block.extend(std::iter::repeat(9u8).take(500));
    block.push(b'\n');
    feed(&mut st, &block, T0);
    assert!(st.is_art_data_ready());
    assert!(st.is_reading_picture());
    assert_eq!(st.handler_write_block(T0 + 60_000), PollState::Idle);
    feed(&mut st, b"OK\n", T0);
    assert!(!st.is_reading_picture());
}

#[test]
fn art_beyond_announced_size_is_dropped() {
    let mut st = connected();
    feed(&mut st, b"file: e.mp3\nsize: 3\nbinary: 5\nabcde\n", T0);
    assert!(st.take_dirty());
    assert_eq!(st.get_art_data(), b"abc");
    assert!(st.is_art_data_ready());
    feed(&mut st, b"binary: 2\nxy\n", T0);
    assert!(st.take_dirty());
    assert_eq!(st.get_art_data(), b"abc");
}

#[test]
fn play_state_kept_until_reported_otherwise() {
    let mut st = connected();
    feed(&mut st, b"state: pause\nelapsed: 42.0\nOK\n", T0);
    feed(&mut st, b"Title: T\n", T0 + 1_000);
    let info = st.get_mpd_handler_shared_state(T0 + 9_000);
    assert_eq!(info.mpd_play_state, MPDPlayState::Paused);
    assert_eq!(info.pos_ms, 42_000);
    feed(&mut st, b"state: play\n", T0 + 9_000);
    let info = st.get_mpd_handler_shared_state(T0 + 10_000);
    assert_eq!(info.mpd_play_state, MPDPlayState::Playing);
    assert_eq!(info.error_text, "");
    assert_eq!(info.pos_ms, 43_000);
}
