use vstd::prelude::*;
use vstd::string::StringExecFns;

use crate::line_decoder::{line_outcome, read_line};
use crate::text::{
    after_prefix, contains, contains_text, decimal_text, has_prefix, parse_millis, parse_usize,
    push_decimal, seconds_as_millis, starts_with, strip_prefix, unsigned_value,
};

verus! {

/// How long a fetched song title or status stays fresh, in milliseconds.
pub const POLL_MILLIS: u64 = 5000;

/// The margin by which a song may run past its duration before its status
/// is fetched again, in milliseconds.
pub const OVERTIME_MARGIN_MILLIS: u64 = 200;

/// The request awaiting its `OK` or `ACK`, if any.
#[derive(Copy, Clone, Debug, PartialEq, Eq, Structural)]
pub enum PollState {
    Idle,
    Password,
    CurrentSong,
    Status,
    ReadPicture,
    ReadPictureInDir,
}

/// Whether the server is playing.
#[derive(Copy, Clone, Debug, PartialEq, Eq, Structural)]
pub enum MPDPlayState {
    Playing,
    Paused,
    Stopped,
}

/// What interpreting one line asks of the read loop.
#[derive(Copy, Clone, Debug, PartialEq, Eq, Structural)]
pub enum LineFlow {
    /// Go on with the next line.
    Continue,
    /// The response is over: stop reading this block.
    Done,
    /// The handshake banner was wrong.
    Failed,
}

/// What a display shows of the session: the track, its duration and
/// position in milliseconds, the error text and the play state.
#[derive(Debug)]
pub struct InfoFromShared {
    pub filename: String,
    pub title: String,
    pub artist: String,
    pub length_ms: u64,
    pub pos_ms: u64,
    pub error_text: String,
    pub mpd_play_state: MPDPlayState,
}

/// The session state as plain values.
pub struct HandlerView {
    pub art_data: Seq<u8>,
    /// The art size that the server announced.
    pub art_data_size: usize,
    pub art_data_type: Seq<char>,
    pub filename: Seq<char>,
    pub title: Seq<char>,
    pub artist: Seq<char>,
    pub length_ms: u64,
    pub position_ms: u64,
    /// Bytes of an announced binary chunk still to come.
    pub binary_remaining: usize,
    /// The separator byte after a finished binary chunk is still to come.
    pub separator_pending: bool,
    pub poll_state: PollState,
    pub password: Seq<char>,
    pub error_text: Seq<char>,
    pub can_authenticate: bool,
    pub is_authenticated: bool,
    pub can_get_album_art: bool,
    pub can_get_album_art_in_dir: bool,
    pub can_get_status: bool,
    /// The handshake banner has not arrived yet.
    pub is_init: bool,
    pub did_check_overtime: bool,
    pub force_get_status: bool,
    pub force_get_current_song: bool,
    /// When the song, its position and its duration were last reported.
    pub song_title_get_time: u64,
    pub song_pos_get_time: u64,
    pub song_length_get_time: u64,
    /// Something changed since the consumer last looked.
    pub dirty: bool,
    /// The session cannot go on.
    pub stop_requested: bool,
    pub play_state: MPDPlayState,
    /// The bytes of a character cut off at the end of the last read.
    pub saved_bytes: Seq<u8>,
    /// The part of a line decoded before the last read ended.
    pub saved_line: Seq<char>,
}

/// The state of one session with the server: the current track, the album
/// art received so far, what the server has proven unable to do, and the
/// one request in flight. Times are milliseconds on a monotonic clock that
/// the caller supplies.
pub struct MPDHandlerState {
    art_data: Vec<u8>,
    art_data_size: usize,
    art_data_type: String,
    current_song_filename: String,
    current_song_title: String,
    current_song_artist: String,
    current_song_length: u64,
    current_song_position: u64,
    current_binary_size: usize,
    separator_pending: bool,
    poll_state: PollState,
    password: String,
    error_text: String,
    can_authenticate: bool,
    is_authenticated: bool,
    can_get_album_art: bool,
    can_get_album_art_in_dir: bool,
    can_get_status: bool,
    is_init: bool,
    did_check_overtime: bool,
    force_get_status: bool,
    force_get_current_song: bool,
    song_title_get_time: u64,
    song_pos_get_time: u64,
    song_length_get_time: u64,
    dirty: bool,
    stop_requested: bool,
    mpd_play_state: MPDPlayState,
    saved_bytes: Vec<u8>,
    saved_line: String,
}

impl View for MPDHandlerState {
    type V = HandlerView;

    closed spec fn view(&self) -> HandlerView {
        HandlerView {
            art_data: self.art_data@,
            art_data_size: self.art_data_size,
            art_data_type: self.art_data_type@,
            filename: self.current_song_filename@,
            title: self.current_song_title@,
            artist: self.current_song_artist@,
            length_ms: self.current_song_length,
            position_ms: self.current_song_position,
            binary_remaining: self.current_binary_size,
            separator_pending: self.separator_pending,
            poll_state: self.poll_state,
            password: self.password@,
            error_text: self.error_text@,
            can_authenticate: self.can_authenticate,
            is_authenticated: self.is_authenticated,
            can_get_album_art: self.can_get_album_art,
            can_get_album_art_in_dir: self.can_get_album_art_in_dir,
            can_get_status: self.can_get_status,
            is_init: self.is_init,
            did_check_overtime: self.did_check_overtime,
            force_get_status: self.force_get_status,
            force_get_current_song: self.force_get_current_song,
            song_title_get_time: self.song_title_get_time,
            song_pos_get_time: self.song_pos_get_time,
            song_length_get_time: self.song_length_get_time,
            dirty: self.dirty,
            stop_requested: self.stop_requested,
            play_state: self.mpd_play_state,
            saved_bytes: self.saved_bytes@,
            saved_line: self.saved_line@,
        }
    }
}

/// Milliseconds from `then` to `now`, or 0 where the clock reads earlier.
pub open spec fn elapsed(now: u64, then: u64) -> int {
    if now >= then {
        now - then
    } else {
        0
    }
}

/// The handshake banner was accepted.
#[verifier::opaque]
pub open spec fn banner_effect(s: HandlerView) -> HandlerView {
    HandlerView { is_init: false, poll_state: PollState::Idle, ..s }
}

/// The effect of a terminating `OK`: a password request succeeded; an art
/// request that brought no bytes shows that its method has no art. No
/// request is pending afterwards.
#[verifier::opaque]
pub open spec fn ok_effect(s: HandlerView) -> HandlerView {
    let p = s.poll_state;
    let no_art = s.art_data.len() == 0;
    let lost_embedded = p == PollState::ReadPicture && no_art;
    let lost_directory = p == PollState::ReadPictureInDir && no_art;
    HandlerView {
        is_authenticated: s.is_authenticated || p == PollState::Password,
        can_get_album_art: s.can_get_album_art && !lost_embedded,
        can_get_album_art_in_dir: s.can_get_album_art_in_dir && !lost_directory,
        dirty: s.dirty || p == PollState::Password || lost_embedded || lost_directory,
        poll_state: PollState::Idle,
        ..s
    }
}

/// The error text after an `ACK` for pending request `p`.
pub open spec fn ack_error_text(p: PollState, permission: bool, old_text: Seq<char>) -> Seq<
    char,
> {
    match p {
        PollState::Password => "Failed to authenticate to MPD"@,
        PollState::CurrentSong | PollState::Status => if permission {
            "Failed to get MPD status (not authenticated?)"@
        } else {
            "Failed to get MPD status"@
        },
        PollState::ReadPictureInDir => "Failed to get album art from MPD"@,
        _ => old_text,
    }
}

/// The effect of an `ACK` line: the capability that the pending request
/// used is lost (a refused status poll that names a missing permission
/// loses authentication too), and a failed password ends the session. A
/// failed embedded-art request sets no error, as the directory method is
/// tried next. No request is pending afterwards.
#[verifier::opaque]
pub open spec fn ack_effect(s: HandlerView, line: Seq<char>) -> HandlerView {
    let p = s.poll_state;
    let status = p == PollState::CurrentSong || p == PollState::Status;
    let permission = contains_text(line, "don't have permission"@);
    HandlerView {
        can_authenticate: s.can_authenticate && p != PollState::Password && !(status
            && permission),
        can_get_status: s.can_get_status && !status,
        can_get_album_art: s.can_get_album_art && p != PollState::ReadPicture,
        can_get_album_art_in_dir: s.can_get_album_art_in_dir && p != PollState::ReadPictureInDir,
        dirty: s.dirty || p != PollState::Idle,
        error_text: ack_error_text(p, permission, s.error_text),
        stop_requested: s.stop_requested || p == PollState::Password,
        poll_state: PollState::Idle,
        ..s
    }
}

/// The effect of `state: stop`: playback stopped, the track is forgotten
/// and the status is to be fetched again.
#[verifier::opaque]
pub open spec fn stop_effect(s: HandlerView) -> HandlerView {
    HandlerView {
        filename: Seq::empty(),
        art_data: Seq::empty(),
        art_data_size: 0,
        art_data_type: Seq::empty(),
        can_get_album_art: true,
        can_get_album_art_in_dir: true,
        title: Seq::empty(),
        artist: Seq::empty(),
        length_ms: 0,
        position_ms: 0,
        did_check_overtime: false,
        force_get_status: true,
        error_text: "MPD has Stopped"@,
        dirty: true,
        play_state: MPDPlayState::Stopped,
        ..s
    }
}

/// The effect of `state: pause`.
#[verifier::opaque]
pub open spec fn pause_effect(s: HandlerView) -> HandlerView {
    HandlerView {
        error_text: "MPD has Paused"@,
        dirty: true,
        play_state: MPDPlayState::Paused,
        ..s
    }
}

/// The effect of `state: play` at time `now`: a return to playing clears
/// the error and restarts the position's clock.
#[verifier::opaque]
pub open spec fn play_effect(s: HandlerView, now: u64) -> HandlerView {
    if s.play_state != MPDPlayState::Playing {
        HandlerView {
            error_text: Seq::empty(),
            dirty: true,
            play_state: MPDPlayState::Playing,
            song_pos_get_time: now,
            ..s
        }
    } else {
        s
    }
}

/// The effect of `file: ` naming `name` at time `now`: a name other than
/// the current one is a new track, which forgets the old one's metadata,
/// art and error and lets both art methods be tried again; either way the
/// song poll is fresh.
#[verifier::opaque]
pub open spec fn file_effect(s: HandlerView, name: Seq<char>, now: u64) -> HandlerView {
    if name != s.filename {
        HandlerView {
            filename: name,
            art_data: Seq::empty(),
            art_data_size: 0,
            art_data_type: Seq::empty(),
            can_get_album_art: true,
            can_get_album_art_in_dir: true,
            title: Seq::empty(),
            artist: Seq::empty(),
            length_ms: 0,
            position_ms: 0,
            did_check_overtime: false,
            force_get_status: true,
            error_text: Seq::empty(),
            dirty: true,
            song_title_get_time: now,
            ..s
        }
    } else {
        HandlerView { dirty: true, song_title_get_time: now, ..s }
    }
}

/// The effect of `elapsed: ` with value text `v` at time `now`; text that
/// is no number of seconds is ignored.
#[verifier::opaque]
pub open spec fn elapsed_effect(s: HandlerView, v: Seq<char>, now: u64) -> HandlerView {
    let r = seconds_as_millis(v);
    if r is Some && r->0 <= u64::MAX {
        HandlerView { position_ms: r->0 as u64, dirty: true, song_pos_get_time: now, ..s }
    } else {
        s
    }
}

/// The effect of `duration: ` with value text `v` at time `now`.
#[verifier::opaque]
pub open spec fn duration_effect(s: HandlerView, v: Seq<char>, now: u64) -> HandlerView {
    let r = seconds_as_millis(v);
    if r is Some && r->0 <= u64::MAX {
        HandlerView { length_ms: r->0 as u64, dirty: true, song_length_get_time: now, ..s }
    } else {
        s
    }
}

/// The effect of `size: ` with value text `v`: the announced art size.
#[verifier::opaque]
pub open spec fn size_effect(s: HandlerView, v: Seq<char>) -> HandlerView {
    let r = unsigned_value(v);
    if r is Some && r->0 <= usize::MAX {
        HandlerView { art_data_size: r->0 as usize, dirty: true, ..s }
    } else {
        s
    }
}

/// The effect of `binary: ` with value text `v`: the bytes that follow
/// belong to the art.
#[verifier::opaque]
pub open spec fn binary_effect(s: HandlerView, v: Seq<char>) -> HandlerView {
    let r = unsigned_value(v);
    if r is Some && r->0 <= usize::MAX {
        HandlerView { binary_remaining: r->0 as usize, dirty: true, ..s }
    } else {
        s
    }
}

/// The effect of `Title: `.
#[verifier::opaque]
pub open spec fn title_effect(s: HandlerView, v: Seq<char>) -> HandlerView {
    HandlerView { title: v, dirty: true, ..s }
}

/// The effect of `Artist: `.
#[verifier::opaque]
pub open spec fn artist_effect(s: HandlerView, v: Seq<char>) -> HandlerView {
    HandlerView { artist: v, dirty: true, ..s }
}

/// The effect of `type: `: the art's MIME type.
#[verifier::opaque]
pub open spec fn art_type_effect(s: HandlerView, v: Seq<char>) -> HandlerView {
    HandlerView { art_data_type: v, dirty: true, ..s }
}

/// The response interpreter: the effect of one complete line received at
/// time `now`, and what the read loop does next. The first matching prefix
/// decides; during the handshake only the banner is accepted; other lines
/// are ignored.
pub open spec fn apply_line(s: HandlerView, line: Seq<char>, now: u64) -> (HandlerView, LineFlow) {
    if s.is_init {
        if has_prefix(line, "OK MPD "@) {
            (banner_effect(s), LineFlow::Done)
        } else {
            (s, LineFlow::Failed)
        }
    } else if has_prefix(line, "OK"@) {
        (ok_effect(s), LineFlow::Done)
    } else if has_prefix(line, "ACK"@) {
        (ack_effect(s, line), LineFlow::Continue)
    } else if has_prefix(line, "state: "@) {
        let v = after_prefix(line, "state: "@);
        if v == "stop"@ {
            (stop_effect(s), LineFlow::Continue)
        } else if v == "pause"@ {
            (pause_effect(s), LineFlow::Continue)
        } else if v == "play"@ {
            (play_effect(s, now), LineFlow::Continue)
        } else {
            (s, LineFlow::Continue)
        }
    } else if has_prefix(line, "file: "@) {
        (file_effect(s, after_prefix(line, "file: "@), now), LineFlow::Continue)
    } else if has_prefix(line, "elapsed: "@) {
        (elapsed_effect(s, after_prefix(line, "elapsed: "@), now), LineFlow::Continue)
    } else if has_prefix(line, "duration: "@) {
        (duration_effect(s, after_prefix(line, "duration: "@), now), LineFlow::Continue)
    } else if has_prefix(line, "size: "@) {
        (size_effect(s, after_prefix(line, "size: "@)), LineFlow::Continue)
    } else if has_prefix(line, "binary: "@) {
        (binary_effect(s, after_prefix(line, "binary: "@)), LineFlow::Continue)
    } else if has_prefix(line, "Title: "@) {
        (title_effect(s, after_prefix(line, "Title: "@)), LineFlow::Continue)
    } else if has_prefix(line, "Artist: "@) {
        (artist_effect(s, after_prefix(line, "Artist: "@)), LineFlow::Continue)
    } else if has_prefix(line, "type: "@) {
        (art_type_effect(s, after_prefix(line, "type: "@)), LineFlow::Continue)
    } else {
        (s, LineFlow::Continue)
    }
}

/// How many more art bytes the announced size leaves room for.
pub open spec fn art_room(s: HandlerView) -> nat {
    if s.art_data.len() < s.art_data_size {
        (s.art_data_size - s.art_data.len()) as nat
    } else {
        0
    }
}

/// `bytes` of art arrived: they are appended as far as the announced size
/// leaves room, and the state counts as changed.
#[verifier::opaque]
pub open spec fn art_received(s: HandlerView, bytes: Seq<u8>) -> HandlerView {
    let kept = if bytes.len() <= art_room(s) {
        bytes
    } else {
        bytes.subrange(0, art_room(s) as int)
    };
    HandlerView { art_data: s.art_data + kept, dirty: true, ..s }
}

/// The last `bytes` of a binary chunk arrived; `separator_pending` tells
/// whether the separator byte after it is still to come. The art request
/// stays pending until its `OK` or `ACK`.
#[verifier::opaque]
pub open spec fn chunk_completed(s: HandlerView, bytes: Seq<u8>, separator_pending: bool) -> HandlerView {
    HandlerView { binary_remaining: 0, separator_pending, ..art_received(s, bytes) }
}

/// Part of a binary chunk arrived: all of `bytes`, with more to come.
#[verifier::opaque]
pub open spec fn chunk_progressed(s: HandlerView, bytes: Seq<u8>) -> HandlerView {
    HandlerView {
        binary_remaining: (s.binary_remaining - bytes.len()) as usize,
        ..art_received(s, bytes)
    }
}

/// The separator byte after a binary chunk was skipped.
#[verifier::opaque]
pub open spec fn separator_skipped(s: HandlerView) -> HandlerView {
    HandlerView { separator_pending: false, ..s }
}

/// The binary chunk extractor on the bytes `buf` of one read: while a
/// `binary: N` header still owns bytes they are appended to the art
/// verbatim, then one separator byte is skipped. The state after, and the
/// bytes handed on to line decoding.
pub open spec fn binary_stage(s: HandlerView, buf: Seq<u8>) -> (HandlerView, Seq<u8>) {
    if s.separator_pending {
        if buf.len() == 0 {
            (s, buf)
        } else {
            (separator_skipped(s), buf.drop_first())
        }
    } else if s.binary_remaining == 0 {
        (s, buf)
    } else if s.binary_remaining < buf.len() {
        let n = s.binary_remaining as int;
        (chunk_completed(s, buf.subrange(0, n), false), buf.subrange(n + 1, buf.len() as int))
    } else if s.binary_remaining == buf.len() {
        (chunk_completed(s, buf, true), Seq::empty())
    } else {
        (chunk_progressed(s, buf), Seq::empty())
    }
}

/// The decoder's carry-over replaced.
#[verifier::opaque]
pub open spec fn with_carry(s: HandlerView, saved_bytes: Seq<u8>, saved_line: Seq<char>) -> HandlerView {
    HandlerView { saved_bytes, saved_line, ..s }
}

/// One step of the read loop over the bytes `buf` at time `now`: binary
/// bytes are extracted, then one line is decoded and interpreted. The state
/// after, the bytes left, and how the block ended, or `None` where the loop
/// goes on.
pub open spec fn read_step(s: HandlerView, buf: Seq<u8>, now: u64) -> (
    HandlerView,
    Seq<u8>,
    Option<LineFlow>,
) {
    let (s1, rest) = binary_stage(s, buf);
    if s1.binary_remaining > 0 || s1.separator_pending {
        (s1, rest, Some(LineFlow::Continue))
    } else {
        let out = line_outcome(rest, s1.saved_bytes, s1.is_init);
        match out.result {
            Err(partial) => (
                with_carry(s1, out.saved, s1.saved_line + partial),
                out.buf,
                Some(LineFlow::Continue),
            ),
            Ok(line) => {
                let (s2, flow) = apply_line(
                    with_carry(s1, out.saved, Seq::empty()),
                    s1.saved_line + line,
                    now,
                );
                (
                    s2,
                    out.buf,
                    if flow == LineFlow::Continue {
                        None
                    } else {
                        Some(flow)
                    },
                )
            },
        }
    }
}

/// The read loop over the bytes `buf` of one read at time `now`: binary
/// chunks are extracted, lines decoded (a partial line is kept for the next
/// read) and interpreted until the bytes run out or a line ends the block.
/// The state after, and how the block ended.
pub open spec fn read_loop(s: HandlerView, buf: Seq<u8>, now: u64) -> (HandlerView, LineFlow)
    decreases buf.len(),
{
    let (s1, rest, stop) = read_step(s, buf, now);
    match stop {
        Some(flow) => (s1, flow),
        None => if rest.len() < buf.len() {
            read_loop(s1, rest, now)
        } else {
            (s1, LineFlow::Continue)
        },
    }
}

/// One read of `data` at time `now`: the state after, and whether it went
/// well (only a wrong handshake banner fails).
pub open spec fn read_block_effect(s: HandlerView, data: Seq<u8>, now: u64) -> (HandlerView, bool) {
    let (s1, flow) = read_loop(s, data, now);
    (s1, flow != LineFlow::Failed)
}

/// The position to show at time `now`: while playing it advances with the
/// time since it was reported.
pub open spec fn shown_position(s: HandlerView, now: u64) -> int {
    let p = if s.play_state == MPDPlayState::Playing {
        s.position_ms + elapsed(now, s.song_pos_get_time)
    } else {
        s.position_ms as int
    };
    if p <= u64::MAX {
        p
    } else {
        u64::MAX as int
    }
}

/// The track is playing and has run past its expected end without the
/// overtime check having fired for it.
pub open spec fn overtime(s: HandlerView, now: u64) -> bool {
    s.play_state == MPDPlayState::Playing && !s.did_check_overtime && s.position_ms + elapsed(now, s.song_pos_get_time) > s.length_ms
        + OVERTIME_MARGIN_MILLIS
}

/// The overtime check: once per track, a song past its end forces a fetch
/// of the current song.
#[verifier::opaque]
pub open spec fn overtime_checked(s: HandlerView, now: u64) -> HandlerView {
    let o = overtime(s, now);
    HandlerView {
        did_check_overtime: s.did_check_overtime || o,
        force_get_current_song: s.force_get_current_song || o,
        ..s
    }
}

/// The art is incomplete for a known track.
pub open spec fn wants_art(s: HandlerView) -> bool {
    (s.art_data.len() == 0 || s.art_data.len() != s.art_data_size) && s.filename.len() > 0
}

/// The request to issue next from an idle state, in priority order:
/// authenticate, fetch the current song, fetch the status, fetch art by the
/// embedded method then by the directory method; `Idle` for none.
pub open spec fn choose_request(s: HandlerView, now: u64) -> PollState {
    if !s.is_authenticated && s.password.len() > 0 && s.can_authenticate {
        PollState::Password
    } else if s.can_get_status && (elapsed(now, s.song_title_get_time) > POLL_MILLIS
        || s.force_get_current_song) && s.play_state == MPDPlayState::Playing {
        PollState::CurrentSong
    } else if s.can_get_status && (elapsed(now, s.song_length_get_time) > POLL_MILLIS || elapsed(
        now,
        s.song_pos_get_time,
    ) > POLL_MILLIS || s.force_get_status) {
        PollState::Status
    } else if wants_art(s) && s.can_get_album_art {
        PollState::ReadPicture
    } else if wants_art(s) && s.can_get_album_art_in_dir {
        PollState::ReadPictureInDir
    } else {
        PollState::Idle
    }
}

/// A request `p` was chosen: the forced fetch that it serves is cleared.
#[verifier::opaque]
pub open spec fn request_chosen(s: HandlerView, p: PollState) -> HandlerView {
    HandlerView {
        force_get_current_song: s.force_get_current_song && p != PollState::CurrentSong,
        force_get_status: s.force_get_status && p != PollState::Status,
        ..s
    }
}

/// The poll state machine at time `now`: with a request pending nothing
/// happens; otherwise the overtime check runs and the next request is
/// chosen. The state after, and the request to send (`Idle` for none).
pub open spec fn write_decision(s: HandlerView, now: u64) -> (HandlerView, PollState) {
    if s.poll_state != PollState::Idle {
        (s, PollState::Idle)
    } else {
        let s1 = overtime_checked(s, now);
        let p = choose_request(s1, now);
        (request_chosen(s1, p), p)
    }
}

/// The text of the command for request `p` in state `s`, newline included.
pub open spec fn command_text(s: HandlerView, p: PollState) -> Seq<char> {
    match p {
        PollState::Idle => Seq::empty(),
        PollState::Password => "password "@ + s.password + "\n"@,
        PollState::CurrentSong => "currentsong\n"@,
        PollState::Status => "status\n"@,
        PollState::ReadPicture => "readpicture \""@ + s.filename + "\" "@ + decimal_text(
            s.art_data.len(),
        ) + "\n"@,
        PollState::ReadPictureInDir => "albumart \""@ + s.filename + "\" "@ + decimal_text(
            s.art_data.len(),
        ) + "\n"@,
    }
}

/// Request `p` went out: it is pending now, unless one already was.
#[verifier::opaque]
pub open spec fn request_sent_effect(s: HandlerView, p: PollState) -> HandlerView {
    if s.poll_state == PollState::Idle {
        HandlerView { poll_state: p, ..s }
    } else {
        s
    }
}

/// The state of a new session at time `now`, before the handshake: nothing
/// is known of the track, every capability is presumed, the polls are due,
/// and the state counts as changed.
pub open spec fn initial_view(password: Seq<char>, now: u64) -> HandlerView {
    let long_ago = if now >= 10000 {
        (now - 10000) as u64
    } else {
        0
    };
    HandlerView {
        art_data: Seq::empty(),
        art_data_size: 0,
        art_data_type: Seq::empty(),
        filename: Seq::empty(),
        title: Seq::empty(),
        artist: Seq::empty(),
        length_ms: 0,
        position_ms: 0,
        binary_remaining: 0,
        separator_pending: false,
        poll_state: PollState::Idle,
        password,
        error_text: Seq::empty(),
        can_authenticate: true,
        is_authenticated: false,
        can_get_album_art: true,
        can_get_album_art_in_dir: true,
        can_get_status: true,
        is_init: true,
        did_check_overtime: false,
        force_get_status: false,
        force_get_current_song: false,
        song_title_get_time: long_ago,
        song_pos_get_time: long_ago,
        song_length_get_time: long_ago,
        dirty: true,
        stop_requested: false,
        play_state: MPDPlayState::Stopped,
        saved_bytes: Seq::empty(),
        saved_line: Seq::empty(),
    }
}

/// The error text after an `ACK` for pending request `p`, as
/// `ack_error_text` states.
fn ack_error_string(p: PollState, permission: bool, old_text: &String) -> (r: String)
    ensures
        r@ == ack_error_text(p, permission, old_text@),
{
    match p {
        PollState::Password => String::from_str("Failed to authenticate to MPD"),
        PollState::CurrentSong | PollState::Status => if permission {
            String::from_str("Failed to get MPD status (not authenticated?)")
        } else {
            String::from_str("Failed to get MPD status")
        },
        PollState::ReadPictureInDir => String::from_str("Failed to get album art from MPD"),
        _ => old_text.clone(),
    }
}

impl MPDHandlerState {
    /// A new session with `password` (empty for none) at time `now`.
    pub fn new(password: String, now: u64) -> (r: Self)
        ensures
            r@ == initial_view(password@, now),
    {
        let long_ago: u64 = if now >= 10000 {
            now - 10000
        } else {
            0
        };
        MPDHandlerState {
            art_data: Vec::new(),
            art_data_size: 0,
            art_data_type: String::new(),
            current_song_filename: String::new(),
            current_song_title: String::new(),
            current_song_artist: String::new(),
            current_song_length: 0,
            current_song_position: 0,
            current_binary_size: 0,
            separator_pending: false,
            poll_state: PollState::Idle,
            password,
            error_text: String::new(),
            can_authenticate: true,
            is_authenticated: false,
            can_get_album_art: true,
            can_get_album_art_in_dir: true,
            can_get_status: true,
            is_init: true,
            did_check_overtime: false,
            force_get_status: false,
            force_get_current_song: false,
            song_title_get_time: long_ago,
            song_pos_get_time: long_ago,
            song_length_get_time: long_ago,
            dirty: true,
            stop_requested: false,
            mpd_play_state: MPDPlayState::Stopped,
            saved_bytes: Vec::new(),
            saved_line: String::new(),
        }
    }

    /// Applies the handshake banner, as `banner_effect` states.
    fn apply_banner(&mut self)
        ensures
            final(self)@ == banner_effect(old(self)@),
    {
        self.is_init = false;
        self.poll_state = PollState::Idle;
        proof {
            reveal(banner_effect);
        }
    }

    /// Applies a terminating `OK`, as `ok_effect` states.
    fn apply_ok(&mut self)
        ensures
            final(self)@ == ok_effect(old(self)@),
    {
        let p = self.poll_state;
        let no_art = self.art_data.len() == 0;
        let lost_embedded = p == PollState::ReadPicture && no_art;
        let lost_directory = p == PollState::ReadPictureInDir && no_art;
        self.is_authenticated = self.is_authenticated || p == PollState::Password;
        self.can_get_album_art = self.can_get_album_art && !lost_embedded;
        self.can_get_album_art_in_dir = self.can_get_album_art_in_dir && !lost_directory;
        self.dirty = self.dirty || p == PollState::Password || lost_embedded || lost_directory;
        self.poll_state = PollState::Idle;
        proof {
            reveal(ok_effect);
        }
    }

    /// Applies an `ACK` line, as `ack_effect` states.
    fn apply_ack(&mut self, line: &str)
        ensures
            final(self)@ == ack_effect(old(self)@, line@),
    {
        let p = self.poll_state;
        let status = p == PollState::CurrentSong || p == PollState::Status;
        let permission = contains(line, "don't have permission");
        let text = ack_error_string(p, permission, &self.error_text);
        self.can_authenticate = self.can_authenticate && p != PollState::Password && !(status
            && permission);
        self.can_get_status = self.can_get_status && !status;
        self.can_get_album_art = self.can_get_album_art && p != PollState::ReadPicture;
        self.can_get_album_art_in_dir = self.can_get_album_art_in_dir && p
            != PollState::ReadPictureInDir;
        self.dirty = self.dirty || p != PollState::Idle;
        self.error_text = text;
        self.stop_requested = self.stop_requested || p == PollState::Password;
        self.poll_state = PollState::Idle;
        proof {
            reveal(ack_effect);
        }
    }

    /// Applies `state: stop`, as `stop_effect` states.
    fn apply_stop(&mut self)
        ensures
            final(self)@ == stop_effect(old(self)@),
    {
        self.current_song_filename = String::new();
        self.art_data = Vec::new();
        self.art_data_size = 0;
        self.art_data_type = String::new();
        self.can_get_album_art = true;
        self.can_get_album_art_in_dir = true;
        self.current_song_title = String::new();
        self.current_song_artist = String::new();
        self.current_song_length = 0;
        self.current_song_position = 0;
        self.did_check_overtime = false;
        self.force_get_status = true;
        self.error_text = String::from_str("MPD has Stopped");
        self.dirty = true;
        self.mpd_play_state = MPDPlayState::Stopped;
        proof {
            reveal(stop_effect);
        }
    }

    /// Applies `state: pause`, as `pause_effect` states.
    fn apply_pause(&mut self)
        ensures
            final(self)@ == pause_effect(old(self)@),
    {
        self.error_text = String::from_str("MPD has Paused");
        self.dirty = true;
        self.mpd_play_state = MPDPlayState::Paused;
        proof {
            reveal(pause_effect);
        }
    }

    /// Applies `state: play`, as `play_effect` states.
    fn apply_play(&mut self, now: u64)
        ensures
            final(self)@ == play_effect(old(self)@, now),
    {
        proof {
            reveal(play_effect);
        }
        if self.mpd_play_state != MPDPlayState::Playing {
            self.error_text = String::new();
            self.dirty = true;
            self.mpd_play_state = MPDPlayState::Playing;
            self.song_pos_get_time = now;
        }
    }

    /// A `file:` line names a track other than the current one.
    fn start_track(&mut self, name: String, now: u64)
        requires
            name@ != old(self)@.filename,
        ensures
            final(self)@ == file_effect(old(self)@, name@, now),
    {
        self.current_song_filename = name;
        self.art_data = Vec::new();
        self.art_data_size = 0;
        self.art_data_type = String::new();
        self.can_get_album_art = true;
        self.can_get_album_art_in_dir = true;
        self.current_song_title = String::new();
        self.current_song_artist = String::new();
        self.current_song_length = 0;
        self.current_song_position = 0;
        self.did_check_overtime = false;
        self.force_get_status = true;
        self.error_text = String::new();
        self.dirty = true;
        self.song_title_get_time = now;
        proof {
            reveal(file_effect);
        }
    }

    /// A `file:` line names the current track again.
    fn same_track(&mut self, name: &String, now: u64)
        requires
            name@ == old(self)@.filename,
        ensures
            final(self)@ == file_effect(old(self)@, name@, now),
    {
        self.dirty = true;
        self.song_title_get_time = now;
        proof {
            reveal(file_effect);
        }
    }

    /// Applies a `file:` line, as `file_effect` states.
    fn apply_file(&mut self, name: String, now: u64)
        ensures
            final(self)@ == file_effect(old(self)@, name@, now),
    {
        if name != self.current_song_filename {
            self.start_track(name, now);
        } else {
            self.same_track(&name, now);
        }
    }

    /// Applies an `elapsed:` value, as `elapsed_effect` states.
    fn apply_elapsed(&mut self, v: &str, now: u64)
        ensures
            final(self)@ == elapsed_effect(old(self)@, v@, now),
    {
        proof {
            reveal(elapsed_effect);
        }
        if let Some(ms) = parse_millis(v) {
            self.current_song_position = ms;
            self.dirty = true;
            self.song_pos_get_time = now;
        }
    }

    /// Applies a `duration:` value, as `duration_effect` states.
    fn apply_duration(&mut self, v: &str, now: u64)
        ensures
            final(self)@ == duration_effect(old(self)@, v@, now),
    {
        proof {
            reveal(duration_effect);
        }
        if let Some(ms) = parse_millis(v) {
            self.current_song_length = ms;
            self.dirty = true;
            self.song_length_get_time = now;
        }
    }

    /// Applies a `size:` value, as `size_effect` states.
    fn apply_size(&mut self, v: &str)
        ensures
            final(self)@ == size_effect(old(self)@, v@),
    {
        proof {
            reveal(size_effect);
        }
        if let Some(n) = parse_usize(v) {
            self.art_data_size = n;
            self.dirty = true;
        }
    }

    /// Applies a `binary:` value, as `binary_effect` states.
    fn apply_binary(&mut self, v: &str)
        ensures
            final(self)@ == binary_effect(old(self)@, v@),
    {
        proof {
            reveal(binary_effect);
        }
        if let Some(n) = parse_usize(v) {
            self.current_binary_size = n;
            self.dirty = true;
        }
    }

    /// Applies a `Title:` value, as `title_effect` states.
    fn apply_title(&mut self, v: String)
        ensures
            final(self)@ == title_effect(old(self)@, v@),
    {
        self.current_song_title = v;
        self.dirty = true;
        proof {
            reveal(title_effect);
        }
    }

    /// Applies an `Artist:` value, as `artist_effect` states.
    fn apply_artist(&mut self, v: String)
        ensures
            final(self)@ == artist_effect(old(self)@, v@),
    {
        self.current_song_artist = v;
        self.dirty = true;
        proof {
            reveal(artist_effect);
        }
    }

    /// Applies a `type:` value, as `art_type_effect` states.
    fn apply_art_type(&mut self, v: String)
        ensures
            final(self)@ == art_type_effect(old(self)@, v@),
    {
        self.art_data_type = v;
        self.dirty = true;
        proof {
            reveal(art_type_effect);
        }
    }

    /// The response interpreter: applies one complete line received at time
    /// `now`, as `apply_line` states, and says what the read loop does next.
    pub fn interpret_line(&mut self, line: String, now: u64) -> (r: LineFlow)
        ensures
            (final(self)@, r) == apply_line(old(self)@, line@, now),
    {
        let l = line.as_str();
        if self.is_init {
            if starts_with(l, "OK MPD ") {
                self.apply_banner();
                return LineFlow::Done;
            }
            return LineFlow::Failed;
        }
        if starts_with(l, "OK") {
            self.apply_ok();
            return LineFlow::Done;
        }
        if starts_with(l, "ACK") {
            self.apply_ack(l);
            return LineFlow::Continue;
        }
        if starts_with(l, "state: ") {
            let v = strip_prefix(l, "state: ");
            let stop = String::from_str("stop");
            let pause = String::from_str("pause");
            let play = String::from_str("play");
            if v == stop {
                self.apply_stop();
            } else if v == pause {
                self.apply_pause();
            } else if v == play {
                self.apply_play(now);
            }
            return LineFlow::Continue;
        }
        if starts_with(l, "file: ") {
            let name = strip_prefix(l, "file: ");
            self.apply_file(name, now);
            return LineFlow::Continue;
        }
        if starts_with(l, "elapsed: ") {
            let v = strip_prefix(l, "elapsed: ");
            self.apply_elapsed(v.as_str(), now);
            return LineFlow::Continue;
        }
        if starts_with(l, "duration: ") {
            let v = strip_prefix(l, "duration: ");
            self.apply_duration(v.as_str(), now);
            return LineFlow::Continue;
        }
        if starts_with(l, "size: ") {
            let v = strip_prefix(l, "size: ");
            self.apply_size(v.as_str());
            return LineFlow::Continue;
        }
        if starts_with(l, "binary: ") {
            let v = strip_prefix(l, "binary: ");
            self.apply_binary(v.as_str());
            return LineFlow::Continue;
        }
        if starts_with(l, "Title: ") {
            let v = strip_prefix(l, "Title: ");
            self.apply_title(v);
            return LineFlow::Continue;
        }
        if starts_with(l, "Artist: ") {
            let v = strip_prefix(l, "Artist: ");
            self.apply_artist(v);
            return LineFlow::Continue;
        }
        if starts_with(l, "type: ") {
            let v = strip_prefix(l, "type: ");
            self.apply_art_type(v);
            return LineFlow::Continue;
        }
        LineFlow::Continue
    }
    /// Skips the separator byte that follows a finished binary chunk.
    fn skip_separator(&mut self, buf: &mut Vec<u8>)
        requires
            old(self)@.separator_pending,
            old(buf)@.len() > 0,
        ensures
            (final(self)@, final(buf)@) == binary_stage(old(self)@, old(buf)@),
    {
        self.separator_pending = false;
        let rest = buf.split_off(1);
        *buf = rest;
        proof {
            reveal(separator_skipped);
            assert(final(buf)@ =~= old(buf)@.drop_first());
        }
    }

    /// Appends `bytes` to the art as far as the announced size leaves room,
    /// as `art_received` states.
    fn receive_art(&mut self, bytes: &mut Vec<u8>)
        ensures
            final(self)@ == art_received(old(self)@, old(bytes)@),
            final(bytes)@ == Seq::<u8>::empty(),
    {
        let room: usize = if self.art_data.len() < self.art_data_size {
            self.art_data_size - self.art_data.len()
        } else {
            0
        };
        if bytes.len() > room {
            bytes.truncate(room);
        }
        self.art_data.append(bytes);
        self.dirty = true;
        proof {
            reveal(art_received);
        }
    }

    /// The rest of a binary chunk is in `buf`: takes it, and its separator
    /// where that arrived too.
    fn complete_chunk(&mut self, buf: &mut Vec<u8>)
        requires
            !old(self)@.separator_pending,
            0 < old(self)@.binary_remaining <= old(buf)@.len(),
        ensures
            (final(self)@, final(buf)@) == binary_stage(old(self)@, old(buf)@),
    {
        let n = self.current_binary_size;
        let len = buf.len();
        let mut rest = buf.split_off(n);
        let ghost s0 = self@;
        self.receive_art(buf);
        self.current_binary_size = 0;
        if n < len {
            self.separator_pending = false;
            let after = rest.split_off(1);
            *buf = after;
            proof {
                reveal(chunk_completed);
                assert(final(buf)@ =~= old(buf)@.subrange(n + 1, old(buf)@.len() as int));
            }
        } else {
            self.separator_pending = true;
            proof {
                reveal(chunk_completed);
                assert(old(buf)@.subrange(0, n as int) =~= old(buf)@);
            }
        }
    }

    /// All of `buf` belongs to a binary chunk that goes on after it.
    fn progress_chunk(&mut self, buf: &mut Vec<u8>)
        requires
            !old(self)@.separator_pending,
            old(self)@.binary_remaining > old(buf)@.len(),
        ensures
            (final(self)@, final(buf)@) == binary_stage(old(self)@, old(buf)@),
    {
        let n = buf.len();
        self.receive_art(buf);
        proof {
            reveal(art_received);
        }
        self.current_binary_size = self.current_binary_size - n;
        proof {
            reveal(chunk_progressed);
        }
    }

    /// The binary chunk extractor: takes from the front of `buf` the bytes
    /// that an announced binary chunk still owns, and its separator byte, as
    /// `binary_stage` states; what is left in `buf` is for line decoding.
    pub fn take_binary_chunk(&mut self, buf: &mut Vec<u8>)
        ensures
            (final(self)@, final(buf)@) == binary_stage(old(self)@, old(buf)@),
    {
        if self.separator_pending {
            if buf.len() > 0 {
                self.skip_separator(buf);
            }
        } else if self.current_binary_size > 0 {
            if self.current_binary_size <= buf.len() {
                self.complete_chunk(buf);
            } else {
                self.progress_chunk(buf);
            }
        }
    }

    /// Replaces the partial line carried over to the next read.
    fn set_saved_line(&mut self, saved_line: String)
        ensures
            final(self)@ == with_carry(old(self)@, old(self)@.saved_bytes, saved_line@),
    {
        self.saved_line = saved_line;
        proof {
            reveal(with_carry);
        }
    }

    /// One step of the read loop, as `read_step` states.
    fn read_step(&mut self, buf: &mut Vec<u8>, now: u64) -> (r: Option<LineFlow>)
        ensures
            (final(self)@, final(buf)@, r) == read_step(old(self)@, old(buf)@, now),
    {
        self.take_binary_chunk(buf);
        if self.current_binary_size > 0 || self.separator_pending {
            return Some(LineFlow::Continue);
        }
        let init = self.is_init;
        let result = read_line(buf, &mut self.saved_bytes, init);
        proof {
            reveal(with_carry);
        }
        match result {
            Err((_, partial)) => {
                let mut line = self.saved_line.clone();
                line.append(partial.as_str());
                self.set_saved_line(line);
                Some(LineFlow::Continue)
            },
            Ok(line) => {
                let mut full = self.saved_line.clone();
                full.append(line.as_str());
                self.set_saved_line(String::new());
                let f = self.interpret_line(full, now);
                if f == LineFlow::Continue {
                    None
                } else {
                    Some(f)
                }
            },
        }
    }

    /// Handles the bytes `data` of one read at time `now`: binary chunks go
    /// to the art, lines to the interpreter, as `read_block_effect` states.
    /// Fails only on a wrong handshake banner.
    pub fn handler_read_block(&mut self, data: Vec<u8>, now: u64) -> (r: Result<(), String>)
        ensures
            final(self)@ == read_block_effect(old(self)@, data@, now).0,
            r is Ok <==> read_block_effect(old(self)@, data@, now).1,
    {
        let ghost target = read_loop(old(self)@, data@, now);
        let mut buf = data;
        let mut flow = LineFlow::Continue;
        loop
            invariant_except_break
                read_loop(self@, buf@, now) == target,
            ensures
                (self@, flow) == target,
            decreases buf@.len(),
        {
            let len_before = buf.len();
            match self.read_step(&mut buf, now) {
                Some(f) => {
                    flow = f;
                    break;
                },
                None => {
                    if buf.len() >= len_before {
                        flow = LineFlow::Continue;
                        break;
                    }
                },
            }
        }
        if flow == LineFlow::Failed {
            return Err(String::from_str("Did not get expected init message from MPD"));
        }
        Ok(())
    }

    /// Whether the track has run past its expected end without the
    /// overtime check having fired for it.
    fn is_overtime(&self, now: u64) -> (r: bool)
        ensures
            r == overtime(self@, now),
    {
        let since: u64 = if now >= self.song_pos_get_time {
            now - self.song_pos_get_time
        } else {
            0
        };
        self.mpd_play_state == MPDPlayState::Playing && !self.did_check_overtime && (
        self.current_song_position as u128) + (since as u128) > (
        self.current_song_length as u128) + (OVERTIME_MARGIN_MILLIS as u128)
    }

    /// Runs the overtime check, as `overtime_checked` states.
    fn check_overtime(&mut self, now: u64)
        ensures
            final(self)@ == overtime_checked(old(self)@, now),
    {
        let o = self.is_overtime(now);
        self.did_check_overtime = self.did_check_overtime || o;
        self.force_get_current_song = self.force_get_current_song || o;
        proof {
            reveal(overtime_checked);
        }
    }

    /// Whether more than the poll interval has passed since `then`.
    fn poll_due(now: u64, then: u64) -> (r: bool)
        ensures
            r == (elapsed(now, then) > POLL_MILLIS),
    {
        now >= then && now - then > POLL_MILLIS
    }

    /// The request to issue next, as `choose_request` states.
    fn choose_request(&self, now: u64) -> (r: PollState)
        ensures
            r == choose_request(self@, now),
    {
        let wants_art = (self.art_data.len() == 0 || self.art_data.len() != self.art_data_size)
            && self.current_song_filename.as_str().unicode_len() > 0;
        if !self.is_authenticated && self.password.as_str().unicode_len() > 0
            && self.can_authenticate {
            PollState::Password
        } else if self.can_get_status && (Self::poll_due(now, self.song_title_get_time)
            || self.force_get_current_song) && self.mpd_play_state == MPDPlayState::Playing {
            PollState::CurrentSong
        } else if self.can_get_status && (Self::poll_due(now, self.song_length_get_time)
            || Self::poll_due(now, self.song_pos_get_time) || self.force_get_status) {
            PollState::Status
        } else if wants_art && self.can_get_album_art {
            PollState::ReadPicture
        } else if wants_art && self.can_get_album_art_in_dir {
            PollState::ReadPictureInDir
        } else {
            PollState::Idle
        }
    }

    /// Clears the forced fetch that request `p` serves.
    fn note_request_chosen(&mut self, p: PollState)
        ensures
            final(self)@ == request_chosen(old(self)@, p),
    {
        self.force_get_current_song = self.force_get_current_song && p != PollState::CurrentSong;
        self.force_get_status = self.force_get_status && p != PollState::Status;
        proof {
            reveal(request_chosen);
        }
    }

    /// The poll state machine at time `now`, as `write_decision` states:
    /// the request to send next, or `Idle` for none. Nothing is chosen while
    /// a request is pending.
    pub fn handler_write_block(&mut self, now: u64) -> (r: PollState)
        ensures
            (final(self)@, r) == write_decision(old(self)@, now),
            old(self)@.poll_state != PollState::Idle ==> r == PollState::Idle && final(self)@ == old(
                self,
            )@,
    {
        if self.poll_state != PollState::Idle {
            return PollState::Idle;
        }
        self.check_overtime(now);
        let p = self.choose_request(now);
        self.note_request_chosen(p);
        p
    }

    /// The text of the command for request `p`, newline included.
    pub fn request_text(&self, p: PollState) -> (r: String)
        ensures
            r@ == command_text(self@, p),
    {
        match p {
            PollState::Idle => String::new(),
            PollState::Password => {
                let mut t = String::from_str("password ");
                t.append(self.password.as_str());
                t.append("\n");
                t
            },
            PollState::CurrentSong => String::from_str("currentsong\n"),
            PollState::Status => String::from_str("status\n"),
            PollState::ReadPicture => {
                let mut t = String::from_str("readpicture \"");
                t.append(self.current_song_filename.as_str());
                t.append("\" ");
                push_decimal(&mut t, self.art_data.len() as u64);
                t.append("\n");
                t
            },
            PollState::ReadPictureInDir => {
                let mut t = String::from_str("albumart \"");
                t.append(self.current_song_filename.as_str());
                t.append("\" ");
                push_decimal(&mut t, self.art_data.len() as u64);
                t.append("\n");
                t
            },
        }
    }

    /// Records that request `p` went out; it stays pending until its `OK`
    /// or `ACK`. A request already pending is kept.
    pub fn request_sent(&mut self, p: PollState)
        ensures
            final(self)@ == request_sent_effect(old(self)@, p),
    {
        proof {
            reveal(request_sent_effect);
        }
        if self.poll_state == PollState::Idle {
            self.poll_state = p;
        }
    }
    /// The art's MIME type as the server gave it.
    pub fn get_art_type(&self) -> (r: String)
        ensures
            r@ == self@.art_data_type,
    {
        self.art_data_type.clone()
    }

    /// The art is ready: a size was announced and that many bytes arrived.
    pub fn is_art_data_ready(&self) -> (r: bool)
        ensures
            r == (self@.art_data_size != 0 && self@.art_data.len() == self@.art_data_size),
    {
        self.art_data_size != 0 && self.art_data.len() == self.art_data_size
    }

    /// The art bytes received so far.
    pub fn get_art_data(&self) -> (r: &[u8])
        ensures
            r@ == self@.art_data,
    {
        self.art_data.as_slice()
    }

    /// A password was accepted.
    pub fn is_authenticated(&self) -> (r: bool)
        ensures
            r == self@.is_authenticated,
    {
        self.is_authenticated
    }

    /// The server refused to authenticate this session.
    pub fn failed_to_authenticate(&self) -> (r: bool)
        ensures
            r == !self@.can_authenticate,
    {
        !self.can_authenticate
    }

    /// An art request is in flight.
    pub fn is_reading_picture(&self) -> (r: bool)
        ensures
            r == (self@.poll_state == PollState::ReadPicture || self@.poll_state
                == PollState::ReadPictureInDir),
    {
        self.poll_state == PollState::ReadPicture || self.poll_state == PollState::ReadPictureInDir
    }

    /// The session cannot go on: the server refused the password.
    pub fn stop_requested(&self) -> (r: bool)
        ensures
            r == self@.stop_requested,
    {
        self.stop_requested
    }

    /// Whether the state changed since the last call; the mark is cleared.
    pub fn take_dirty(&mut self) -> (r: bool)
        ensures
            r == old(self)@.dirty,
            final(self)@ == (HandlerView { dirty: false, ..old(self)@ }),
    {
        let d = self.dirty;
        self.dirty = false;
        d
    }

    /// Asks for the current song at the next poll.
    pub fn force_get_current_song(&mut self)
        ensures
            final(self)@ == (HandlerView { force_get_current_song: true, ..old(self)@ }),
    {
        self.force_get_current_song = true;
    }

    /// Drops the art received and fetches it again by the directory method,
    /// for art that the embedded method delivered but that cannot be used.
    pub fn force_try_other_album_art(&mut self)
        ensures
            final(self)@ == (HandlerView {
                art_data: Seq::empty(),
                art_data_size: 0,
                can_get_album_art: false,
                can_get_album_art_in_dir: true,
                ..old(self)@
            }),
    {
        self.art_data = Vec::new();
        self.art_data_size = 0;
        self.can_get_album_art = false;
        self.can_get_album_art_in_dir = true;
    }

    /// What a display shows, at time `now`: while playing, the position
    /// advances with the time since it was last reported.
    pub fn get_mpd_handler_shared_state(&self, now: u64) -> (r: InfoFromShared)
        ensures
            r.filename@ == self@.filename,
            r.title@ == self@.title,
            r.artist@ == self@.artist,
            r.length_ms == self@.length_ms,
            r.pos_ms == shown_position(self@, now),
            r.error_text@ == self@.error_text,
            r.mpd_play_state == self@.play_state,
    {
        let since: u64 = if self.mpd_play_state == MPDPlayState::Playing && now
            >= self.song_pos_get_time {
            now - self.song_pos_get_time
        } else {
            0
        };
        InfoFromShared {
            filename: self.current_song_filename.clone(),
            title: self.current_song_title.clone(),
            artist: self.current_song_artist.clone(),
            length_ms: self.current_song_length,
            pos_ms: self.current_song_position.saturating_add(since),
            error_text: self.error_text.clone(),
            mpd_play_state: self.mpd_play_state,
        }
    }
}

} // verus!
