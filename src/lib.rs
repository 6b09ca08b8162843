/// Severities of log messages and the filter that a log level applies.
pub mod debug_log;
/// The line decoder: UTF-8 lines out of a byte stream that arrives in pieces.
pub mod line_decoder;
/// Prefixes, decimal numbers and their text.
pub mod text;
/// The session with a Music Player Daemon: the response interpreter, the
/// binary chunk extractor and the poll state machine.
pub mod mpd_handler;
/// Timer text for a display.
pub mod time_text;
/// What holds of the session over many reads, lines and polls.
pub mod session_laws;
/// Finding an installed font that has given characters, and checking a font file for a character.
pub mod unicode_support;
