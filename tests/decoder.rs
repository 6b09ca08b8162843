use mpd_info_screen::debug_log::{log, LogLevel, LogState};
use mpd_info_screen::line_decoder::{check_next_chars, read_line};
use mpd_info_screen::text::{contains, parse_millis, parse_usize, push_decimal, starts_with};
use mpd_info_screen::time_text::seconds_to_time;

#[test]
fn decoder_joins_line_split_across_reads() {
    let mut saved: Vec<u8> = Vec::new();
    let mut buf: Vec<u8> = b"Artist: Ex".to_vec();
    let first = read_line(&mut buf, &mut saved, false);
    let partial = match first {
        Err((_, partial)) => partial,
        Ok(line) => panic!("unexpected line {line}"),
    };
    assert_eq!(partial, "Artist: Ex");
    assert!(saved.is_empty());
    let mut buf: Vec<u8> = b"ample\n".to_vec();
    let second = read_line(&mut buf, &mut saved, false).expect("a complete line");
    assert_eq!(format!("{partial}{second}"), "Artist: Example");
    assert!(buf.is_empty());
}

#[test]
fn decoder_reassembles_multibyte_line_at_every_split() {
    let text = "Title: h\u{e9}llo \u{2713} \u{1d11e} end";
    let mut bytes = text.as_bytes().to_vec();
    bytes.push(b'\n');
    for k in 0..text.len() + 1 {
        let mut saved: Vec<u8> = Vec::new();
        let mut buf = bytes[..k].to_vec();
        let partial = match read_line(&mut buf, &mut saved, false) {
            Err((_, partial)) => partial,
            Ok(line) => panic!("split {k}: unexpected line {line}"),
        };
        let mut buf = bytes[k..].to_vec();
        let rest = read_line(&mut buf, &mut saved, false).expect("second part completes the line");
        assert_eq!(format!("{partial}{rest}"), text, "split at {k}");
        assert!(buf.is_empty());
        assert!(saved.is_empty());
    }
}

#[test]
fn decoder_hands_back_bytes_after_newline() {
    let mut saved: Vec<u8> = Vec::new();
    let mut buf: Vec<u8> = b"file: a.mp3\nTitle: A\n".to_vec();
    assert_eq!(read_line(&mut buf, &mut saved, false).unwrap(), "file: a.mp3");
    assert_eq!(buf, b"Title: A\n".to_vec());
    assert_eq!(read_line(&mut buf, &mut saved, false).unwrap(), "Title: A");
    assert!(buf.is_empty());
}

#[test]
fn decoder_reads_line_ending_in_ok_as_bare_ok() {
    let mut saved: Vec<u8> = Vec::new();
    let mut buf: Vec<u8> = b"xOK\n".to_vec();
    assert_eq!(read_line(&mut buf, &mut saved, false).unwrap(), "OK");
    let mut buf: Vec<u8> = b"xOK\n".to_vec();
    assert_eq!(read_line(&mut buf, &mut saved, true).unwrap(), "xOK");
    let mut buf: Vec<u8> = b"xOK\nmore".to_vec();
    assert_eq!(read_line(&mut buf, &mut saved, false).unwrap(), "xOK");
}

#[test]
fn decoder_rejects_empty_input_and_invalid_bytes() {
    let mut saved: Vec<u8> = Vec::new();
    let mut buf: Vec<u8> = Vec::new();
    assert!(read_line(&mut buf, &mut saved, false).is_err());
    let mut buf: Vec<u8> = vec![b'a', 0xff, b'b', b'\n'];
    match read_line(&mut buf, &mut saved, false) {
        Err((_, partial)) => assert_eq!(partial, "a"),
        Ok(line) => panic!("unexpected line {line}"),
    }
    assert_eq!(buf, vec![0xff, b'b', b'\n']);
    assert!(saved.is_empty());
}

#[test]
fn decoder_carries_cut_off_sequence() {
    let mut saved: Vec<u8> = Vec::new();
    let mut buf: Vec<u8> = vec![b'a', 0xe2, 0x9c];
    match read_line(&mut buf, &mut saved, false) {
        Err((_, partial)) => assert_eq!(partial, "a"),
        Ok(line) => panic!("unexpected line {line}"),
    }
    assert_eq!(saved, vec![0xe2, 0x9c]);
    let mut buf: Vec<u8> = vec![0x93, b'\n'];
    assert_eq!(read_line(&mut buf, &mut saved, false).unwrap(), "\u{2713}");
}

#[test]
fn next_char_decodes_each_width() {
    let mut saved: Vec<u8> = Vec::new();
    assert_eq!(check_next_chars(b"a", 0, &mut saved).unwrap(), ('a', 1));
    assert_eq!(check_next_chars("\u{e9}".as_bytes(), 0, &mut saved).unwrap(), ('\u{e9}', 2));
    assert_eq!(check_next_chars("\u{2713}".as_bytes(), 0, &mut saved).unwrap(), ('\u{2713}', 3));
    assert_eq!(
        check_next_chars("\u{1d11e}".as_bytes(), 0, &mut saved).unwrap(),
        ('\u{1d11e}', 4)
    );
    assert!(saved.is_empty());
}

#[test]
fn next_char_reports_missing_bytes() {
    let mut saved: Vec<u8> = Vec::new();
    let bytes = "\u{1d11e}".as_bytes();
    match check_next_chars(&bytes[..1], 0, &mut saved) {
        Err((_, missing)) => assert_eq!(missing, 3),
        Ok(c) => panic!("unexpected {c:?}"),
    }
    assert_eq!(saved, bytes[..1].to_vec());
}

#[test]
fn next_char_rejects_malformed_sequences() {
    let mut saved: Vec<u8> = Vec::new();
    for bad in [vec![0xffu8], vec![0x80], vec![0xc0, 0x80], vec![0xed, 0xa0, 0x80], vec![0xc3, 0x41]] {
        match check_next_chars(&bad, 0, &mut saved) {
            Err((_, missing)) => assert_eq!(missing, 0),
            Ok(c) => panic!("unexpected {c:?} for {bad:?}"),
        }
    }
    assert!(check_next_chars(b"a", 1, &mut saved).is_err());
    assert!(saved.is_empty());
}

#[test]
fn numbers_parse_as_documented() {
    assert_eq!(parse_usize("42"), Some(42));
    assert_eq!(parse_usize("+7"), Some(7));
    assert_eq!(parse_usize(""), None);
    assert_eq!(parse_usize("+"), None);
    assert_eq!(parse_usize("4x"), None);
    assert_eq!(parse_usize("99999999999999999999999"), None);
    assert_eq!(parse_millis("178.5"), Some(178_500));
    assert_eq!(parse_millis("180.000"), Some(180_000));
    assert_eq!(parse_millis("1.2345"), Some(1_234));
    assert_eq!(parse_millis("3"), Some(3_000));
    assert_eq!(parse_millis(".25"), Some(250));
    assert_eq!(parse_millis("."), None);
    assert_eq!(parse_millis("1.2.3"), None);
    assert_eq!(parse_millis("abc"), None);
}

#[test]
fn decimal_text_and_search() {
    let mut s = String::from("offset ");
    push_decimal(&mut s, 4096);
    assert_eq!(s, "offset 4096");
    let mut z = String::new();
    push_decimal(&mut z, 0);
    assert_eq!(z, "0");
    assert!(starts_with("state: stop", "state: "));
    assert!(!starts_with("sta", "state: "));
    assert!(contains("ACK [4@0] {status} you don't have permission", "don't have permission"));
    assert!(!contains("ACK [50@0] {readpicture} No file exists", "permission"));
}

#[test]
fn log_filters_by_level() {
    assert_eq!(log("boom", LogState::Error, LogLevel::Error), Some(String::from("Error: boom")));
    assert_eq!(log("careful", LogState::Warning, LogLevel::Error), None);
    assert_eq!(
        log("careful", LogState::Warning, LogLevel::Debug),
        Some(String::from("Warning: careful"))
    );
    assert_eq!(log("detail", LogState::Debug, LogLevel::Warning), None);
    assert_eq!(log("detail", LogState::Debug, LogLevel::Verbose), Some(String::from("Debug: detail")));
    assert_eq!(log("noise", LogState::Verbose, LogLevel::Debug), None);
    assert_eq!(
        log("noise", LogState::Verbose, LogLevel::Verbose),
        Some(String::from("Verbose: noise"))
    );
}

#[test]
fn timer_text_pads_seconds_after_minutes() {
    assert_eq!(seconds_to_time(0), "0");
    assert_eq!(seconds_to_time(59_999), "59");
    assert_eq!(seconds_to_time(60_000), "1:00");
    assert_eq!(seconds_to_time(185_500), "3:05");
    assert_eq!(seconds_to_time(600_000), "10:00");
    assert_eq!(seconds_to_time(3_671_000), "61:11");
}
