use gdb_rsp::binary::{escape, unescape};
use gdb_rsp::checksum::compute_checksum;
use gdb_rsp::frame::{
    check_frame, checksum_digits, console_text, contains_delimiter, find_start, frame_text,
    FrameError,
};
use gdb_rsp::hex::{
    hex_decode, hex_digit_str, hex_encode, hex_value, parse_hex, push_hex_pair, push_number_hex,
};

#[test]
fn checksum_is_the_sum_modulo_256() {
    assert_eq!(compute_checksum(b""), 0);
    assert_eq!(compute_checksum(b"OK"), 0x9a);
    assert_eq!(compute_checksum(b"?"), 0x3f);
    assert_eq!(compute_checksum(b"vCont;c"), 0xa8);
    assert_eq!(compute_checksum(b"QStartNoAckMode"), 0xb0);
    assert_eq!(compute_checksum(&[0xff, 0xff, 0x03]), 0x01);
}

#[test]
fn checksum_digits_are_lowercase() {
    assert_eq!(checksum_digits(b"literal"), (b'e', b'd'));
    assert_eq!(checksum_digits(b""), (b'0', b'0'));
    assert_eq!(checksum_digits(b"vCont;c"), (b'a', b'8'));
}

#[test]
fn frame_text_adds_start_end_and_checksum() {
    assert_eq!(frame_text("OK"), "$OK#9a");
    assert_eq!(frame_text(""), "$#00");
    assert_eq!(frame_text("T02"), "$T02#b6");
    assert_eq!(frame_text("T05"), "$T05#b9");
    assert_eq!(frame_text("E01"), "$E01#a6");
    assert_eq!(frame_text("vCont;c;C;s;S"), "$vCont;c;C;s;S#62");
}

#[test]
fn frame_text_sums_the_bytes_of_wide_characters() {
    // U+00E9 is two bytes on the wire: 0xc3 0xa9.
    assert_eq!(frame_text("\u{e9}"), "$\u{e9}#6c");
}

#[test]
fn console_text_is_o_and_two_digits_per_byte() {
    assert_eq!(console_text(b"hi"), "O6869");
    assert_eq!(console_text(b""), "O");
    assert_eq!(console_text(&[0x00, 0x0a, 0xff]), "O000aff");
}

#[test]
fn hex_digits_are_lowercase() {
    assert_eq!(hex_digit_str(0), "0");
    assert_eq!(hex_digit_str(9), "9");
    assert_eq!(hex_digit_str(10), "a");
    assert_eq!(hex_digit_str(15), "f");
}

#[test]
fn hex_pair_is_appended_high_nibble_first() {
    let mut s = String::from("x");
    push_hex_pair(&mut s, 0x0e);
    push_hex_pair(&mut s, 0xf1);
    assert_eq!(s, "x0ef1");
}

#[test]
fn hex_encode_gives_two_digits_per_byte() {
    assert_eq!(hex_encode(&[]), "");
    assert_eq!(hex_encode(&[0x33, 0x22, 0x11, 0x00]), "33221100");
    assert_eq!(hex_encode(&[0xde, 0xad, 0xbe, 0xef]), "deadbeef");
}

#[test]
fn hex_value_takes_both_cases() {
    assert_eq!(hex_value(b'0'), Some(0));
    assert_eq!(hex_value(b'9'), Some(9));
    assert_eq!(hex_value(b'a'), Some(10));
    assert_eq!(hex_value(b'f'), Some(15));
    assert_eq!(hex_value(b'A'), Some(10));
    assert_eq!(hex_value(b'F'), Some(15));
    assert_eq!(hex_value(b'g'), None);
    assert_eq!(hex_value(b'G'), None);
    assert_eq!(hex_value(b'/'), None);
    assert_eq!(hex_value(b':'), None);
    assert_eq!(hex_value(b'+'), None);
}

#[test]
fn hex_decode_pairs_digits_into_bytes() {
    assert_eq!(hex_decode(b""), Some(vec![]));
    assert_eq!(hex_decode(b"7766554433221100"), Some(vec![0x77, 0x66, 0x55, 0x44, 0x33, 0x22, 0x11, 0x00]));
    assert_eq!(hex_decode(b"DeadBEEF"), Some(vec![0xde, 0xad, 0xbe, 0xef]));
}

#[test]
fn hex_decode_refuses_odd_length_and_other_bytes() {
    assert_eq!(hex_decode(b"abc"), None);
    assert_eq!(hex_decode(b"0"), None);
    assert_eq!(hex_decode(b"zz"), None);
    assert_eq!(hex_decode(b"+a"), None);
    assert_eq!(hex_decode(b"12 4"), None);
}

#[test]
fn hex_round_trip_on_all_byte_values() {
    let all: Vec<u8> = (0..=255u8).collect();
    let text = hex_encode(&all);
    assert_eq!(text.len(), 512);
    assert_eq!(hex_decode(text.as_bytes()), Some(all));
}

#[test]
fn parse_hex_reads_numbers() {
    assert_eq!(parse_hex(b"0"), Some(0));
    assert_eq!(parse_hex(b"1f"), Some(0x1f));
    assert_eq!(parse_hex(b"1000"), Some(4096));
    assert_eq!(parse_hex(b"DEADbeef"), Some(0xdead_beef));
    assert_eq!(parse_hex(b"ffffffffffffffff"), Some(u64::MAX));
    assert_eq!(parse_hex(b"0000000000000000000000001"), Some(1));
}

#[test]
fn parse_hex_refuses_empty_overflow_and_other_bytes() {
    assert_eq!(parse_hex(b""), None);
    assert_eq!(parse_hex(b"10000000000000000"), None);
    assert_eq!(parse_hex(b"ffffffffffffffff0"), None);
    assert_eq!(parse_hex(b"12g"), None);
    assert_eq!(parse_hex(b"+12"), None);
    assert_eq!(parse_hex(b"-1"), None);
    assert_eq!(parse_hex(b"0x10"), None);
}

#[test]
fn number_hex_is_shortest_lowercase() {
    let mut s = String::new();
    push_number_hex(&mut s, 4096);
    assert_eq!(s, "1000");
    let mut s = String::new();
    push_number_hex(&mut s, 0);
    assert_eq!(s, "0");
    let mut s = String::from("PacketSize=");
    push_number_hex(&mut s, 0xabc);
    assert_eq!(s, "PacketSize=abc");
    let mut s = String::new();
    push_number_hex(&mut s, 15);
    assert_eq!(s, "f");
    let mut s = String::new();
    push_number_hex(&mut s, 16);
    assert_eq!(s, "10");
}

#[test]
fn find_start_looks_at_the_first_two_bytes_only() {
    assert_eq!(find_start(b"$abc", 4), Some(0));
    assert_eq!(find_start(b"+$abc", 5), Some(1));
    assert_eq!(find_start(b"-$abc", 5), Some(1));
    assert_eq!(find_start(b"x$abc", 5), None);
    assert_eq!(find_start(b"++$a", 4), None);
    assert_eq!(find_start(b"+", 1), None);
    assert_eq!(find_start(b"", 0), None);
    // Only the received part counts.
    assert_eq!(find_start(b"+$", 1), None);
}

#[test]
fn contains_delimiter_finds_start_and_end_bytes() {
    assert!(!contains_delimiter(b""));
    assert!(!contains_delimiter(b"qSupported:multiprocess+"));
    assert!(contains_delimiter(b"ab#cd"));
    assert!(contains_delimiter(b"ab$cd"));
    assert!(contains_delimiter(b"#"));
}

#[test]
fn check_frame_accepts_well_formed_packets() {
    assert_eq!(check_frame(b"$?#3f", 5, 4096), Ok(()));
    assert_eq!(check_frame(b"$#00", 4, 4096), Ok(()));
    assert_eq!(check_frame(b"+$QStartNoAckMode#b0", 20, 4096), Ok(()));
    assert_eq!(check_frame(b"-$vCont;c#a8", 12, 4096), Ok(()));
    // Bytes behind the received part are not looked at.
    assert_eq!(check_frame(b"$?#3f~~~~", 5, 4096), Ok(()));
    // A frame may be exactly as long as the packet size.
    assert_eq!(check_frame(b"$?#3f", 5, 5), Ok(()));
}

#[test]
fn check_frame_reports_too_long() {
    assert_eq!(check_frame(b"$?#3f", 5, 4), Err(FrameError::TooLong));
    // Length is looked at first.
    assert_eq!(check_frame(b"garbage", 7, 6), Err(FrameError::TooLong));
}

#[test]
fn check_frame_reports_missing_start() {
    assert_eq!(check_frame(b"?#3f", 4, 4096), Err(FrameError::MissingStart));
    assert_eq!(check_frame(b"x$?#3f", 6, 4096), Err(FrameError::MissingStart));
    assert_eq!(check_frame(b"++$?#3f", 7, 4096), Err(FrameError::MissingStart));
    assert_eq!(check_frame(b"+-", 2, 4096), Err(FrameError::MissingStart));
}

#[test]
fn check_frame_reports_missing_end() {
    assert_eq!(check_frame(b"$?3f", 4, 4096), Err(FrameError::MissingEnd));
    assert_eq!(check_frame(b"$#0", 3, 4096), Err(FrameError::MissingEnd));
    assert_eq!(check_frame(b"$a", 2, 4096), Err(FrameError::MissingEnd));
    assert_eq!(check_frame(b"+$#0", 4, 4096), Err(FrameError::MissingEnd));
    assert_eq!(check_frame(b"$?#3f0", 6, 4096), Err(FrameError::MissingEnd));
}

#[test]
fn check_frame_reports_bad_checksum() {
    assert_eq!(check_frame(b"$?#3e", 5, 4096), Err(FrameError::BadChecksum));
    assert_eq!(check_frame(b"$?#00", 5, 4096), Err(FrameError::BadChecksum));
    // The digits must be lowercase.
    assert_eq!(check_frame(b"$?#3F", 5, 4096), Err(FrameError::BadChecksum));
    assert_eq!(check_frame(b"$vCont;c#A8", 11, 4096), Err(FrameError::BadChecksum));
    assert_eq!(check_frame(b"$?#zz", 5, 4096), Err(FrameError::BadChecksum));
}

#[test]
fn check_frame_reports_stray_delimiter() {
    // "a#b" sums to 0x61 + 0x23 + 0x62 = 0xe6.
    assert_eq!(check_frame(b"$a#b#e6", 7, 4096), Err(FrameError::StrayDelimiter));
    // "a$b" sums to 0x61 + 0x24 + 0x62 = 0xe7.
    assert_eq!(check_frame(b"$a$b#e7", 7, 4096), Err(FrameError::StrayDelimiter));
}

#[test]
fn check_frame_lets_binary_payloads_hold_delimiters() {
    // "X1000,1:#" sums to 0xd3.
    assert_eq!(check_frame(b"$X1000,1:##d3", 13, 4096), Ok(()));
}

#[test]
fn escape_marks_hash_dollar_and_brace() {
    assert_eq!(escape(&[0x01, 0x23, 0x7d, 0x41]), vec![0x01, 0x7d, 0x03, 0x7d, 0x5d, 0x41]);
    assert_eq!(escape(b"$"), vec![0x7d, 0x04]);
    assert_eq!(escape(b"plain"), b"plain".to_vec());
    assert_eq!(escape(b""), Vec::<u8>::new());
}

#[test]
fn unescape_flips_the_byte_behind_a_brace() {
    assert_eq!(unescape(&[0x01, 0x7d, 0x03, 0x7d, 0x5d, 0x41]), Some(vec![0x01, 0x23, 0x7d, 0x41]));
    assert_eq!(unescape(b"plain"), Some(b"plain".to_vec()));
    assert_eq!(unescape(b""), Some(vec![]));
    // An escaped brace is the byte 0x5d behind the escape.
    assert_eq!(unescape(&[0x7d, 0x7d]), Some(vec![0x5d]));
    // Raw delimiters stand for themselves.
    assert_eq!(unescape(b"#$"), Some(b"#$".to_vec()));
}

#[test]
fn unescape_refuses_a_brace_at_the_end() {
    assert_eq!(unescape(&[0x7d]), None);
    assert_eq!(unescape(&[0x41, 0x7d]), None);
    assert_eq!(unescape(&[0x7d, 0x03, 0x7d]), None);
}

#[test]
fn escape_round_trip_on_all_byte_values() {
    let all: Vec<u8> = (0..=255u8).collect();
    let escaped = escape(&all);
    assert_eq!(escaped.len(), 256 + 3);
    assert!(!escaped.contains(&b'#'));
    assert!(!escaped.contains(&b'$'));
    assert_eq!(unescape(&escaped), Some(all));
}
