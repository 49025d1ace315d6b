use websink::error::{Missing, SinkError};
use websink::text::{chars_of, contains_text, same_text, to_decimal, trim_start_of};

#[test]
fn same_text_compares_characters() {
    assert!(same_text("", ""));
    assert!(same_text("port", "port"));
    assert!(!same_text("port", "ports"));
    assert!(!same_text("port", "pork"));
    assert!(same_text("\u{e9}", "\u{e9}"));
    assert!(!same_text("\u{e9}", "e"));
}

#[test]
fn chars_of_lists_the_characters() {
    assert_eq!(chars_of("a\u{e9}z"), vec!['a', '\u{e9}', 'z']);
    assert!(chars_of("").is_empty());
}

#[test]
fn contains_text_finds_the_needle_anywhere() {
    assert!(contains_text("the codec is not supported here", "codec is not supported"));
    assert!(contains_text("codec is not supported", "codec is not supported"));
    assert!(contains_text("xcodec is not supported", "codec is not supported"));
    assert!(!contains_text("codec is supported", "codec is not supported"));
    assert!(!contains_text("codec is not", "codec is not supported"));
    assert!(contains_text("anything", ""));
    assert!(contains_text("", ""));
    assert!(!contains_text("", "a"));
    assert!(contains_text("aab", "ab"));
}

#[test]
fn decimal_numerals() {
    assert_eq!(to_decimal(0), "0");
    assert_eq!(to_decimal(7), "7");
    assert_eq!(to_decimal(10), "10");
    assert_eq!(to_decimal(8091), "8091");
    assert_eq!(to_decimal(65535), "65535");
    assert_eq!(to_decimal(1234567890), "1234567890");
    assert_eq!(to_decimal(u64::MAX), "18446744073709551615");
}

#[test]
fn trim_start_cuts_the_leading_run() {
    assert_eq!(trim_start_of("///a/b", '/'), "a/b");
    assert_eq!(trim_start_of("a/b", '/'), "a/b");
    assert_eq!(trim_start_of("///", '/'), "");
    assert_eq!(trim_start_of("", '/'), "");
    assert_eq!(trim_start_of("/\u{e9}/", '/'), "\u{e9}/");
}

#[test]
fn every_error_has_its_text() {
    assert_eq!(SinkError::UnsupportedFormat.message(), "Unsupported video format");
    assert_eq!(SinkError::BadRenegotiation.message(), "Format changed on a pad that feeds a track");
    assert_eq!(SinkError::NotReady(Missing::Configuration).message(), "WebRTC config not initialized");
    assert_eq!(SinkError::NotReady(Missing::Track).message(), "Video track not initialized");
    assert_eq!(
        SinkError::UnsupportedCodec("VIDEO/VP9".to_string()).message(),
        "Server is sending VIDEO/VP9. Codec is not supported by browser."
    );
    assert_eq!(SinkError::NoPortAvailable.message(), "No available port found");
    assert_eq!(SinkError::RuntimeInitFailed.message(), "Failed to create the runtime");
    assert_eq!(SinkError::ParseFailure.message(), "Failed to parse RTP packet");
    assert_eq!(SinkError::WriteFailure.message(), "Failed to write to track");
    assert_eq!(SinkError::Engine("as the engine said".to_string()).message(), "as the engine said");
}
