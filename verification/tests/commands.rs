use open_recorder::capture::source_enum::SourceOption;
use open_recorder::commands::{camera_options, mic_options, sources_payload};
use open_recorder::text::{decimal, last_chars, parse_unsigned_text, trim};

fn opt(id: &str) -> SourceOption {
    SourceOption { id: id.into(), name: id.into(), kind: "display".into(), rect: [0, 0, 1, 1] }
}

#[test]
fn sources_payload_degrades_on_window_error() {
    let p = sources_payload(Ok(vec![opt("1")]), Err("denied".into())).unwrap();
    assert_eq!(p.displays, vec![opt("1")]);
    assert!(p.windows.is_empty());
    let p = sources_payload(Ok(vec![]), Ok(vec![opt("w")])).unwrap();
    assert_eq!(p.windows, vec![opt("w")]);
    assert_eq!(sources_payload(Err("no displays".into()), Ok(vec![])).unwrap_err(), "no displays");
}

#[test]
fn device_options_keep_pairs() {
    let m = mic_options(vec![("MacBook Mic".into(), "MacBook Mic".into())]);
    assert_eq!((m[0].id.as_str(), m[0].name.as_str()), ("MacBook Mic", "MacBook Mic"));
    let c = camera_options(vec![("0".into(), "FaceTime HD".into()), ("1".into(), "USB".into())]);
    assert_eq!(c.len(), 2);
    assert_eq!(c[1].id, "1");
    assert_eq!(c[1].name, "USB");
}

#[test]
fn decimal_and_parse_round_trip() {
    for n in [0u64, 7, 10, 1234567890, u64::MAX] {
        assert_eq!(decimal(n), n.to_string());
        assert_eq!(parse_unsigned_text(&n.to_string(), u64::MAX), Some(n));
    }
    assert_eq!(parse_unsigned_text("4294967296", u32::MAX as u64), None);
    assert_eq!(parse_unsigned_text("+12", 100), Some(12));
    assert_eq!(parse_unsigned_text("+", 100), None);
    assert_eq!(parse_unsigned_text("-1", 100), None);
    assert_eq!(parse_unsigned_text("1 ", 100), None);
}

#[test]
fn last_chars_keeps_tail() {
    assert_eq!(last_chars("abcdef", 3), "def");
    assert_eq!(last_chars("ab", 3), "ab");
    assert_eq!(last_chars("ação", 2), "ão");
}

#[test]
fn trim_matches_std() {
    for t in ["", "   ", "abc", "  abc  ", "\t a b \n", "\u{3000}x\u{a0}", "\u{200b}x", "a\u{2028}", " é "] {
        assert_eq!(trim(t), t.trim(), "{t:?}");
    }
    assert_eq!(trim(" 1920x1080 \n"), "1920x1080");
}
