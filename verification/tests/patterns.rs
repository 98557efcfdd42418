use probor::regex_serde::Pattern;
use probor::{from_slice, to_buf, DecodeError};

#[test]
fn pattern_round_trips_as_text() {
    let p = Pattern::new("a+b".to_string()).unwrap();
    assert_eq!(p.as_str(), "a+b");
    assert!(p.regex().is_match("xaab"));
    let bytes = to_buf(&p);
    assert_eq!(bytes, vec![0x63, b'a', b'+', b'b']);
    let q: Pattern = from_slice(&bytes).unwrap();
    assert_eq!(q.as_str(), "a+b");
}

#[test]
fn invalid_pattern_is_refused() {
    assert!(Pattern::new("foo(bar".to_string()).is_err());
    let bytes = to_buf(&"foo(bar".to_string());
    let e = from_slice::<Pattern>(&bytes).unwrap_err();
    assert!(matches!(e, DecodeError::WrongValue("invalid regexp")));
    assert!(matches!(from_slice::<Pattern>(b"\x01"), Err(DecodeError::WrongType("string expected", _))));
}
