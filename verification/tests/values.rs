use probor::{decode, from_slice, to_buf, Config, Decodable, DecodeError, Decoder, Encodable};
use std::collections::HashMap;
use std::io::Cursor;
use std::sync::Arc;

fn dec<T: Decodable>(bytes: &[u8]) -> Result<T, DecodeError> {
    decode(&mut Decoder::new(Config::default(), Cursor::new(bytes.to_vec())))
}

fn back<T: Encodable + Decodable>(v: &T) -> T {
    from_slice(&to_buf(v)).unwrap()
}

#[test]
fn unsigned_heads_are_shortest() {
    assert_eq!(to_buf(&0u8), vec![0x00]);
    assert_eq!(to_buf(&23u8), vec![0x17]);
    assert_eq!(to_buf(&24u8), vec![0x18, 0x18]);
    assert_eq!(to_buf(&255u8), vec![0x18, 0xff]);
    assert_eq!(to_buf(&256u16), vec![0x19, 0x01, 0x00]);
    assert_eq!(to_buf(&65536u32), vec![0x1a, 0x00, 0x01, 0x00, 0x00]);
    assert_eq!(to_buf(&0x1_0000_0000u64), vec![0x1b, 0, 0, 0, 1, 0, 0, 0, 0]);
}

#[test]
fn u64_middle_range_takes_eight_bytes() {
    assert_eq!(to_buf(&70000u64), vec![0x1b, 0, 0, 0, 0, 0, 0x01, 0x11, 0x70]);
    assert_eq!(to_buf(&0x100000u64), vec![0x1a, 0x00, 0x10, 0x00, 0x00]);
    assert_eq!(back(&70000u64), 70000);
}

#[test]
fn negative_integers() {
    assert_eq!(to_buf(&-1i8), vec![0x20]);
    assert_eq!(to_buf(&-128i8), vec![0x38, 0x7f]);
    assert_eq!(to_buf(&-500i16), vec![0x39, 0x01, 0xf3]);
    assert_eq!(back(&i64::MIN), i64::MIN);
    assert_eq!(back(&i64::MAX), i64::MAX);
    assert_eq!(back(&i32::MIN), i32::MIN);
    assert_eq!(back(&-128i8), -128i8);
}

#[test]
fn scalars_round_trip() {
    assert_eq!(back(&u8::MAX), u8::MAX);
    assert_eq!(back(&u16::MAX), u16::MAX);
    assert_eq!(back(&u32::MAX), u32::MAX);
    assert_eq!(back(&u64::MAX), u64::MAX);
    assert_eq!(back(&usize::MAX), usize::MAX);
    assert_eq!(back(&true), true);
    assert_eq!(back(&false), false);
    assert_eq!(to_buf(&true), vec![0xf5]);
    assert_eq!(to_buf(&false), vec![0xf4]);
}

#[test]
fn strings_round_trip() {
    assert_eq!(to_buf(&"abc".to_string()), vec![0x63, b'a', b'b', b'c']);
    let s = "grüße, 世界".to_string();
    assert_eq!(back(&s), s);
    assert_eq!(back(&String::new()), String::new());
}

#[test]
fn null_is_no_value() {
    assert!(matches!(dec::<u8>(b"\xf6"), Err(DecodeError::UnexpectedNull)));
    assert!(matches!(dec::<String>(b"\xf6"), Err(DecodeError::UnexpectedNull)));
    assert!(matches!(dec::<Vec<u8>>(b"\xf6"), Err(DecodeError::UnexpectedNull)));
    assert_eq!(<u8 as Decodable>::decode_opt(&mut Decoder::new(Config::default(), Cursor::new(vec![0xf6]))).unwrap(), None);
}

#[test]
fn options_round_trip() {
    assert_eq!(to_buf(&None::<u8>), vec![0xf6]);
    assert_eq!(to_buf(&Some(5u8)), vec![0x05]);
    assert_eq!(back(&Some(5u8)), Some(5u8));
    assert_eq!(back(&None::<u8>), None);
    assert_eq!(dec::<Option<u8>>(b"\xf6").unwrap(), None);
}

#[test]
fn absent_inner_option_comes_back_present() {
    let v: Option<Option<u8>> = None;
    assert_eq!(back(&v), Some(None));
    assert_eq!(back(&Some(Some(3u8))), Some(Some(3u8)));
}

#[test]
fn vectors_round_trip() {
    let v = vec![1u32, 1000, 100000];
    assert_eq!(to_buf(&v)[0], 0x83);
    assert_eq!(back(&v), v);
    let w: Vec<Option<u8>> = vec![Some(1), None, Some(3)];
    assert_eq!(back(&w), w);
    let e: Vec<u8> = Vec::new();
    assert_eq!(to_buf(&e), vec![0x80]);
    assert_eq!(back(&e), e);
}

#[test]
fn boxes_and_arcs_round_trip() {
    assert_eq!(back(&Box::new(7u16)), Box::new(7u16));
    assert_eq!(*back(&Arc::new("x".to_string())), "x".to_string());
    assert_eq!(to_buf(&&9u8), vec![0x09]);
}

#[test]
fn tuples_round_trip() {
    assert_eq!(to_buf(&(1u8, 2u8)), vec![0x82, 0x01, 0x02]);
    assert_eq!(back(&(1u8, "a".to_string(), true)), (1u8, "a".to_string(), true));
    assert!(matches!(dec::<(u8, u8)>(b"\x83\x01\x02\x03"), Err(DecodeError::WrongArrayLength(3))));
    assert!(matches!(dec::<(u8,)>(b"\x01"), Err(DecodeError::WrongType("expected an array of one element", _))));
}

#[test]
fn maps_round_trip() {
    let mut m: HashMap<u64, String> = HashMap::new();
    m.insert(1, "one".to_string());
    m.insert(70000, "big".to_string());
    assert_eq!(to_buf(&m)[0], 0xa2);
    assert_eq!(back(&m), m);
    let empty: HashMap<u8, u8> = HashMap::new();
    assert_eq!(to_buf(&empty), vec![0xa0]);
}

#[test]
fn trailing_data_is_refused() {
    assert!(matches!(from_slice::<u8>(b"\x01\x02"), Err(DecodeError::WrongValue("trailing data"))));
    assert_eq!(from_slice::<u8>(b"\x01").unwrap(), 1);
}

#[test]
fn decoding_stops_where_the_value_ends() {
    let mut d = Decoder::new(Config::default(), Cursor::new(vec![0x18, 0x64, 0x01]));
    let x: u8 = decode(&mut d).unwrap();
    assert_eq!(x, 100);
    let y: u8 = decode(&mut d).unwrap();
    assert_eq!(y, 1);
    assert_eq!(d.into_reader().position(), 3);
}
