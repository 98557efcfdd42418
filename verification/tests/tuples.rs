use probor::{decode, Config, Decodable, Decoder, Encodable, Encoder};
use std::io::Cursor;

fn roundtrip<T: Encodable + Decodable>(v: T) -> T {
    let mut e = Encoder::new(Vec::new());
    v.encode(&mut e).unwrap();
    let v = e.into_writer();
    let d = &mut Decoder::new(Config::default(), Cursor::new(v));
    decode(d).unwrap()
}

#[test]
fn one() {
    assert_eq!(roundtrip((1,)), (1,));
}

#[test]
fn two() {
    assert_eq!(roundtrip((21, 22)), (21, 22));
}

#[test]
fn three() {
    assert_eq!(roundtrip((301, 302, 303)), (301, 302, 303));
}
