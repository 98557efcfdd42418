use probor::{decode, Config, Decodable, Decoder, Encodable, Encoder};
use std::collections::HashMap;
use std::io::Cursor;

fn roundtrip<A: Encodable, B: Decodable>(v: &A) -> B {
    let mut e = Encoder::new(Vec::new());
    v.encode(&mut e).unwrap();
    let v = e.into_writer();
    let d = &mut Decoder::new(Config::default(), Cursor::new(v));
    decode(d).unwrap()
}

#[test]
fn map() {
    let map: HashMap<_, _> = vec![("one".to_string(), 1), ("two".to_string(), 2)].into_iter().collect();
    assert_eq!(roundtrip::<HashMap<String, i32>, HashMap<String, i32>>(&map), map);
}
