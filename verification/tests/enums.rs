use probor::cbor_io::{CborDecoder, CborEncoder};
use probor::enums::{decode_enum_head, decode_variant_fields, encode_variant, VariantSpec};
use probor::structs::{require_field, FieldSpec};
use probor::{decode, Config, Decodable, DecodeError, Decoder, DeepView, Encodable, EncodeError, Encoder};
use std::io::Cursor;

#[derive(Debug, PartialEq)]
enum Multi {
    One,
    Two(u32),
    Three(String, u32),
}

const VARIANTS: [VariantSpec; 3] = [
    VariantSpec { name: "One", number: 0 },
    VariantSpec { name: "Two", number: 1 },
    VariantSpec { name: "Three", number: 5 },
];

const NO_FIELDS: [FieldSpec; 0] = [];

const TWO_FIELDS: [FieldSpec; 1] = [FieldSpec { name: "x", index: Some(1) }];

const THREE_FIELDS: [FieldSpec; 2] = [
    FieldSpec { name: "x", index: Some(1) },
    FieldSpec { name: "y", index: Some(2) },
];

impl DeepView for Multi {
    type V = ();

    fn deep_view(&self) -> Self::V {}
}

impl Encodable for Multi {
    fn encode(&self, e: &mut CborEncoder) -> Result<(), EncodeError> {
        match self {
            Multi::One => encode_variant(0, &(), &NO_FIELDS, e),
            Multi::Two(x) => encode_variant(1, &(x,), &TWO_FIELDS, e),
            Multi::Three(x, y) => encode_variant(5, &(x, y), &THREE_FIELDS, e),
        }
    }
}

impl Decodable for Multi {
    fn decode_opt(d: &mut CborDecoder) -> Result<Option<Self>, DecodeError> {
        match decode_enum_head(d, &VARIANTS)? {
            None => Ok(None),
            Some((0, len)) => {
                decode_variant_fields::<()>(d, len, &NO_FIELDS)?;
                Ok(Some(Multi::One))
            }
            Some((1, len)) => {
                let (x,) = decode_variant_fields::<(Option<u32>,)>(d, len, &TWO_FIELDS)?;
                Ok(Some(Multi::Two(require_field(x, "#1")?)))
            }
            Some((_, len)) => {
                let (x, y) = decode_variant_fields::<(Option<String>, Option<u32>)>(d, len, &THREE_FIELDS)?;
                Ok(Some(Multi::Three(require_field(x, "#1")?, require_field(y, "#2")?)))
            }
        }
    }
}

fn roundtrip<A: Encodable, B: Decodable>(v: &A) -> B {
    let mut e = Encoder::new(Vec::new());
    v.encode(&mut e).unwrap();
    let v = e.into_writer();
    let d = &mut Decoder::new(Config::default(), Cursor::new(v));
    decode(d).unwrap()
}

#[test]
fn test() {
    assert_eq!(roundtrip::<_, Multi>(&Multi::One), Multi::One);
    assert_eq!(roundtrip::<_, Multi>(&Multi::Two(158)), Multi::Two(158));
    assert_eq!(
        roundtrip::<_, Multi>(&Multi::Three("test".to_string(), 22)),
        Multi::Three("test".to_string(), 22)
    );
}
