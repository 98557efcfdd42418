use probor::cbor_io::{CborDecoder, CborEncoder};
use probor::enums::{decode_enum_head, decode_variant_fields, encode_variant, VariantSpec};
use probor::errors::Cause;
use probor::structs::{decode_struct, encode_struct, require_field, FieldSpec};
use probor::traits::{elem_result, field_result, top_result};
use probor::util::slice_result;
use probor::{decode, from_slice, to_buf, Config, Decodable, DecodeError, Decoder, DeepView, Encodable, EncodeError};
use std::collections::HashMap;
use std::io::Cursor;

fn dec<T: Decodable>(bytes: &[u8]) -> Result<T, DecodeError> {
    decode(&mut Decoder::new(Config::default(), Cursor::new(bytes.to_vec())))
}

#[derive(Debug, PartialEq)]
struct Point {
    x: u8,
    y: Option<u8>,
}

const POINT_FIELDS: [FieldSpec; 2] = [FieldSpec { name: "x", index: Some(0) }, FieldSpec { name: "y", index: Some(1) }];

impl DeepView for Point {
    type V = ();

    fn deep_view(&self) -> Self::V {}
}

impl Encodable for Point {
    fn encode(&self, e: &mut CborEncoder) -> Result<(), EncodeError> {
        encode_struct(&(&self.x, &self.y), &POINT_FIELDS, e)
    }
}

impl Decodable for Point {
    fn decode_opt(d: &mut CborDecoder) -> Result<Option<Self>, DecodeError> {
        match decode_struct::<(Option<u8>, Option<u8>)>(d, &POINT_FIELDS)? {
            None => Ok(None),
            Some((x, y)) => Ok(Some(Point { x: require_field(x, "x")?, y })),
        }
    }
}

#[derive(Debug, PartialEq)]
enum Shape {
    Dot,
    Circle(u32),
}

const SHAPES: [VariantSpec; 2] = [VariantSpec { name: "Dot", number: 0 }, VariantSpec { name: "Circle", number: 3 }];

const NO_FIELDS: [FieldSpec; 0] = [];

const CIRCLE_FIELDS: [FieldSpec; 1] = [FieldSpec { name: "r", index: Some(2) }];

impl DeepView for Shape {
    type V = ();

    fn deep_view(&self) -> Self::V {}
}

impl Encodable for Shape {
    fn encode(&self, e: &mut CborEncoder) -> Result<(), EncodeError> {
        match self {
            Shape::Dot => encode_variant(0, &(), &NO_FIELDS, e),
            Shape::Circle(r) => encode_variant(3, &(r,), &CIRCLE_FIELDS, e),
        }
    }
}

impl Decodable for Shape {
    fn decode_opt(d: &mut CborDecoder) -> Result<Option<Self>, DecodeError> {
        match decode_enum_head(d, &SHAPES)? {
            None => Ok(None),
            Some((0, len)) => {
                decode_variant_fields::<()>(d, len, &NO_FIELDS)?;
                Ok(Some(Shape::Dot))
            }
            Some((_, len)) => {
                let (r,) = decode_variant_fields::<(Option<u32>,)>(d, len, &CIRCLE_FIELDS)?;
                Ok(Some(Shape::Circle(require_field(r, "#2")?)))
            }
        }
    }
}

#[test]
fn absent_field() {
    let e = dec::<Point>(b"\xa1\x61y\x02").unwrap_err();
    assert!(matches!(e, DecodeError::AbsentField("x")));
    assert_eq!(e.description(), "absent field");
    assert_eq!(e.message(), "absent field \"x\"");
    assert!(e.cause().is_none());
}

#[test]
fn structure_from_object_and_gaps() {
    assert_eq!(dec::<Point>(b"\xa2\x61x\x01\x61y\x02").unwrap(), Point { x: 1, y: Some(2) });
    assert_eq!(dec::<Point>(b"\xa1\x00\x07").unwrap(), Point { x: 7, y: None });
    assert_eq!(dec::<Point>(b"\x83\x05\xf6\x09").unwrap(), Point { x: 5, y: None });
    assert_eq!(dec::<Point>(b"\xa2\x61z\x63abc\x61x\x04").unwrap(), Point { x: 4, y: None });
    assert_eq!(to_buf(&Point { x: 1, y: None }), vec![0x82, 0x01, 0xf6]);
    assert!(matches!(dec::<Point>(b"\xf6"), Err(DecodeError::UnexpectedNull)));
}

#[test]
fn wrong_array_length() {
    let e = dec::<(u8, u8)>(b"\x81\x01").unwrap_err();
    assert!(matches!(e, DecodeError::WrongArrayLength(1)));
    assert_eq!(e.description(), "wrong array length");
    assert_eq!(e.message(), "wrong array length 1");
}

#[test]
fn duplicate_key() {
    let e = dec::<HashMap<u8, u8>>(b"\xa2\x01\x01\x01\x02").unwrap_err();
    assert!(matches!(e, DecodeError::DuplicateKey));
    assert_eq!(e.description(), "some key is duplicated");
    assert_eq!(e.message(), "some key is duplicated");
}

#[test]
fn unexpected_null() {
    let e = dec::<u16>(b"\xf6").unwrap_err();
    assert!(matches!(e, DecodeError::UnexpectedNull));
    assert_eq!(e.description(), "unexpected null");
    assert_eq!(e.message(), "null is not expected");
}

#[test]
fn wrong_type() {
    let e = dec::<u8>(b"\x61a").unwrap_err();
    assert!(matches!(e, DecodeError::WrongType("u8 expected", _)));
    assert_eq!(e.description(), "u8 expected");
    assert!(e.message().starts_with("u8 expected: "));
    assert!(matches!(e.cause(), Some(Cause::Decoder(_))));
    assert!(matches!(dec::<String>(b"\x01"), Err(DecodeError::WrongType("string expected", _))));
    assert!(matches!(dec::<Vec<u8>>(b"\x01"), Err(DecodeError::WrongType("array expected", _))));
    assert!(matches!(dec::<HashMap<u8, u8>>(b"\x80"), Err(DecodeError::WrongType("object expected", _))));
    assert!(matches!(dec::<bool>(b"\x01"), Err(DecodeError::WrongType("bool expected", _))));
    assert!(matches!(dec::<Point>(b"\x01"), Err(DecodeError::WrongType("array or object expected (e2)", _))));
    assert!(matches!(dec::<Shape>(b"\x01"), Err(DecodeError::WrongType("array or object expected (e5)", _))));
    assert!(matches!(dec::<u8>(b"\x19\x01\x00"), Err(DecodeError::WrongType("u8 expected", _))));
}

#[test]
fn wrong_value() {
    let e = from_slice::<u8>(b"\x01\x01").unwrap_err();
    assert!(matches!(e, DecodeError::WrongValue("trailing data")));
    assert_eq!(e.description(), "trailing data");
    assert_eq!(e.message(), "trailing data");
    assert!(matches!(dec::<Shape>(b"\x80"), Err(DecodeError::WrongValue("array too short"))));
    assert!(matches!(dec::<Shape>(b"\x81\x07"), Err(DecodeError::WrongValue("unknown enum variant"))));
    assert!(matches!(dec::<Shape>(b"\x81\x63Box"), Err(DecodeError::WrongValue("unknown enum variant"))));
    assert!(matches!(dec::<Shape>(b"\x81\x62\xff\xfe"), Err(DecodeError::WrongValue("enum variant is not correct utf8"))));
}

#[test]
fn bad_field_value() {
    let e = dec::<Point>(b"\x82\x61a\x01").unwrap_err();
    match &e {
        DecodeError::BadFieldValue("x", inner) => assert!(matches!(**inner, DecodeError::WrongType("u8 expected", _))),
        other => panic!("unexpected {:?}", other),
    }
    assert_eq!(e.description(), "bad field value");
    assert!(e.message().starts_with("Bad value for \"x\": u8 expected: "));
    assert!(matches!(e.cause(), Some(Cause::Nested(DecodeError::WrongType("u8 expected", _)))));
}

#[test]
fn bad_array_element() {
    let e = dec::<Vec<u8>>(b"\x82\x01\xf6").unwrap_err();
    match &e {
        DecodeError::BadArrayElement(1, inner) => assert!(matches!(**inner, DecodeError::UnexpectedNull)),
        other => panic!("unexpected {:?}", other),
    }
    assert_eq!(e.description(), "bad array element");
    assert_eq!(e.message(), "Bad array element 1: null is not expected");
    assert!(matches!(e.cause(), Some(Cause::Nested(DecodeError::UnexpectedNull))));
    let e = dec::<Shape>(b"\x83\x03\x01\xf6").unwrap_err();
    assert!(matches!(e, DecodeError::BadArrayElement(2, _)));
}

#[test]
fn skipping_error() {
    let e = dec::<Point>(b"\x83\x01\x02").unwrap_err();
    assert!(matches!(e, DecodeError::SkippingError(_)));
    assert_eq!(e.description(), "error when skipping value");
    assert!(e.message().starts_with("Error when skipping value: "));
    assert!(matches!(e.cause(), Some(Cause::Decoder(_))));
}

#[test]
fn enum_by_number_and_by_name() {
    assert_eq!(to_buf(&Shape::Circle(9)), vec![0x83, 0x03, 0xf6, 0x09]);
    assert_eq!(to_buf(&Shape::Dot), vec![0x81, 0x00]);
    assert_eq!(dec::<Shape>(b"\x83\x03\xf6\x09").unwrap(), Shape::Circle(9));
    assert_eq!(dec::<Shape>(b"\x83\x66Circle\x01\x0a").unwrap(), Shape::Circle(10));
    assert_eq!(dec::<Shape>(b"\x82\x63Dot\x05").unwrap(), Shape::Dot);
    assert!(matches!(dec::<Shape>(b"\x81\x03"), Err(DecodeError::AbsentField("#2"))));
    assert!(matches!(dec::<Shape>(b"\xf6"), Err(DecodeError::UnexpectedNull)));
}

#[test]
fn string_keyed_map_early_cases() {
    assert!(matches!(
        <HashMap<String, i32> as Decodable>::decode_opt(&mut Decoder::new(Config::default(), Cursor::new(vec![0xf6]))),
        Ok(None)
    ));
    match dec::<HashMap<String, u32>>(b"\xa1\x61a\xf6") {
        Err(DecodeError::BadFieldValue("mapping value", b)) => assert!(matches!(*b, DecodeError::UnexpectedNull)),
        other => panic!("unexpected {:?}", other),
    }
    assert!(matches!(dec::<HashMap<String, u32>>(b"\x01"), Err(DecodeError::WrongType("object expected", _))));
}

#[test]
fn result_helpers() {
    assert!(matches!(top_result::<u8>(Ok(None)), Err(DecodeError::UnexpectedNull)));
    assert_eq!(top_result::<u8>(Ok(Some(4))).unwrap(), 4);
    assert!(matches!(elem_result::<u8>(Ok(None), 3), Err(DecodeError::BadArrayElement(3, _))));
    assert!(matches!(field_result::<u8>(Err(DecodeError::DuplicateKey), "k"), Err(DecodeError::BadFieldValue("k", _))));
    assert!(matches!(slice_result(Ok(1u8), 1, 2), Err(DecodeError::WrongValue("trailing data"))));
    assert_eq!(slice_result(Ok(1u8), 2, 2).unwrap(), 1);
}

#[test]
fn nested_field_message() {
    let e = DecodeError::BadFieldValue("version", Box::new(DecodeError::AbsentField("x")));
    assert_eq!(e.message(), "Bad value for \"version\": absent field \"x\"");
    let e = DecodeError::BadArrayElement(2, Box::new(DecodeError::UnexpectedNull));
    assert_eq!(e.message(), "Bad array element 2: null is not expected");
    let e = DecodeError::WrongArrayLength(1207);
    assert_eq!(e.message(), "wrong array length 1207");
    let e = DecodeError::BadArrayElement(usize::MAX, Box::new(DecodeError::DuplicateKey));
    assert_eq!(e.message(), format!("Bad array element {}: some key is duplicated", usize::MAX));
    let e = DecodeError::AbsentField("url");
    assert_eq!(e.message(), "absent field \"url\"");
}
