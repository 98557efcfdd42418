//! Encoding and decoding of integers, booleans, strings, options and boxes.
use crate::cbor_io::{
    cbor_bool, cbor_i16, cbor_i32, cbor_i64, cbor_i8, cbor_text, cbor_u16, cbor_u32, cbor_u64, cbor_u8,
    plain, put_bool, put_i16, put_i32, put_i64, put_i8, put_null, put_text, put_u16, put_u32, put_u64,
    put_u8, read_bool, read_i16, read_i32, read_i64, read_i8, read_text, read_u16, read_u32, read_u64,
    read_u8, CborDecoder, CborEncoder, CborFault, Failure, Limits,
};
use crate::errors::{DecodeError, ErrorView};
use crate::traits::{lemma_wrote, Decodable, Encodable};
use crate::wire::{bool_item, head32, head64, int32_item, int64_item, null_item, text_item};
use cbor::EncodeError;
use std::sync::Arc;
use vstd::prelude::*;

verus! {

/// What a typed read gives as a decoding result: the value, `None` for
/// `null`, or `WrongType` with what was expected.
pub open spec fn read_outcome<T>(r: Result<T, CborFault>, expected: Seq<char>) -> Result<Option<T>, ErrorView> {
    match r {
        Ok(v) => Ok(Some(v)),
        Err(CborFault::Null) => Ok(None),
        Err(_) => Err(ErrorView::WrongType(expected)),
    }
}

/// A decoding result with the error taken by its view.
pub open spec fn plain_view<T>(o: Result<Option<T>, DecodeError>) -> Result<Option<T>, ErrorView> {
    match o {
        Ok(x) => Ok(x),
        Err(e) => Err(e@),
    }
}

/// Turns the result of a typed read into a decoding result: `null` becomes
/// `None`, another failure becomes `WrongType` with what was expected.
pub fn optional<T>(r: Result<T, Failure>, expected: &'static str) -> (o: Result<Option<T>, DecodeError>)
    ensures
        plain_view(o) == read_outcome(plain(r), expected@),
{
    match r {
        Ok(v) => Ok(Some(v)),
        Err(f) => match f.fault {
            CborFault::Null => Ok(None),
            _ => Err(DecodeError::WrongType(expected, f.error)),
        },
    }
}

impl Encodable for u8 {
    open spec fn encoding_modeled() -> bool { true }

    open spec fn spec_encodes(&self, out: Seq<u8>) -> bool {
        out == head32(0, *self as nat)
    }

    fn encode(&self, e: &mut CborEncoder) -> (r: Result<(), EncodeError>) {
        let r = put_u8(e, *self);
        proof { lemma_wrote(*old(e), *e, head32(0, *self as nat)); }
        r
    }
}

impl Decodable for u8 {
    open spec fn decoding_modeled() -> bool { true }

    open spec fn spec_decode(input: Seq<u8>, pos: nat, lim: Limits) -> (Result<Option<u8>, ErrorView>, nat) {
        let (r, p) = cbor_u8(input, pos, lim);
        (read_outcome(r, "u8 expected"@), p)
    }

    fn decode_opt(d: &mut CborDecoder) -> (r: Result<Option<u8>, DecodeError>) {
        optional(read_u8(d), "u8 expected")
    }
}

impl Encodable for u16 {
    open spec fn encoding_modeled() -> bool { true }

    open spec fn spec_encodes(&self, out: Seq<u8>) -> bool {
        out == head32(0, *self as nat)
    }

    fn encode(&self, e: &mut CborEncoder) -> (r: Result<(), EncodeError>) {
        let r = put_u16(e, *self);
        proof { lemma_wrote(*old(e), *e, head32(0, *self as nat)); }
        r
    }
}

impl Decodable for u16 {
    open spec fn decoding_modeled() -> bool { true }

    open spec fn spec_decode(input: Seq<u8>, pos: nat, lim: Limits) -> (Result<Option<u16>, ErrorView>, nat) {
        let (r, p) = cbor_u16(input, pos, lim);
        (read_outcome(r, "u16 expected"@), p)
    }

    fn decode_opt(d: &mut CborDecoder) -> (r: Result<Option<u16>, DecodeError>) {
        optional(read_u16(d), "u16 expected")
    }
}

impl Encodable for u32 {
    open spec fn encoding_modeled() -> bool { true }

    open spec fn spec_encodes(&self, out: Seq<u8>) -> bool {
        out == head32(0, *self as nat)
    }

    fn encode(&self, e: &mut CborEncoder) -> (r: Result<(), EncodeError>) {
        let r = put_u32(e, *self);
        proof { lemma_wrote(*old(e), *e, head32(0, *self as nat)); }
        r
    }
}

impl Decodable for u32 {
    open spec fn decoding_modeled() -> bool { true }

    open spec fn spec_decode(input: Seq<u8>, pos: nat, lim: Limits) -> (Result<Option<u32>, ErrorView>, nat) {
        let (r, p) = cbor_u32(input, pos, lim);
        (read_outcome(r, "u32 expected"@), p)
    }

    fn decode_opt(d: &mut CborDecoder) -> (r: Result<Option<u32>, DecodeError>) {
        optional(read_u32(d), "u32 expected")
    }
}

impl Encodable for u64 {
    open spec fn encoding_modeled() -> bool { true }

    open spec fn spec_encodes(&self, out: Seq<u8>) -> bool {
        out == head64(0, *self as nat)
    }

    fn encode(&self, e: &mut CborEncoder) -> (r: Result<(), EncodeError>) {
        let r = put_u64(e, *self);
        proof { lemma_wrote(*old(e), *e, head64(0, *self as nat)); }
        r
    }
}

impl Decodable for u64 {
    open spec fn decoding_modeled() -> bool { true }

    open spec fn spec_decode(input: Seq<u8>, pos: nat, lim: Limits) -> (Result<Option<u64>, ErrorView>, nat) {
        let (r, p) = cbor_u64(input, pos, lim);
        (read_outcome(r, "u64 expected"@), p)
    }

    fn decode_opt(d: &mut CborDecoder) -> (r: Result<Option<u64>, DecodeError>) {
        optional(read_u64(d), "u64 expected")
    }
}

impl Encodable for i8 {
    open spec fn encoding_modeled() -> bool { true }

    open spec fn spec_encodes(&self, out: Seq<u8>) -> bool {
        out == int32_item(*self as int)
    }

    fn encode(&self, e: &mut CborEncoder) -> (r: Result<(), EncodeError>) {
        let r = put_i8(e, *self);
        proof { lemma_wrote(*old(e), *e, int32_item(*self as int)); }
        r
    }
}

impl Decodable for i8 {
    open spec fn decoding_modeled() -> bool { true }

    open spec fn spec_decode(input: Seq<u8>, pos: nat, lim: Limits) -> (Result<Option<i8>, ErrorView>, nat) {
        let (r, p) = cbor_i8(input, pos, lim);
        (read_outcome(r, "i8 expected"@), p)
    }

    fn decode_opt(d: &mut CborDecoder) -> (r: Result<Option<i8>, DecodeError>) {
        optional(read_i8(d), "i8 expected")
    }
}

impl Encodable for i16 {
    open spec fn encoding_modeled() -> bool { true }

    open spec fn spec_encodes(&self, out: Seq<u8>) -> bool {
        out == int32_item(*self as int)
    }

    fn encode(&self, e: &mut CborEncoder) -> (r: Result<(), EncodeError>) {
        let r = put_i16(e, *self);
        proof { lemma_wrote(*old(e), *e, int32_item(*self as int)); }
        r
    }
}

impl Decodable for i16 {
    open spec fn decoding_modeled() -> bool { true }

    open spec fn spec_decode(input: Seq<u8>, pos: nat, lim: Limits) -> (Result<Option<i16>, ErrorView>, nat) {
        let (r, p) = cbor_i16(input, pos, lim);
        (read_outcome(r, "i16 expected"@), p)
    }

    fn decode_opt(d: &mut CborDecoder) -> (r: Result<Option<i16>, DecodeError>) {
        optional(read_i16(d), "i16 expected")
    }
}

impl Encodable for i32 {
    open spec fn encoding_modeled() -> bool { true }

    open spec fn spec_encodes(&self, out: Seq<u8>) -> bool {
        out == int32_item(*self as int)
    }

    fn encode(&self, e: &mut CborEncoder) -> (r: Result<(), EncodeError>) {
        let r = put_i32(e, *self);
        proof { lemma_wrote(*old(e), *e, int32_item(*self as int)); }
        r
    }
}

impl Decodable for i32 {
    open spec fn decoding_modeled() -> bool { true }

    open spec fn spec_decode(input: Seq<u8>, pos: nat, lim: Limits) -> (Result<Option<i32>, ErrorView>, nat) {
        let (r, p) = cbor_i32(input, pos, lim);
        (read_outcome(r, "i32 expected"@), p)
    }

    fn decode_opt(d: &mut CborDecoder) -> (r: Result<Option<i32>, DecodeError>) {
        optional(read_i32(d), "i32 expected")
    }
}

impl Encodable for i64 {
    open spec fn encoding_modeled() -> bool { true }

    open spec fn spec_encodes(&self, out: Seq<u8>) -> bool {
        out == int64_item(*self as int)
    }

    fn encode(&self, e: &mut CborEncoder) -> (r: Result<(), EncodeError>) {
        let r = put_i64(e, *self);
        proof { lemma_wrote(*old(e), *e, int64_item(*self as int)); }
        r
    }
}

impl Decodable for i64 {
    open spec fn decoding_modeled() -> bool { true }

    open spec fn spec_decode(input: Seq<u8>, pos: nat, lim: Limits) -> (Result<Option<i64>, ErrorView>, nat) {
        let (r, p) = cbor_i64(input, pos, lim);
        (read_outcome(r, "i64 expected"@), p)
    }

    fn decode_opt(d: &mut CborDecoder) -> (r: Result<Option<i64>, DecodeError>) {
        optional(read_i64(d), "i64 expected")
    }
}

impl Encodable for bool {
    open spec fn encoding_modeled() -> bool { true }

    open spec fn spec_encodes(&self, out: Seq<u8>) -> bool {
        out == bool_item(*self)
    }

    fn encode(&self, e: &mut CborEncoder) -> (r: Result<(), EncodeError>) {
        let r = put_bool(e, *self);
        proof { lemma_wrote(*old(e), *e, bool_item(*self)); }
        r
    }
}

impl Decodable for bool {
    open spec fn decoding_modeled() -> bool { true }

    open spec fn spec_decode(input: Seq<u8>, pos: nat, lim: Limits) -> (Result<Option<bool>, ErrorView>, nat) {
        let (r, p) = cbor_bool(input, pos, lim);
        (read_outcome(r, "bool expected"@), p)
    }

    fn decode_opt(d: &mut CborDecoder) -> (r: Result<Option<bool>, DecodeError>) {
        optional(read_bool(d), "bool expected")
    }
}

/// A `usize` is encoded and decoded as a `u64`.
impl Encodable for usize {
    open spec fn encoding_modeled() -> bool { true }

    open spec fn spec_encodes(&self, out: Seq<u8>) -> bool {
        out == head64(0, *self as nat)
    }

    fn encode(&self, e: &mut CborEncoder) -> (r: Result<(), EncodeError>) {
        let r = put_u64(e, *self as u64);
        proof { lemma_wrote(*old(e), *e, head64(0, *self as nat)); }
        r
    }
}

impl Decodable for usize {
    open spec fn decoding_modeled() -> bool { true }

    open spec fn spec_decode(input: Seq<u8>, pos: nat, lim: Limits) -> (Result<Option<usize>, ErrorView>, nat) {
        let (r, p) = cbor_u64(input, pos, lim);
        (match r {
            Ok(v) => Ok(Some(v as usize)),
            Err(CborFault::Null) => Ok(None),
            Err(_) => Err(ErrorView::WrongType("usize expected"@)),
        }, p)
    }

    fn decode_opt(d: &mut CborDecoder) -> (r: Result<Option<usize>, DecodeError>) {
        match optional(read_u64(d), "usize expected") {
            Ok(Some(v)) => Ok(Some(v as usize)),
            Ok(None) => Ok(None),
            Err(e) => Err(e),
        }
    }
}

impl Encodable for String {
    open spec fn encoding_modeled() -> bool { true }

    open spec fn spec_encodes(&self, out: Seq<u8>) -> bool {
        out == text_item(self@)
    }

    fn encode(&self, e: &mut CborEncoder) -> (r: Result<(), EncodeError>) {
        let r = put_text(e, self.as_str());
        proof { lemma_wrote(*old(e), *e, text_item(self@)); }
        r
    }
}

impl Decodable for String {
    open spec fn decoding_modeled() -> bool { true }

    open spec fn spec_decode(input: Seq<u8>, pos: nat, lim: Limits) -> (Result<Option<Seq<char>>, ErrorView>, nat) {
        let (r, p) = cbor_text(input, pos, lim);
        (read_outcome(r, "string expected"@), p)
    }

    fn decode_opt(d: &mut CborDecoder) -> (r: Result<Option<String>, DecodeError>) {
        match read_text(d) {
            Ok(s) => Ok(Some(s)),
            Err(f) => match f.fault {
                CborFault::Null => Ok(None),
                _ => Err(DecodeError::WrongType("string expected", f.error)),
            },
        }
    }
}

/// The outcome of decoding an optional value from the outcome of decoding
/// the value: whatever the value's decoding gives, `None` for `null`
/// included, becomes the option.
pub open spec fn some_outcome<V>(o: (Result<Option<V>, ErrorView>, nat)) -> (Result<Option<Option<V>>, ErrorView>, nat) {
    (match o.0 {
        Ok(v) => Ok(Some(v)),
        Err(e) => Err(e),
    }, o.1)
}

/// `None` is encoded as `null`, `Some(x)` as `x`.
impl<A: Encodable> Encodable for Option<A> {
    open spec fn encoding_modeled() -> bool { A::encoding_modeled() }

    open spec fn spec_encodes(&self, out: Seq<u8>) -> bool {
        match self {
            Some(x) => x.spec_encodes(out),
            None => out == null_item(),
        }
    }

    fn encode(&self, e: &mut CborEncoder) -> (r: Result<(), EncodeError>) {
        match self {
            Some(x) => x.encode(e),
            None => {
                let r = put_null(e);
                proof { lemma_wrote(*old(e), *e, null_item()); }
                r
            },
        }
    }
}

/// Decoding an option decodes the value: `null` gives an option that is
/// present and `None`, so that a `null` array element or field is an absent
/// option rather than an error.
impl<A: Decodable> Decodable for Option<A> {
    open spec fn decoding_modeled() -> bool { A::decoding_modeled() }

    open spec fn spec_decode(input: Seq<u8>, pos: nat, lim: Limits) -> (Result<Option<Option<A::V>>, ErrorView>, nat) {
        some_outcome(A::spec_decode(input, pos, lim))
    }

    fn decode_opt(d: &mut CborDecoder) -> (r: Result<Option<Option<A>>, DecodeError>) {
        match A::decode_opt(d) {
            Ok(x) => Ok(Some(x)),
            Err(e) => Err(e),
        }
    }
}

impl<A: Encodable> Encodable for Box<A> {
    open spec fn encoding_modeled() -> bool { A::encoding_modeled() }

    open spec fn spec_encodes(&self, out: Seq<u8>) -> bool {
        (**self).spec_encodes(out)
    }

    fn encode(&self, e: &mut CborEncoder) -> (r: Result<(), EncodeError>) {
        (**self).encode(e)
    }
}

impl<A: Decodable> Decodable for Box<A> {
    open spec fn decoding_modeled() -> bool { A::decoding_modeled() }

    open spec fn spec_decode(input: Seq<u8>, pos: nat, lim: Limits) -> (Result<Option<A::V>, ErrorView>, nat) {
        A::spec_decode(input, pos, lim)
    }

    fn decode_opt(d: &mut CborDecoder) -> (r: Result<Option<Box<A>>, DecodeError>) {
        match A::decode_opt(d) {
            Ok(Some(x)) => Ok(Some(Box::new(x))),
            Ok(None) => Ok(None),
            Err(e) => Err(e),
        }
    }
}

impl<A: Encodable> Encodable for Arc<A> {
    open spec fn encoding_modeled() -> bool { A::encoding_modeled() }

    open spec fn spec_encodes(&self, out: Seq<u8>) -> bool {
        (**self).spec_encodes(out)
    }

    fn encode(&self, e: &mut CborEncoder) -> (r: Result<(), EncodeError>) {
        (**self).encode(e)
    }
}

impl<A: Decodable> Decodable for Arc<A> {
    open spec fn decoding_modeled() -> bool { A::decoding_modeled() }

    open spec fn spec_decode(input: Seq<u8>, pos: nat, lim: Limits) -> (Result<Option<A::V>, ErrorView>, nat) {
        A::spec_decode(input, pos, lim)
    }

    fn decode_opt(d: &mut CborDecoder) -> (r: Result<Option<Arc<A>>, DecodeError>) {
        match A::decode_opt(d) {
            Ok(Some(x)) => Ok(Some(Arc::new(x))),
            Ok(None) => Ok(None),
            Err(e) => Err(e),
        }
    }
}

impl<'x, T: Encodable> Encodable for &'x T {
    open spec fn encoding_modeled() -> bool { T::encoding_modeled() }

    open spec fn spec_encodes(&self, out: Seq<u8>) -> bool {
        (**self).spec_encodes(out)
    }

    fn encode(&self, e: &mut CborEncoder) -> (r: Result<(), EncodeError>) {
        (**self).encode(e)
    }
}

} // verus!
