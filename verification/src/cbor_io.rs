//! The boundary with the `cbor` crate. Every item marked
//! `#[verifier::external_body]` here is trusted: its contract states what the
//! `cbor` crate's source (version 0.7) does, and Verus does not check it.
//!
//! An encoder writes into a `Vec<u8>`; its contents are named by `written`.
//! A decoder reads from an in-memory cursor; it is described by what its
//! cursor holds (`decoder_cursor`: the bytes it reads, `decoder_input`, and
//! its position in them, `decoder_pos`) and by the limits of the
//! configuration it was made with (`decoder_limits`). What a decoding call
//! returns is stated for the items that the encoder writes (and for `null`
//! and the item types the library tells apart); for any other input it is
//! named, one name per call of the crate, as a function of those bytes, that
//! position and those limits.
use crate::wire::{arg_len, be_value, bool_item, head32, head64, head_at, int32_item, int64_item, null_item, text_item, Head};
use std::io::Cursor;
use vstd::prelude::*;
use vstd::utf8::{decode_utf8, valid_utf8};
use cbor::types::Type;
use cbor::DecodeError as CborError;

verus! {

#[verifier::external_type_specification]
#[verifier::external_body]
#[verifier::reject_recursive_types(W)]
pub struct ExEncoder<W>(cbor::Encoder<W>);

#[verifier::external_type_specification]
#[verifier::external_body]
#[verifier::reject_recursive_types(R)]
pub struct ExDecoder<R>(cbor::Decoder<R>);

#[verifier::external_type_specification]
#[verifier::external_body]
#[verifier::reject_recursive_types(T)]
pub struct ExCursor<T>(Cursor<T>);

#[verifier::external_type_specification]
#[verifier::external_body]
pub struct ExEncodeError(cbor::EncodeError);

#[verifier::external_type_specification]
#[verifier::external_body]
pub struct ExCborError(CborError);

#[verifier::external_type_specification]
#[verifier::external_body]
pub struct ExFromUtf8Error(std::string::FromUtf8Error);

/// The encoder this library writes with: CBOR into a byte vector.
pub type CborEncoder = cbor::Encoder<Vec<u8>>;

/// The decoder this library reads with: CBOR from an in-memory buffer.
pub type CborDecoder = cbor::Decoder<Cursor<Vec<u8>>>;

/// The limits of a decoder configuration (`cbor::Config`), as plain values.
pub struct Limits {
    pub max_len_array: usize,
    pub max_len_bytes: usize,
    pub max_len_text: usize,
    pub max_size_map: usize,
    pub max_nesting: usize,
    pub skip_tags: bool,
    pub check_tags: bool,
}

/// The limits of `cbor::Config::default()`.
pub open spec fn default_limits() -> Limits {
    Limits {
        max_len_array: 1000,
        max_len_bytes: 0x500000,
        max_len_text: 0x500000,
        max_size_map: 1000,
        max_nesting: 16,
        skip_tags: false,
        check_tags: true,
    }
}

/// What the library reads of a decoding failure of the `cbor` crate: which
/// unexpected item type was met (only the kinds the library acts on), or
/// another failure.
#[derive(Debug, Clone, Copy, PartialEq, Eq, Structural)]
pub enum CborFault {
    /// The item is `null`.
    Null,
    /// The item is an object; its head's additional information.
    Object(u8),
    /// The item is a text string; its head's additional information.
    Text(u8),
    /// The item is an unsigned integer; its head's additional information.
    UInt(u8),
    /// Any other failure.
    Other,
}

/// A failure of a decoding call: its kind, and the crate's error itself.
pub struct Failure {
    pub fault: CborFault,
    pub error: CborError,
}

/// A result of a decoding call with the crate's error reduced to its kind.
pub open spec fn plain<T>(r: Result<T, Failure>) -> Result<T, CborFault> {
    match r {
        Ok(v) => Ok(v),
        Err(f) => Err(f.fault),
    }
}

/// The bytes written so far by an encoder.
pub uninterp spec fn written(e: CborEncoder) -> Seq<u8>;

/// What a decoder's cursor holds: the bytes it reads from, and its
/// position in them.
pub uninterp spec fn decoder_cursor(d: CborDecoder) -> (Seq<u8>, nat);

/// The bytes a decoder reads from.
pub open spec fn decoder_input(d: CborDecoder) -> Seq<u8> {
    decoder_cursor(d).0
}

/// The position of a decoder in its bytes.
pub open spec fn decoder_pos(d: CborDecoder) -> nat {
    decoder_cursor(d).1
}

/// The limits of the configuration a decoder was made with.
pub uninterp spec fn decoder_limits(d: CborDecoder) -> Limits;

/// A decoding call leaves the bytes and the limits of the decoder as they were.
pub open spec fn same_source(a: CborDecoder, b: CborDecoder) -> bool {
    decoder_input(b) == decoder_input(a) && decoder_limits(b) == decoder_limits(a)
}

/// The head a decoding call reads first, for the cases stated here: there
/// is one (see `head_at`) and the configuration lets the decoder read a head.
pub open spec fn stated_head(input: Seq<u8>, pos: nat, lim: Limits) -> Option<Head> {
    if lim.max_nesting > 0 { head_at(input, pos) } else { None }
}

/// The head is `null`.
pub open spec fn is_null(h: Head) -> bool {
    h.major == 7 && h.info == 22
}

/// The kind of failure of a read that meets a head of another type, for the
/// types the library acts on.
pub open spec fn mismatch(h: Head) -> CborFault {
    if h.major == 0 {
        CborFault::UInt(h.info as u8)
    } else if h.major == 3 {
        CborFault::Text(h.info as u8)
    } else if h.major == 5 {
        CborFault::Object(h.info as u8)
    } else {
        CborFault::Other
    }
}

/// What an unsigned read accepting additional information up to `max_info`
/// does in the cases stated: the argument of an unsigned head; `null`; a text
/// or object head refused after its first byte.
pub open spec fn uint_case(h: Head, pos: nat, max_info: nat) -> Option<(Result<nat, CborFault>, nat)> {
    if h.major == 0 && h.info <= max_info {
        Some((Ok(h.arg), pos + h.len))
    } else if is_null(h) {
        Some((Err(CborFault::Null), pos + 1))
    } else if h.major == 3 || h.major == 5 {
        Some((Err(mismatch(h)), pos + 1))
    } else {
        None
    }
}

/// What a signed read accepting additional information up to `max_info` and
/// magnitudes up to `max` does in the cases stated: the value of an unsigned
/// or negative head; `null`; a text or object head refused after its first
/// byte.
pub open spec fn int_case(h: Head, pos: nat, max_info: nat, max: nat) -> Option<(Result<int, CborFault>, nat)> {
    if h.major == 0 && h.info <= max_info && h.arg <= max {
        Some((Ok(h.arg as int), pos + h.len))
    } else if h.major == 1 && h.info <= max_info && h.arg <= max {
        Some((Ok(-1 - h.arg), pos + h.len))
    } else if is_null(h) {
        Some((Err(CborFault::Null), pos + 1))
    } else if h.major == 3 || h.major == 5 {
        Some((Err(mismatch(h)), pos + 1))
    } else {
        None
    }
}

/// A case result with the value converted.
pub open spec fn cast_case<A, B>(c: (Result<A, CborFault>, nat), f: spec_fn(A) -> B) -> (Result<B, CborFault>, nat) {
    (match c.0 {
        Ok(v) => Ok(f(v)),
        Err(e) => Err(e),
    }, c.1)
}

/// Names for what the decoding calls return outside the cases stated: the
/// result with the error reduced to its kind, and the position after.
pub uninterp spec fn cbor_u8_other(input: Seq<u8>, pos: nat, lim: Limits) -> (Result<u8, CborFault>, nat);
pub uninterp spec fn cbor_u16_other(input: Seq<u8>, pos: nat, lim: Limits) -> (Result<u16, CborFault>, nat);
pub uninterp spec fn cbor_u32_other(input: Seq<u8>, pos: nat, lim: Limits) -> (Result<u32, CborFault>, nat);
pub uninterp spec fn cbor_u64_other(input: Seq<u8>, pos: nat, lim: Limits) -> (Result<u64, CborFault>, nat);
pub uninterp spec fn cbor_i8_other(input: Seq<u8>, pos: nat, lim: Limits) -> (Result<i8, CborFault>, nat);
pub uninterp spec fn cbor_i16_other(input: Seq<u8>, pos: nat, lim: Limits) -> (Result<i16, CborFault>, nat);
pub uninterp spec fn cbor_i32_other(input: Seq<u8>, pos: nat, lim: Limits) -> (Result<i32, CborFault>, nat);
pub uninterp spec fn cbor_i64_other(input: Seq<u8>, pos: nat, lim: Limits) -> (Result<i64, CborFault>, nat);
pub uninterp spec fn cbor_bool_other(input: Seq<u8>, pos: nat, lim: Limits) -> (Result<bool, CborFault>, nat);
pub uninterp spec fn cbor_text_other(input: Seq<u8>, pos: nat, lim: Limits) -> (Result<Seq<char>, CborFault>, nat);
pub uninterp spec fn cbor_array_other(input: Seq<u8>, pos: nat, lim: Limits) -> (Result<usize, CborFault>, nat);
pub uninterp spec fn cbor_object_other(input: Seq<u8>, pos: nat, lim: Limits) -> (Result<usize, CborFault>, nat);

/// `cbor::Decoder::u8` on `input` at `pos`.
pub open spec fn cbor_u8(input: Seq<u8>, pos: nat, lim: Limits) -> (Result<u8, CborFault>, nat) {
    u8_case(input, pos, lim, cbor_u8_other(input, pos, lim))
}

/// `cbor_u8`, with `other` in place of what it names.
pub open spec fn u8_case(input: Seq<u8>, pos: nat, lim: Limits, other: (Result<u8, CborFault>, nat)) -> (Result<u8, CborFault>, nat) {
    match stated_head(input, pos, lim) {
        Some(h) => match uint_case(h, pos, 24) {
            Some(c) => cast_case(c, |v: nat| v as u8),
            None => other,
        },
        None => other,
    }
}

/// `cbor::Decoder::u16` on `input` at `pos`.
pub open spec fn cbor_u16(input: Seq<u8>, pos: nat, lim: Limits) -> (Result<u16, CborFault>, nat) {
    u16_case(input, pos, lim, cbor_u16_other(input, pos, lim))
}

/// `cbor_u16`, with `other` in place of what it names.
pub open spec fn u16_case(input: Seq<u8>, pos: nat, lim: Limits, other: (Result<u16, CborFault>, nat)) -> (Result<u16, CborFault>, nat) {
    match stated_head(input, pos, lim) {
        Some(h) => match uint_case(h, pos, 25) {
            Some(c) => cast_case(c, |v: nat| v as u16),
            None => other,
        },
        None => other,
    }
}

/// `cbor::Decoder::u32` on `input` at `pos`.
pub open spec fn cbor_u32(input: Seq<u8>, pos: nat, lim: Limits) -> (Result<u32, CborFault>, nat) {
    u32_case(input, pos, lim, cbor_u32_other(input, pos, lim))
}

/// `cbor_u32`, with `other` in place of what it names.
pub open spec fn u32_case(input: Seq<u8>, pos: nat, lim: Limits, other: (Result<u32, CborFault>, nat)) -> (Result<u32, CborFault>, nat) {
    match stated_head(input, pos, lim) {
        Some(h) => match uint_case(h, pos, 26) {
            Some(c) => cast_case(c, |v: nat| v as u32),
            None => other,
        },
        None => other,
    }
}

/// `cbor::Decoder::u64` on `input` at `pos`.
pub open spec fn cbor_u64(input: Seq<u8>, pos: nat, lim: Limits) -> (Result<u64, CborFault>, nat) {
    u64_case(input, pos, lim, cbor_u64_other(input, pos, lim))
}

/// `cbor_u64`, with `other` in place of what it names.
pub open spec fn u64_case(input: Seq<u8>, pos: nat, lim: Limits, other: (Result<u64, CborFault>, nat)) -> (Result<u64, CborFault>, nat) {
    match stated_head(input, pos, lim) {
        Some(h) => match uint_case(h, pos, 27) {
            Some(c) => cast_case(c, |v: nat| v as u64),
            None => other,
        },
        None => other,
    }
}

/// `cbor::Decoder::i8` on `input` at `pos`.
pub open spec fn cbor_i8(input: Seq<u8>, pos: nat, lim: Limits) -> (Result<i8, CborFault>, nat) {
    i8_case(input, pos, lim, cbor_i8_other(input, pos, lim))
}

/// `cbor_i8`, with `other` in place of what it names.
pub open spec fn i8_case(input: Seq<u8>, pos: nat, lim: Limits, other: (Result<i8, CborFault>, nat)) -> (Result<i8, CborFault>, nat) {
    match stated_head(input, pos, lim) {
        Some(h) => match int_case(h, pos, 24, 0x7f) {
            Some(c) => cast_case(c, |v: int| v as i8),
            None => other,
        },
        None => other,
    }
}

/// `cbor::Decoder::i16` on `input` at `pos`.
pub open spec fn cbor_i16(input: Seq<u8>, pos: nat, lim: Limits) -> (Result<i16, CborFault>, nat) {
    i16_case(input, pos, lim, cbor_i16_other(input, pos, lim))
}

/// `cbor_i16`, with `other` in place of what it names.
pub open spec fn i16_case(input: Seq<u8>, pos: nat, lim: Limits, other: (Result<i16, CborFault>, nat)) -> (Result<i16, CborFault>, nat) {
    match stated_head(input, pos, lim) {
        Some(h) => match int_case(h, pos, 25, 0x7fff) {
            Some(c) => cast_case(c, |v: int| v as i16),
            None => other,
        },
        None => other,
    }
}

/// `cbor::Decoder::i32` on `input` at `pos`.
pub open spec fn cbor_i32(input: Seq<u8>, pos: nat, lim: Limits) -> (Result<i32, CborFault>, nat) {
    i32_case(input, pos, lim, cbor_i32_other(input, pos, lim))
}

/// `cbor_i32`, with `other` in place of what it names.
pub open spec fn i32_case(input: Seq<u8>, pos: nat, lim: Limits, other: (Result<i32, CborFault>, nat)) -> (Result<i32, CborFault>, nat) {
    match stated_head(input, pos, lim) {
        Some(h) => match int_case(h, pos, 26, 0x7fff_ffff) {
            Some(c) => cast_case(c, |v: int| v as i32),
            None => other,
        },
        None => other,
    }
}

/// `cbor::Decoder::i64` on `input` at `pos`.
pub open spec fn cbor_i64(input: Seq<u8>, pos: nat, lim: Limits) -> (Result<i64, CborFault>, nat) {
    i64_case(input, pos, lim, cbor_i64_other(input, pos, lim))
}

/// `cbor_i64`, with `other` in place of what it names.
pub open spec fn i64_case(input: Seq<u8>, pos: nat, lim: Limits, other: (Result<i64, CborFault>, nat)) -> (Result<i64, CborFault>, nat) {
    match stated_head(input, pos, lim) {
        Some(h) => match int_case(h, pos, 27, 0x7fff_ffff_ffff_ffff) {
            Some(c) => cast_case(c, |v: int| v as i64),
            None => other,
        },
        None => other,
    }
}

/// `cbor::Decoder::bool` on `input` at `pos`.
pub open spec fn cbor_bool(input: Seq<u8>, pos: nat, lim: Limits) -> (Result<bool, CborFault>, nat) {
    bool_case(input, pos, lim, cbor_bool_other(input, pos, lim))
}

/// `cbor_bool`, with `other` in place of what it names.
pub open spec fn bool_case(input: Seq<u8>, pos: nat, lim: Limits, other: (Result<bool, CborFault>, nat)) -> (Result<bool, CborFault>, nat) {
    match stated_head(input, pos, lim) {
        Some(h) => if h.major == 7 && (h.info == 20 || h.info == 21) {
            (Ok(h.info == 21), pos + 1)
        } else if is_null(h) {
            (Err(CborFault::Null), pos + 1)
        } else if h.major == 0 || h.major == 3 || h.major == 5 {
            (Err(mismatch(h)), pos + 1)
        } else {
            other
        },
        None => other,
    }
}

/// `cbor::Decoder::text` on `input` at `pos`: a definite text string within
/// the configured length whose bytes are all there and valid UTF-8.
pub open spec fn cbor_text(input: Seq<u8>, pos: nat, lim: Limits) -> (Result<Seq<char>, CborFault>, nat) {
    text_case(input, pos, lim, cbor_text_other(input, pos, lim))
}

/// `cbor_text`, with `other` in place of what it names.
pub open spec fn text_case(input: Seq<u8>, pos: nat, lim: Limits, other: (Result<Seq<char>, CborFault>, nat)) -> (Result<Seq<char>, CborFault>, nat) {
    match stated_head(input, pos, lim) {
        Some(h) => if h.major == 3 && h.arg <= lim.max_len_text && pos + h.len + h.arg <= input.len()
            && valid_utf8(input.subrange((pos + h.len) as int, (pos + h.len + h.arg) as int)) {
            (Ok(decode_utf8(input.subrange((pos + h.len) as int, (pos + h.len + h.arg) as int))), pos + h.len + h.arg)
        } else if is_null(h) {
            (Err(CborFault::Null), pos + 1)
        } else if h.major == 0 || h.major == 5 {
            (Err(mismatch(h)), pos + 1)
        } else {
            other
        },
        None => other,
    }
}

/// `cbor::Decoder::array` on `input` at `pos`: a definite array head within
/// the configured length.
pub open spec fn cbor_array(input: Seq<u8>, pos: nat, lim: Limits) -> (Result<usize, CborFault>, nat) {
    array_case(input, pos, lim, cbor_array_other(input, pos, lim))
}

/// `cbor_array`, with `other` in place of what it names.
pub open spec fn array_case(input: Seq<u8>, pos: nat, lim: Limits, other: (Result<usize, CborFault>, nat)) -> (Result<usize, CborFault>, nat) {
    match stated_head(input, pos, lim) {
        Some(h) => if h.major == 4 && h.arg <= lim.max_len_array {
            (Ok(h.arg as usize), pos + h.len)
        } else if is_null(h) {
            (Err(CborFault::Null), pos + 1)
        } else if h.major == 0 || h.major == 3 || h.major == 5 {
            (Err(mismatch(h)), pos + 1)
        } else {
            other
        },
        None => other,
    }
}

/// `cbor::Decoder::object` on `input` at `pos`: a definite object head
/// within the configured size.
pub open spec fn cbor_object(input: Seq<u8>, pos: nat, lim: Limits) -> (Result<usize, CborFault>, nat) {
    object_case(input, pos, lim, cbor_object_other(input, pos, lim))
}

/// `cbor_object`, with `other` in place of what it names.
pub open spec fn object_case(input: Seq<u8>, pos: nat, lim: Limits, other: (Result<usize, CborFault>, nat)) -> (Result<usize, CborFault>, nat) {
    match stated_head(input, pos, lim) {
        Some(h) => if h.major == 5 && h.arg <= lim.max_size_map {
            (Ok(h.arg as usize), pos + h.len)
        } else if is_null(h) {
            (Err(CborFault::Null), pos + 1)
        } else if h.major == 0 || h.major == 3 {
            (Err(mismatch(h)), pos + 1)
        } else {
            other
        },
        None => other,
    }
}

/// What the call returns outside the cases stated.
pub uninterp spec fn cbor_skip_other(input: Seq<u8>, pos: nat, lim: Limits) -> (Result<(), CborFault>, nat);

/// `cbor::Decoder::skip` on `input` at `pos`: `null`, a boolean, an integer,
/// or a definite text string whose bytes are all there, is skipped whole.
pub open spec fn cbor_skip(input: Seq<u8>, pos: nat, lim: Limits) -> (Result<(), CborFault>, nat) {
    skip_case(input, pos, lim, cbor_skip_other(input, pos, lim))
}

/// `cbor_skip`, with `other` in place of what it names.
pub open spec fn skip_case(input: Seq<u8>, pos: nat, lim: Limits, other: (Result<(), CborFault>, nat)) -> (Result<(), CborFault>, nat) {
    match stated_head(input, pos, lim) {
        Some(h) => if h.major == 7 && 20 <= h.info && h.info <= 22 {
            (Ok(()), pos + 1)
        } else if h.major == 0 || h.major == 1 {
            (Ok(()), pos + h.len)
        } else if h.major == 3 && pos + h.len + h.arg <= input.len() {
            (Ok(()), pos + h.len + h.arg)
        } else {
            other
        },
        None => other,
    }
}

/// What the call returns outside the cases stated.
pub uninterp spec fn cbor_unsigned_other(input: Seq<u8>, pos: nat, info: u8) -> (Result<u64, CborFault>, nat);

/// `cbor::decoder::Kernel::unsigned` on `input` at `pos`, after a first byte
/// with additional information `info`: the argument, when its bytes are there.
pub open spec fn cbor_unsigned(input: Seq<u8>, pos: nat, info: u8) -> (Result<u64, CborFault>, nat) {
    unsigned_case(input, pos, info, cbor_unsigned_other(input, pos, info))
}

/// `cbor_unsigned`, with `other` in place of what it names.
pub open spec fn unsigned_case(input: Seq<u8>, pos: nat, info: u8, other: (Result<u64, CborFault>, nat)) -> (Result<u64, CborFault>, nat) {
    if info <= 23 {
        (Ok(info as u64), pos)
    } else if info <= 27 && pos + arg_len(info as nat) <= input.len() {
        (Ok(be_value(input.subrange(pos as int, (pos + arg_len(info as nat)) as int)) as u64), pos + arg_len(info as nat))
    } else {
        other
    }
}

/// What the call returns outside the cases stated.
pub uninterp spec fn cbor_raw_data_other(input: Seq<u8>, pos: nat, info: u8, max: usize) -> (Result<Seq<u8>, CborFault>, nat);

/// The argument after a first byte with additional information `info`
/// (at most 27), read from `input` at `pos`.
pub open spec fn raw_len(input: Seq<u8>, pos: nat, info: u8) -> nat {
    if info <= 23 { info as nat } else { be_value(input.subrange(pos as int, (pos + arg_len(info as nat)) as int)) }
}

/// `cbor::decoder::Kernel::raw_data` on `input` at `pos`, after a first byte
/// with additional information `info`: the bytes of the length the argument
/// gives, when it is at most `max` and they are all there.
pub open spec fn cbor_raw_data(input: Seq<u8>, pos: nat, info: u8, max: usize) -> (Result<Seq<u8>, CborFault>, nat) {
    raw_data_case(input, pos, info, max, cbor_raw_data_other(input, pos, info, max))
}

/// `cbor_raw_data`, with `other` in place of what it names.
pub open spec fn raw_data_case(input: Seq<u8>, pos: nat, info: u8, max: usize, other: (Result<Seq<u8>, CborFault>, nat)) -> (Result<Seq<u8>, CborFault>, nat) {
    if info <= 27 && pos + arg_len(info as nat) <= input.len() && raw_len(input, pos, info) <= max
        && pos + arg_len(info as nat) + raw_len(input, pos, info) <= input.len() {
        (Ok(input.subrange((pos + arg_len(info as nat)) as int, (pos + arg_len(info as nat) + raw_len(input, pos, info)) as int)),
            pos + arg_len(info as nat) + raw_len(input, pos, info))
    } else {
        other
    }
}

/// The result of a text read with the string taken by its characters.
pub open spec fn text_view(r: Result<String, Failure>) -> Result<Seq<char>, CborFault> {
    match r {
        Ok(s) => Ok(s@),
        Err(f) => Err(f.fault),
    }
}

/// The result of a raw read with the vector taken by its bytes.
pub open spec fn bytes_view(r: Result<Vec<u8>, Failure>) -> Result<Seq<u8>, CborFault> {
    match r {
        Ok(v) => Ok(v@),
        Err(f) => Err(f.fault),
    }
}

/// `cbor::Encoder::new` on an empty vector.
#[verifier::external_body]
pub(crate) fn new_encoder() -> (e: CborEncoder)
    ensures
        written(e) == Seq::<u8>::empty(),
{
    cbor::Encoder::new(Vec::new())
}

/// `cbor::Encoder::into_writer`: the vector written into.
#[verifier::external_body]
pub(crate) fn encoder_output(e: CborEncoder) -> (v: Vec<u8>)
    ensures
        v@ == written(e),
{
    e.into_writer()
}

/// `cbor::Decoder::new` with `cbor::Config::default()`, reading `input` from its start.
#[verifier::external_body]
pub(crate) fn new_decoder(input: Vec<u8>) -> (d: CborDecoder)
    ensures
        decoder_cursor(d) == (input@, 0nat),
        decoder_limits(d) == default_limits(),
{
    cbor::Decoder::new(cbor::Config::default(), Cursor::new(input))
}

/// `cbor::Decoder::into_reader`, then the position of the cursor.
#[verifier::external_body]
pub(crate) fn decoder_position(d: CborDecoder) -> (p: u64)
    ensures
        p == decoder_cursor(d).1,
{
    d.into_reader().position()
}

/// `std::string::String::from_utf8`: succeeds exactly on valid UTF-8, which it decodes.
#[verifier::external_body]
pub(crate) fn string_from_utf8(v: Vec<u8>) -> (r: Result<String, std::string::FromUtf8Error>)
    ensures
        r is Ok <==> valid_utf8(v@),
        r is Ok ==> r->Ok_0@ == decode_utf8(v@),
{
    String::from_utf8(v)
}

/// `str::eq`: two string slices are equal when their characters are.
#[verifier::external_body]
pub(crate) fn str_equal(a: &str, b: &str) -> (r: bool)
    ensures
        r == (a@ == b@),
{
    a == b
}

/// `cbor::Encoder::u8`: writes the unsigned integer in its shortest head. Writing into a vector does not fail.
#[verifier::external_body]
pub(crate) fn put_u8(e: &mut CborEncoder, x: u8) -> (r: Result<(), cbor::EncodeError>)
    ensures
        r is Ok,
        written(*final(e)) == written(*old(e)) + head32(0, x as nat),
{
    e.u8(x)
}

/// `cbor::Encoder::u16`: writes the unsigned integer in its shortest head. Writing into a vector does not fail.
#[verifier::external_body]
pub(crate) fn put_u16(e: &mut CborEncoder, x: u16) -> (r: Result<(), cbor::EncodeError>)
    ensures
        r is Ok,
        written(*final(e)) == written(*old(e)) + head32(0, x as nat),
{
    e.u16(x)
}

/// `cbor::Encoder::u32`: writes the unsigned integer in its shortest head. Writing into a vector does not fail.
#[verifier::external_body]
pub(crate) fn put_u32(e: &mut CborEncoder, x: u32) -> (r: Result<(), cbor::EncodeError>)
    ensures
        r is Ok,
        written(*final(e)) == written(*old(e)) + head32(0, x as nat),
{
    e.u32(x)
}

/// `cbor::Encoder::u64`: writes the unsigned integer's head (arguments 0x10000 to 0xfffff in eight bytes). Writing into a vector does not fail.
#[verifier::external_body]
pub(crate) fn put_u64(e: &mut CborEncoder, x: u64) -> (r: Result<(), cbor::EncodeError>)
    ensures
        r is Ok,
        written(*final(e)) == written(*old(e)) + head64(0, x as nat),
{
    e.u64(x)
}

/// `cbor::Encoder::i8`: writes the integer as major type 0 or 1 in its shortest head. Writing into a vector does not fail.
#[verifier::external_body]
pub(crate) fn put_i8(e: &mut CborEncoder, x: i8) -> (r: Result<(), cbor::EncodeError>)
    ensures
        r is Ok,
        written(*final(e)) == written(*old(e)) + int32_item(x as int),
{
    e.i8(x)
}

/// `cbor::Encoder::i16`: writes the integer as major type 0 or 1 in its shortest head. Writing into a vector does not fail.
#[verifier::external_body]
pub(crate) fn put_i16(e: &mut CborEncoder, x: i16) -> (r: Result<(), cbor::EncodeError>)
    ensures
        r is Ok,
        written(*final(e)) == written(*old(e)) + int32_item(x as int),
{
    e.i16(x)
}

/// `cbor::Encoder::i32`: writes the integer as major type 0 or 1 in its shortest head. Writing into a vector does not fail.
#[verifier::external_body]
pub(crate) fn put_i32(e: &mut CborEncoder, x: i32) -> (r: Result<(), cbor::EncodeError>)
    ensures
        r is Ok,
        written(*final(e)) == written(*old(e)) + int32_item(x as int),
{
    e.i32(x)
}

/// `cbor::Encoder::i64`: writes the integer as major type 0 or 1 (arguments 0x10000 to 0xfffff in eight bytes). Writing into a vector does not fail.
#[verifier::external_body]
pub(crate) fn put_i64(e: &mut CborEncoder, x: i64) -> (r: Result<(), cbor::EncodeError>)
    ensures
        r is Ok,
        written(*final(e)) == written(*old(e)) + int64_item(x as int),
{
    e.i64(x)
}

/// `cbor::Encoder::bool`: writes `true` or `false`. Writing into a vector does not fail.
#[verifier::external_body]
pub(crate) fn put_bool(e: &mut CborEncoder, x: bool) -> (r: Result<(), cbor::EncodeError>)
    ensures
        r is Ok,
        written(*final(e)) == written(*old(e)) + bool_item(x),
{
    e.bool(x)
}

/// `cbor::Encoder::null`: writes `null`. Writing into a vector does not fail.
#[verifier::external_body]
pub(crate) fn put_null(e: &mut CborEncoder) -> (r: Result<(), cbor::EncodeError>)
    ensures
        r is Ok,
        written(*final(e)) == written(*old(e)) + null_item(),
{
    e.null()
}

/// `cbor::Encoder::text`: writes the text head for the UTF-8 length, then the UTF-8 bytes. Writing into a vector does not fail.
#[verifier::external_body]
pub(crate) fn put_text(e: &mut CborEncoder, x: &str) -> (r: Result<(), cbor::EncodeError>)
    ensures
        r is Ok,
        written(*final(e)) == written(*old(e)) + text_item(x@),
{
    e.text(x)
}

/// `cbor::Encoder::array`: writes a definite array head. Writing into a vector does not fail.
#[verifier::external_body]
pub(crate) fn put_array(e: &mut CborEncoder, len: usize) -> (r: Result<(), cbor::EncodeError>)
    ensures
        r is Ok,
        written(*final(e)) == written(*old(e)) + head64(4, len as nat),
{
    e.array(len)
}

/// `cbor::Encoder::object`: writes a definite object head. Writing into a vector does not fail.
#[verifier::external_body]
pub(crate) fn put_object(e: &mut CborEncoder, len: usize) -> (r: Result<(), cbor::EncodeError>)
    ensures
        r is Ok,
        written(*final(e)) == written(*old(e)) + head64(5, len as nat),
{
    e.object(len)
}

/// `cbor::Decoder::skip`: skips one item; a `null`, an integer, a boolean or a text string the encoder writes is skipped whole.
#[verifier::external_body]
pub(crate) fn read_skip(d: &mut CborDecoder) -> (r: Result<(), Failure>)
    ensures
        same_source(*old(d), *final(d)),
        (plain(r), decoder_pos(*final(d))) == skip_case(
            decoder_input(*old(d)),
            decoder_pos(*old(d)),
            decoder_limits(*old(d)),
            cbor_skip_other(decoder_input(*old(d)), decoder_pos(*old(d)), decoder_limits(*old(d))),
        ),
{
    d.skip().map_err(|e| {
        let fault = match &e {
            CborError::UnexpectedType { datatype, info } => match datatype {
                Type::Null => CborFault::Null,
                Type::Object => CborFault::Object(*info),
                Type::Text => CborFault::Text(*info),
                Type::UInt8 | Type::UInt16 | Type::UInt32 | Type::UInt64 => CborFault::UInt(*info),
                _ => CborFault::Other,
            },
            _ => CborFault::Other,
        };
        Failure { fault, error: e }
    })
}

/// `cbor::Decoder::u8`: reads an unsigned integer that fits in a `u8`; the head the encoder writes for `v` gives `v`.
#[verifier::external_body]
pub(crate) fn read_u8(d: &mut CborDecoder) -> (r: Result<u8, Failure>)
    ensures
        same_source(*old(d), *final(d)),
        (plain(r), decoder_pos(*final(d))) == u8_case(
            decoder_input(*old(d)),
            decoder_pos(*old(d)),
            decoder_limits(*old(d)),
            cbor_u8_other(decoder_input(*old(d)), decoder_pos(*old(d)), decoder_limits(*old(d))),
        ),
{
    d.u8().map_err(|e| {
        let fault = match &e {
            CborError::UnexpectedType { datatype, info } => match datatype {
                Type::Null => CborFault::Null,
                Type::Object => CborFault::Object(*info),
                Type::Text => CborFault::Text(*info),
                Type::UInt8 | Type::UInt16 | Type::UInt32 | Type::UInt64 => CborFault::UInt(*info),
                _ => CborFault::Other,
            },
            _ => CborFault::Other,
        };
        Failure { fault, error: e }
    })
}

/// `cbor::Decoder::u16`: reads an unsigned integer that fits in a `u16`; the head the encoder writes for `v` gives `v`.
#[verifier::external_body]
pub(crate) fn read_u16(d: &mut CborDecoder) -> (r: Result<u16, Failure>)
    ensures
        same_source(*old(d), *final(d)),
        (plain(r), decoder_pos(*final(d))) == u16_case(
            decoder_input(*old(d)),
            decoder_pos(*old(d)),
            decoder_limits(*old(d)),
            cbor_u16_other(decoder_input(*old(d)), decoder_pos(*old(d)), decoder_limits(*old(d))),
        ),
{
    d.u16().map_err(|e| {
        let fault = match &e {
            CborError::UnexpectedType { datatype, info } => match datatype {
                Type::Null => CborFault::Null,
                Type::Object => CborFault::Object(*info),
                Type::Text => CborFault::Text(*info),
                Type::UInt8 | Type::UInt16 | Type::UInt32 | Type::UInt64 => CborFault::UInt(*info),
                _ => CborFault::Other,
            },
            _ => CborFault::Other,
        };
        Failure { fault, error: e }
    })
}

/// `cbor::Decoder::u32`: reads an unsigned integer that fits in a `u32`; the head the encoder writes for `v` gives `v`.
#[verifier::external_body]
pub(crate) fn read_u32(d: &mut CborDecoder) -> (r: Result<u32, Failure>)
    ensures
        same_source(*old(d), *final(d)),
        (plain(r), decoder_pos(*final(d))) == u32_case(
            decoder_input(*old(d)),
            decoder_pos(*old(d)),
            decoder_limits(*old(d)),
            cbor_u32_other(decoder_input(*old(d)), decoder_pos(*old(d)), decoder_limits(*old(d))),
        ),
{
    d.u32().map_err(|e| {
        let fault = match &e {
            CborError::UnexpectedType { datatype, info } => match datatype {
                Type::Null => CborFault::Null,
                Type::Object => CborFault::Object(*info),
                Type::Text => CborFault::Text(*info),
                Type::UInt8 | Type::UInt16 | Type::UInt32 | Type::UInt64 => CborFault::UInt(*info),
                _ => CborFault::Other,
            },
            _ => CborFault::Other,
        };
        Failure { fault, error: e }
    })
}

/// `cbor::Decoder::u64`: reads an unsigned integer; the head the encoder writes for `v` gives `v`; a text head is refused after its first byte, with its additional information.
#[verifier::external_body]
pub(crate) fn read_u64(d: &mut CborDecoder) -> (r: Result<u64, Failure>)
    ensures
        same_source(*old(d), *final(d)),
        (plain(r), decoder_pos(*final(d))) == u64_case(
            decoder_input(*old(d)),
            decoder_pos(*old(d)),
            decoder_limits(*old(d)),
            cbor_u64_other(decoder_input(*old(d)), decoder_pos(*old(d)), decoder_limits(*old(d))),
        ),
{
    d.u64().map_err(|e| {
        let fault = match &e {
            CborError::UnexpectedType { datatype, info } => match datatype {
                Type::Null => CborFault::Null,
                Type::Object => CborFault::Object(*info),
                Type::Text => CborFault::Text(*info),
                Type::UInt8 | Type::UInt16 | Type::UInt32 | Type::UInt64 => CborFault::UInt(*info),
                _ => CborFault::Other,
            },
            _ => CborFault::Other,
        };
        Failure { fault, error: e }
    })
}

/// `cbor::Decoder::i8`: reads a signed integer that fits in an `i8`; the item the encoder writes for `x` gives `x`.
#[verifier::external_body]
pub(crate) fn read_i8(d: &mut CborDecoder) -> (r: Result<i8, Failure>)
    ensures
        same_source(*old(d), *final(d)),
        (plain(r), decoder_pos(*final(d))) == i8_case(
            decoder_input(*old(d)),
            decoder_pos(*old(d)),
            decoder_limits(*old(d)),
            cbor_i8_other(decoder_input(*old(d)), decoder_pos(*old(d)), decoder_limits(*old(d))),
        ),
{
    d.i8().map_err(|e| {
        let fault = match &e {
            CborError::UnexpectedType { datatype, info } => match datatype {
                Type::Null => CborFault::Null,
                Type::Object => CborFault::Object(*info),
                Type::Text => CborFault::Text(*info),
                Type::UInt8 | Type::UInt16 | Type::UInt32 | Type::UInt64 => CborFault::UInt(*info),
                _ => CborFault::Other,
            },
            _ => CborFault::Other,
        };
        Failure { fault, error: e }
    })
}

/// `cbor::Decoder::i16`: reads a signed integer that fits in an `i16`; the item the encoder writes for `x` gives `x`.
#[verifier::external_body]
pub(crate) fn read_i16(d: &mut CborDecoder) -> (r: Result<i16, Failure>)
    ensures
        same_source(*old(d), *final(d)),
        (plain(r), decoder_pos(*final(d))) == i16_case(
            decoder_input(*old(d)),
            decoder_pos(*old(d)),
            decoder_limits(*old(d)),
            cbor_i16_other(decoder_input(*old(d)), decoder_pos(*old(d)), decoder_limits(*old(d))),
        ),
{
    d.i16().map_err(|e| {
        let fault = match &e {
            CborError::UnexpectedType { datatype, info } => match datatype {
                Type::Null => CborFault::Null,
                Type::Object => CborFault::Object(*info),
                Type::Text => CborFault::Text(*info),
                Type::UInt8 | Type::UInt16 | Type::UInt32 | Type::UInt64 => CborFault::UInt(*info),
                _ => CborFault::Other,
            },
            _ => CborFault::Other,
        };
        Failure { fault, error: e }
    })
}

/// `cbor::Decoder::i32`: reads a signed integer that fits in an `i32`; the item the encoder writes for `x` gives `x`.
#[verifier::external_body]
pub(crate) fn read_i32(d: &mut CborDecoder) -> (r: Result<i32, Failure>)
    ensures
        same_source(*old(d), *final(d)),
        (plain(r), decoder_pos(*final(d))) == i32_case(
            decoder_input(*old(d)),
            decoder_pos(*old(d)),
            decoder_limits(*old(d)),
            cbor_i32_other(decoder_input(*old(d)), decoder_pos(*old(d)), decoder_limits(*old(d))),
        ),
{
    d.i32().map_err(|e| {
        let fault = match &e {
            CborError::UnexpectedType { datatype, info } => match datatype {
                Type::Null => CborFault::Null,
                Type::Object => CborFault::Object(*info),
                Type::Text => CborFault::Text(*info),
                Type::UInt8 | Type::UInt16 | Type::UInt32 | Type::UInt64 => CborFault::UInt(*info),
                _ => CborFault::Other,
            },
            _ => CborFault::Other,
        };
        Failure { fault, error: e }
    })
}

/// `cbor::Decoder::i64`: reads a signed integer that fits in an `i64`; the item the encoder writes for `x` gives `x`.
#[verifier::external_body]
pub(crate) fn read_i64(d: &mut CborDecoder) -> (r: Result<i64, Failure>)
    ensures
        same_source(*old(d), *final(d)),
        (plain(r), decoder_pos(*final(d))) == i64_case(
            decoder_input(*old(d)),
            decoder_pos(*old(d)),
            decoder_limits(*old(d)),
            cbor_i64_other(decoder_input(*old(d)), decoder_pos(*old(d)), decoder_limits(*old(d))),
        ),
{
    d.i64().map_err(|e| {
        let fault = match &e {
            CborError::UnexpectedType { datatype, info } => match datatype {
                Type::Null => CborFault::Null,
                Type::Object => CborFault::Object(*info),
                Type::Text => CborFault::Text(*info),
                Type::UInt8 | Type::UInt16 | Type::UInt32 | Type::UInt64 => CborFault::UInt(*info),
                _ => CborFault::Other,
            },
            _ => CborFault::Other,
        };
        Failure { fault, error: e }
    })
}

/// `cbor::Decoder::bool`: reads a boolean.
#[verifier::external_body]
pub(crate) fn read_bool(d: &mut CborDecoder) -> (r: Result<bool, Failure>)
    ensures
        same_source(*old(d), *final(d)),
        (plain(r), decoder_pos(*final(d))) == bool_case(
            decoder_input(*old(d)),
            decoder_pos(*old(d)),
            decoder_limits(*old(d)),
            cbor_bool_other(decoder_input(*old(d)), decoder_pos(*old(d)), decoder_limits(*old(d))),
        ),
{
    d.bool().map_err(|e| {
        let fault = match &e {
            CborError::UnexpectedType { datatype, info } => match datatype {
                Type::Null => CborFault::Null,
                Type::Object => CborFault::Object(*info),
                Type::Text => CborFault::Text(*info),
                Type::UInt8 | Type::UInt16 | Type::UInt32 | Type::UInt64 => CborFault::UInt(*info),
                _ => CborFault::Other,
            },
            _ => CborFault::Other,
        };
        Failure { fault, error: e }
    })
}

/// `cbor::Decoder::text`: reads a definite-length UTF-8 text string no longer than the configured maximum; the item the encoder writes for `s` gives `s`; an unsigned integer head is refused after its first byte, with its additional information.
#[verifier::external_body]
pub(crate) fn read_text(d: &mut CborDecoder) -> (r: Result<String, Failure>)
    ensures
        same_source(*old(d), *final(d)),
        (text_view(r), decoder_pos(*final(d))) == text_case(
            decoder_input(*old(d)),
            decoder_pos(*old(d)),
            decoder_limits(*old(d)),
            cbor_text_other(decoder_input(*old(d)), decoder_pos(*old(d)), decoder_limits(*old(d))),
        ),
{
    d.text().map_err(|e| {
        let fault = match &e {
            CborError::UnexpectedType { datatype, info } => match datatype {
                Type::Null => CborFault::Null,
                Type::Object => CborFault::Object(*info),
                Type::Text => CborFault::Text(*info),
                Type::UInt8 | Type::UInt16 | Type::UInt32 | Type::UInt64 => CborFault::UInt(*info),
                _ => CborFault::Other,
            },
            _ => CborFault::Other,
        };
        Failure { fault, error: e }
    })
}

/// `cbor::Decoder::array`: reads a definite array head whose length is within the configured maximum; an object head is refused after its first byte, with its additional information.
#[verifier::external_body]
pub(crate) fn read_array(d: &mut CborDecoder) -> (r: Result<usize, Failure>)
    ensures
        same_source(*old(d), *final(d)),
        (plain(r), decoder_pos(*final(d))) == array_case(
            decoder_input(*old(d)),
            decoder_pos(*old(d)),
            decoder_limits(*old(d)),
            cbor_array_other(decoder_input(*old(d)), decoder_pos(*old(d)), decoder_limits(*old(d))),
        ),
{
    d.array().map_err(|e| {
        let fault = match &e {
            CborError::UnexpectedType { datatype, info } => match datatype {
                Type::Null => CborFault::Null,
                Type::Object => CborFault::Object(*info),
                Type::Text => CborFault::Text(*info),
                Type::UInt8 | Type::UInt16 | Type::UInt32 | Type::UInt64 => CborFault::UInt(*info),
                _ => CborFault::Other,
            },
            _ => CborFault::Other,
        };
        Failure { fault, error: e }
    })
}

/// `cbor::Decoder::object`: reads a definite object head whose size is within the configured maximum.
#[verifier::external_body]
pub(crate) fn read_object(d: &mut CborDecoder) -> (r: Result<usize, Failure>)
    ensures
        same_source(*old(d), *final(d)),
        (plain(r), decoder_pos(*final(d))) == object_case(
            decoder_input(*old(d)),
            decoder_pos(*old(d)),
            decoder_limits(*old(d)),
            cbor_object_other(decoder_input(*old(d)), decoder_pos(*old(d)), decoder_limits(*old(d))),
        ),
{
    d.object().map_err(|e| {
        let fault = match &e {
            CborError::UnexpectedType { datatype, info } => match datatype {
                Type::Null => CborFault::Null,
                Type::Object => CborFault::Object(*info),
                Type::Text => CborFault::Text(*info),
                Type::UInt8 | Type::UInt16 | Type::UInt32 | Type::UInt64 => CborFault::UInt(*info),
                _ => CborFault::Other,
            },
            _ => CborFault::Other,
        };
        Failure { fault, error: e }
    })
}

/// `cbor::decoder::Kernel::unsigned`: reads the argument of a head whose first byte, with additional information `info`, was read already.
#[verifier::external_body]
pub(crate) fn read_unsigned(d: &mut CborDecoder, info: u8) -> (r: Result<u64, Failure>)
    ensures
        same_source(*old(d), *final(d)),
        (plain(r), decoder_pos(*final(d))) == unsigned_case(
            decoder_input(*old(d)),
            decoder_pos(*old(d)),
            info,
            cbor_unsigned_other(decoder_input(*old(d)), decoder_pos(*old(d)), info),
        ),
{
    d.kernel().unsigned(info).map_err(|e| {
        let fault = match &e {
            CborError::UnexpectedType { datatype, info } => match datatype {
                Type::Null => CborFault::Null,
                Type::Object => CborFault::Object(*info),
                Type::Text => CborFault::Text(*info),
                Type::UInt8 | Type::UInt16 | Type::UInt32 | Type::UInt64 => CborFault::UInt(*info),
                _ => CborFault::Other,
            },
            _ => CborFault::Other,
        };
        Failure { fault, error: e }
    })
}

/// `cbor::decoder::Kernel::raw_data`: reads the length argument of a head whose first byte, with additional information `info`, was read already, then that many bytes, when the length is at most `max`.
#[verifier::external_body]
pub(crate) fn read_raw_data(d: &mut CborDecoder, info: u8, max: usize) -> (r: Result<Vec<u8>, Failure>)
    ensures
        same_source(*old(d), *final(d)),
        (bytes_view(r), decoder_pos(*final(d))) == raw_data_case(
            decoder_input(*old(d)),
            decoder_pos(*old(d)),
            info,
            max,
            cbor_raw_data_other(decoder_input(*old(d)), decoder_pos(*old(d)), info, max),
        ),
{
    d.kernel().raw_data(info, max).map_err(|e| {
        let fault = match &e {
            CborError::UnexpectedType { datatype, info } => match datatype {
                Type::Null => CborFault::Null,
                Type::Object => CborFault::Object(*info),
                Type::Text => CborFault::Text(*info),
                Type::UInt8 | Type::UInt16 | Type::UInt32 | Type::UInt64 => CborFault::UInt(*info),
                _ => CborFault::Other,
            },
            _ => CborFault::Other,
        };
        Failure { fault, error: e }
    })
}

} // verus!
