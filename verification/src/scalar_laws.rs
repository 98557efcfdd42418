//! The wire form of integers, booleans and strings: what a reader of the
//! bytes finds where a value was encoded, and what the decoder gives for
//! the heads the encoder writes.
use crate::cbor_io::Limits;
use crate::errors::ErrorView;
use crate::laws::{lemma_byte_head, lemma_int_head, RoundTrip};
use crate::traits::{Decodable, Encodable};
use crate::wire::{at, head32, head64, head_at, lemma_head_at, lemma_head_len, Head};
use vstd::prelude::*;
use vstd::utf8::encode_utf8;

verus! {

/// A `u8` is written as one head of major type 0 (an unsigned integer)
/// whose argument is the value.
pub proof fn lemma_u8_wire(x: u8, out: Seq<u8>)
    requires
        x.spec_encodes(out),
    ensures
        head_at(out, 0) == Some(Head { major: 0, info: (out[0] as nat) % 32, arg: x as nat, len: out.len() }),
{
    assert(out.subrange(0, out.len() as int) =~= out);
    lemma_head_at(out, 0, 0, x as nat, false);
}

/// The head of an unsigned integer `a` that fits a `u8`, where it stands,
/// decodes as `a` and nothing after it is read.
pub proof fn lemma_u8_read(a: nat, input: Seq<u8>, pos: nat, lim: Limits)
    requires
        a <= 0xff,
        at(input, pos, head32(0, a)),
        lim.max_nesting > 0,
    ensures
        <u8 as Decodable>::spec_decode(input, pos, lim) == (Ok::<Option<u8>, ErrorView>(Some(a as u8)), pos + head32(0, a).len()),
{
    let x = a as u8;
    x.lemma_roundtrip(head32(0, a), input, pos, lim);
}

/// A `u16` is written as one head of major type 0 (an unsigned integer)
/// whose argument is the value.
pub proof fn lemma_u16_wire(x: u16, out: Seq<u8>)
    requires
        x.spec_encodes(out),
    ensures
        head_at(out, 0) == Some(Head { major: 0, info: (out[0] as nat) % 32, arg: x as nat, len: out.len() }),
{
    assert(out.subrange(0, out.len() as int) =~= out);
    lemma_head_at(out, 0, 0, x as nat, false);
}

/// The head of an unsigned integer `a` that fits a `u16`, where it stands,
/// decodes as `a` and nothing after it is read.
pub proof fn lemma_u16_read(a: nat, input: Seq<u8>, pos: nat, lim: Limits)
    requires
        a <= 0xffff,
        at(input, pos, head32(0, a)),
        lim.max_nesting > 0,
    ensures
        <u16 as Decodable>::spec_decode(input, pos, lim) == (Ok::<Option<u16>, ErrorView>(Some(a as u16)), pos + head32(0, a).len()),
{
    let x = a as u16;
    x.lemma_roundtrip(head32(0, a), input, pos, lim);
}

/// A `u32` is written as one head of major type 0 (an unsigned integer)
/// whose argument is the value.
pub proof fn lemma_u32_wire(x: u32, out: Seq<u8>)
    requires
        x.spec_encodes(out),
    ensures
        head_at(out, 0) == Some(Head { major: 0, info: (out[0] as nat) % 32, arg: x as nat, len: out.len() }),
{
    assert(out.subrange(0, out.len() as int) =~= out);
    lemma_head_at(out, 0, 0, x as nat, false);
}

/// The head of an unsigned integer `a` that fits a `u32`, where it stands,
/// decodes as `a` and nothing after it is read.
pub proof fn lemma_u32_read(a: nat, input: Seq<u8>, pos: nat, lim: Limits)
    requires
        a <= 0xffff_ffff,
        at(input, pos, head32(0, a)),
        lim.max_nesting > 0,
    ensures
        <u32 as Decodable>::spec_decode(input, pos, lim) == (Ok::<Option<u32>, ErrorView>(Some(a as u32)), pos + head32(0, a).len()),
{
    let x = a as u32;
    x.lemma_roundtrip(head32(0, a), input, pos, lim);
}

/// A `u64` is written as one head of major type 0 (an unsigned integer)
/// whose argument is the value.
pub proof fn lemma_u64_wire(x: u64, out: Seq<u8>)
    requires
        x.spec_encodes(out),
    ensures
        head_at(out, 0) == Some(Head { major: 0, info: (out[0] as nat) % 32, arg: x as nat, len: out.len() }),
{
    assert(out.subrange(0, out.len() as int) =~= out);
    lemma_head_at(out, 0, 0, x as nat, true);
}

/// The head of an unsigned integer `a` that fits a `u64`, where it stands,
/// decodes as `a` and nothing after it is read.
pub proof fn lemma_u64_read(a: nat, input: Seq<u8>, pos: nat, lim: Limits)
    requires
        a <= 0xffff_ffff_ffff_ffff,
        at(input, pos, head64(0, a)),
        lim.max_nesting > 0,
    ensures
        <u64 as Decodable>::spec_decode(input, pos, lim) == (Ok::<Option<u64>, ErrorView>(Some(a as u64)), pos + head64(0, a).len()),
{
    let x = a as u64;
    x.lemma_roundtrip(head64(0, a), input, pos, lim);
}

/// A `usize` is written as one head of major type 0 (an unsigned integer)
/// whose argument is the value.
pub proof fn lemma_usize_wire(x: usize, out: Seq<u8>)
    requires
        x.spec_encodes(out),
    ensures
        head_at(out, 0) == Some(Head { major: 0, info: (out[0] as nat) % 32, arg: x as nat, len: out.len() }),
{
    assert(out.subrange(0, out.len() as int) =~= out);
    lemma_head_at(out, 0, 0, x as nat, true);
}

/// The head of an unsigned integer `a` that fits a `usize`, where it stands,
/// decodes as `a` and nothing after it is read.
pub proof fn lemma_usize_read(a: nat, input: Seq<u8>, pos: nat, lim: Limits)
    requires
        a <= usize::MAX,
        at(input, pos, head64(0, a)),
        lim.max_nesting > 0,
    ensures
        <usize as Decodable>::spec_decode(input, pos, lim) == (Ok::<Option<usize>, ErrorView>(Some(a as usize)), pos + head64(0, a).len()),
{
    let x = a as usize;
    x.lemma_roundtrip(head64(0, a), input, pos, lim);
}

/// An `i8` is written as one head: major type 0 with the value as argument
/// when it is not negative, major type 1 (a negative integer) with argument
/// `-1 - x` when it is.
pub proof fn lemma_i8_wire(x: i8, out: Seq<u8>)
    requires
        x.spec_encodes(out),
    ensures
        head_at(out, 0) == Some(Head {
            major: if x >= 0 { 0nat } else { 1nat },
            info: (out[0] as nat) % 32,
            arg: if x >= 0 { x as nat } else { (-1 - x) as nat },
            len: out.len(),
        }),
{
    assert(out.subrange(0, out.len() as int) =~= out);
    lemma_int_head(out, 0, x as int, false);
}

/// The head of an integer that fits an `i8`, where it stands, decodes as
/// that integer: `a` for major type 0, `-1 - a` for major type 1; nothing
/// after it is read.
pub proof fn lemma_i8_read(negative: bool, a: nat, input: Seq<u8>, pos: nat, lim: Limits)
    requires
        a <= 0x7f,
        at(input, pos, head32(if negative { 1u8 } else { 0u8 }, a)),
        lim.max_nesting > 0,
    ensures
        <i8 as Decodable>::spec_decode(input, pos, lim) == (
            Ok::<Option<i8>, ErrorView>(Some(if negative { (-1 - a) as i8 } else { a as i8 })),
            pos + head32(if negative { 1u8 } else { 0u8 }, a).len(),
        ),
{
    let x: i8 = if negative { (-1 - a) as i8 } else { a as i8 };
    x.lemma_roundtrip(head32(if negative { 1u8 } else { 0u8 }, a), input, pos, lim);
}

/// An `i16` is written as one head: major type 0 with the value as argument
/// when it is not negative, major type 1 (a negative integer) with argument
/// `-1 - x` when it is.
pub proof fn lemma_i16_wire(x: i16, out: Seq<u8>)
    requires
        x.spec_encodes(out),
    ensures
        head_at(out, 0) == Some(Head {
            major: if x >= 0 { 0nat } else { 1nat },
            info: (out[0] as nat) % 32,
            arg: if x >= 0 { x as nat } else { (-1 - x) as nat },
            len: out.len(),
        }),
{
    assert(out.subrange(0, out.len() as int) =~= out);
    lemma_int_head(out, 0, x as int, false);
}

/// The head of an integer that fits an `i16`, where it stands, decodes as
/// that integer: `a` for major type 0, `-1 - a` for major type 1; nothing
/// after it is read.
pub proof fn lemma_i16_read(negative: bool, a: nat, input: Seq<u8>, pos: nat, lim: Limits)
    requires
        a <= 0x7fff,
        at(input, pos, head32(if negative { 1u8 } else { 0u8 }, a)),
        lim.max_nesting > 0,
    ensures
        <i16 as Decodable>::spec_decode(input, pos, lim) == (
            Ok::<Option<i16>, ErrorView>(Some(if negative { (-1 - a) as i16 } else { a as i16 })),
            pos + head32(if negative { 1u8 } else { 0u8 }, a).len(),
        ),
{
    let x: i16 = if negative { (-1 - a) as i16 } else { a as i16 };
    x.lemma_roundtrip(head32(if negative { 1u8 } else { 0u8 }, a), input, pos, lim);
}

/// An `i32` is written as one head: major type 0 with the value as argument
/// when it is not negative, major type 1 (a negative integer) with argument
/// `-1 - x` when it is.
pub proof fn lemma_i32_wire(x: i32, out: Seq<u8>)
    requires
        x.spec_encodes(out),
    ensures
        head_at(out, 0) == Some(Head {
            major: if x >= 0 { 0nat } else { 1nat },
            info: (out[0] as nat) % 32,
            arg: if x >= 0 { x as nat } else { (-1 - x) as nat },
            len: out.len(),
        }),
{
    assert(out.subrange(0, out.len() as int) =~= out);
    lemma_int_head(out, 0, x as int, false);
}

/// The head of an integer that fits an `i32`, where it stands, decodes as
/// that integer: `a` for major type 0, `-1 - a` for major type 1; nothing
/// after it is read.
pub proof fn lemma_i32_read(negative: bool, a: nat, input: Seq<u8>, pos: nat, lim: Limits)
    requires
        a <= 0x7fff_ffff,
        at(input, pos, head32(if negative { 1u8 } else { 0u8 }, a)),
        lim.max_nesting > 0,
    ensures
        <i32 as Decodable>::spec_decode(input, pos, lim) == (
            Ok::<Option<i32>, ErrorView>(Some(if negative { (-1 - a) as i32 } else { a as i32 })),
            pos + head32(if negative { 1u8 } else { 0u8 }, a).len(),
        ),
{
    let x: i32 = if negative { (-1 - a) as i32 } else { a as i32 };
    x.lemma_roundtrip(head32(if negative { 1u8 } else { 0u8 }, a), input, pos, lim);
}

/// An `i64` is written as one head: major type 0 with the value as argument
/// when it is not negative, major type 1 (a negative integer) with argument
/// `-1 - x` when it is.
pub proof fn lemma_i64_wire(x: i64, out: Seq<u8>)
    requires
        x.spec_encodes(out),
    ensures
        head_at(out, 0) == Some(Head {
            major: if x >= 0 { 0nat } else { 1nat },
            info: (out[0] as nat) % 32,
            arg: if x >= 0 { x as nat } else { (-1 - x) as nat },
            len: out.len(),
        }),
{
    assert(out.subrange(0, out.len() as int) =~= out);
    lemma_int_head(out, 0, x as int, true);
}

/// The head of an integer that fits an `i64`, where it stands, decodes as
/// that integer: `a` for major type 0, `-1 - a` for major type 1; nothing
/// after it is read.
pub proof fn lemma_i64_read(negative: bool, a: nat, input: Seq<u8>, pos: nat, lim: Limits)
    requires
        a <= 0x7fff_ffff_ffff_ffff,
        at(input, pos, head64(if negative { 1u8 } else { 0u8 }, a)),
        lim.max_nesting > 0,
    ensures
        <i64 as Decodable>::spec_decode(input, pos, lim) == (
            Ok::<Option<i64>, ErrorView>(Some(if negative { (-1 - a) as i64 } else { a as i64 })),
            pos + head64(if negative { 1u8 } else { 0u8 }, a).len(),
        ),
{
    let x: i64 = if negative { (-1 - a) as i64 } else { a as i64 };
    x.lemma_roundtrip(head64(if negative { 1u8 } else { 0u8 }, a), input, pos, lim);
}

/// A boolean is written as one byte: the simple value 21 (major type 7)
/// for `true`, 20 for `false`.
pub proof fn lemma_bool_wire(x: bool, out: Seq<u8>)
    requires
        x.spec_encodes(out),
    ensures
        out.len() == 1,
        head_at(out, 0) == Some(Head { major: 7, info: if x { 21nat } else { 20nat }, arg: if x { 21nat } else { 20nat }, len: 1 }),
{
    assert(out.subrange(0, 1) =~= out);
    if x {
        lemma_byte_head(out, 0, 0xf5u8);
    } else {
        lemma_byte_head(out, 0, 0xf4u8);
    }
}

/// The simple values 21 and 20 decode as `true` and `false`, reading one
/// byte.
pub proof fn lemma_bool_read(b: bool, input: Seq<u8>, pos: nat, lim: Limits)
    requires
        at(input, pos, seq![if b { 0xf5u8 } else { 0xf4u8 }]),
        lim.max_nesting > 0,
    ensures
        <bool as Decodable>::spec_decode(input, pos, lim) == (Ok::<Option<bool>, ErrorView>(Some(b)), pos + 1),
{
    b.lemma_roundtrip(seq![if b { 0xf5u8 } else { 0xf4u8 }], input, pos, lim);
}

/// A string is written as a head of major type 3 (a text string) whose
/// argument is the length of its UTF-8 bytes, followed by those bytes.
pub proof fn lemma_string_wire(x: String, out: Seq<u8>)
    requires
        x.spec_encodes(out),
        encode_utf8(x@).len() <= usize::MAX,
    ensures
        head_at(out, 0) matches Some(h) && h.major == 3 && h.arg == encode_utf8(x@).len()
            && out.skip(h.len as int) == encode_utf8(x@),
{
    let bytes = encode_utf8(x@);
    let h = head64(3, bytes.len());
    lemma_head_len(3, bytes.len());
    assert(out.subrange(0, h.len() as int) =~= h);
    lemma_head_at(out, 0, 3, bytes.len(), true);
    assert(out.skip(h.len() as int) =~= bytes);
}

} // verus!
