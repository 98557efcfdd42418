//! The CBOR byte layout (RFC 7049) of the data item heads that the encoder
//! writes, stated as spec functions.
use vstd::prelude::*;
use vstd::utf8::encode_utf8;

verus! {

/// `n` written big-endian in `width` bytes (higher bytes dropped).
pub open spec fn be(n: nat, width: nat) -> Seq<u8>
    decreases width,
{
    if width == 0 {
        Seq::empty()
    } else {
        be(n / 256, (width - 1) as nat).push((n % 256) as u8)
    }
}

/// First byte of a head: the major type in the top three bits and the
/// additional information in the low five.
pub open spec fn initial(major: u8, info: nat) -> u8 {
    (major as nat * 32 + info) as u8
}

/// The head of a data item with major type `major` and argument `n` in its
/// shortest form, for arguments below 2^32.
pub open spec fn head32(major: u8, n: nat) -> Seq<u8> {
    if n <= 23 {
        seq![initial(major, n)]
    } else if n <= 0xff {
        seq![initial(major, 24)] + be(n, 1)
    } else if n <= 0xffff {
        seq![initial(major, 25)] + be(n, 2)
    } else {
        seq![initial(major, 26)] + be(n, 4)
    }
}

/// The head written for a 64-bit argument. Arguments from 0x10000 to
/// 0xfffff take the eight-byte form, as the encoder writes them.
pub open spec fn head64(major: u8, n: nat) -> Seq<u8> {
    if n <= 0xffff {
        head32(major, n)
    } else if 0x100000 <= n <= 0xffffffff {
        seq![initial(major, 26)] + be(n, 4)
    } else {
        seq![initial(major, 27)] + be(n, 8)
    }
}

/// The encoding of `null`.
pub open spec fn null_item() -> Seq<u8> {
    seq![0xf6u8]
}

/// The encoding of a boolean.
pub open spec fn bool_item(b: bool) -> Seq<u8> {
    if b { seq![0xf5u8] } else { seq![0xf4u8] }
}

/// The encoding of a signed integer that fits in 32 bits.
pub open spec fn int32_item(x: int) -> Seq<u8> {
    if x >= 0 { head32(0, x as nat) } else { head32(1, (-1 - x) as nat) }
}

/// The encoding of a signed 64-bit integer.
pub open spec fn int64_item(x: int) -> Seq<u8> {
    if x >= 0 { head64(0, x as nat) } else { head64(1, (-1 - x) as nat) }
}

/// The encoding of a text string.
pub open spec fn text_item(s: Seq<char>) -> Seq<u8> {
    head64(3, encode_utf8(s).len()) + encode_utf8(s)
}

/// `null` repeated `n` times.
pub open spec fn nnulls(n: nat) -> Seq<u8> {
    Seq::new(n, |i: int| 0xf6u8)
}

/// `input` holds `bytes` at `pos`.
pub open spec fn at(input: Seq<u8>, pos: nat, bytes: Seq<u8>) -> bool {
    &&& pos + bytes.len() <= input.len()
    &&& input.subrange(pos as int, (pos + bytes.len()) as int) == bytes
}

/// The number that `bytes` hold big-endian.
pub open spec fn be_value(bytes: Seq<u8>) -> nat
    decreases bytes.len(),
{
    if bytes.len() == 0 {
        0
    } else {
        be_value(bytes.drop_last()) * 256 + bytes.last() as nat
    }
}

/// The number of argument bytes after a first byte with additional
/// information `info` (at most 27).
pub open spec fn arg_len(info: nat) -> nat {
    if info <= 23 {
        0
    } else if info == 24 {
        1
    } else if info == 25 {
        2
    } else if info == 26 {
        4
    } else {
        8
    }
}

/// A data item head read from bytes.
pub struct Head {
    pub major: nat,
    pub info: nat,
    pub arg: nat,
    pub len: nat,
}

/// The head at `pos`, when its first byte has additional information up to
/// 27 and all its argument bytes are there.
pub open spec fn head_at(input: Seq<u8>, pos: nat) -> Option<Head> {
    if pos < input.len() {
        let b = input[pos as int] as nat;
        let info = b % 32;
        let n = arg_len(info);
        if info <= 27 && pos + 1 + n <= input.len() {
            Some(Head {
                major: b / 32,
                info,
                arg: if info <= 23 { info } else { be_value(input.subrange((pos + 1) as int, (pos + 1 + n) as int)) },
                len: 1 + n,
            })
        } else {
            None
        }
    } else {
        None
    }
}

/// A number written big-endian in enough bytes is read back.
pub proof fn lemma_be_value(n: nat, width: nat)
    requires
        n < pow256(width),
    ensures
        be_value(be(n, width)) == n,
    decreases width,
{
    lemma_be_len(n, width);
    if width > 0 {
        assert(n / 256 < pow256((width - 1) as nat)) by (nonlinear_arith)
            requires n < pow256(width), pow256(width) == 256 * pow256((width - 1) as nat);
        lemma_be_value(n / 256, (width - 1) as nat);
        let s = be(n, width);
        assert(s.drop_last() =~= be(n / 256, (width - 1) as nat));
        assert(n == (n / 256) * 256 + n % 256) by (nonlinear_arith);
    }
}

/// 256 to the power `w`.
pub open spec fn pow256(w: nat) -> nat
    decreases w,
{
    if w == 0 { 1 } else { 256 * pow256((w - 1) as nat) }
}

/// Where the encoder's head for argument `n` stands, the head read there has
/// that major type and argument and the encoder's length.
pub proof fn lemma_head_at(input: Seq<u8>, pos: nat, major: u8, n: nat, wide: bool)
    requires
        major < 8,
        n < 0x1_0000_0000_0000_0000,
        !wide ==> n < 0x1_0000_0000,
        at(input, pos, if wide { head64(major, n) } else { head32(major, n) }),
    ensures
        ({
            let h = if wide { head64(major, n) } else { head32(major, n) };
            head_at(input, pos) == Some(Head { major: major as nat, info: (h[0] as nat) % 32, arg: n, len: h.len() })
                && (h[0] as nat) % 32 <= 27 && arg_len((h[0] as nat) % 32) + 1 == h.len()
                && (h[0] as nat) / 32 == major
        }),
{
    let h = if wide { head64(major, n) } else { head32(major, n) };
    lemma_head_len(major, n);
    lemma_be_len(n, 1);
    lemma_be_len(n, 2);
    lemma_be_len(n, 4);
    lemma_be_len(n, 8);
    reveal_with_fuel(pow256, 9);
    assert(pow256(1) == 256);
    assert(pow256(2) == 0x10000);
    assert(pow256(4) == 0x1_0000_0000);
    assert(pow256(8) == 0x1_0000_0000_0000_0000);
    assert(input[pos as int] == h[0]);
    let rest = input.subrange((pos + 1) as int, (pos + h.len()) as int);
    assert(rest =~= h.drop_first());
    if n <= 23 {
    } else if n <= 0xff {
        lemma_be_value(n, 1);
        assert(h.drop_first() =~= be(n, 1));
    } else if n <= 0xffff {
        lemma_be_value(n, 2);
        assert(h.drop_first() =~= be(n, 2));
    } else if !wide || (0x100000 <= n && n <= 0xffffffff) {
        lemma_be_value(n, 4);
        assert(h.drop_first() =~= be(n, 4));
    } else {
        lemma_be_value(n, 8);
        assert(h.drop_first() =~= be(n, 8));
    }
}

/// A number written big-endian in `width` bytes takes `width` bytes.
pub proof fn lemma_be_len(n: nat, width: nat)
    ensures
        be(n, width).len() == width,
    decreases width,
{
    if width > 0 {
        lemma_be_len(n / 256, (width - 1) as nat);
    }
}

/// A head takes one to five bytes, or one to nine in its 64-bit form.
pub proof fn lemma_head_len(major: u8, n: nat)
    ensures
        head32(major, n).len() >= 1,
        head64(major, n).len() >= 1,
        head32(major, n).len() <= 5,
        head64(major, n).len() <= 9,
{
    lemma_be_len(n, 1);
    lemma_be_len(n, 2);
    lemma_be_len(n, 4);
    lemma_be_len(n, 8);
}

/// `n` times `null` takes `n` bytes.
pub proof fn lemma_nnulls_len(n: nat)
    ensures
        nnulls(n).len() == n,
{
}

} // verus!
