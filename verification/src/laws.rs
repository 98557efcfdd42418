//! The laws of the library: decoding the encoding of a value gives the value
//! back and stops where the encoding ends, whatever follows it; and `null`
//! decodes as no value for every type but an option, which it decodes as
//! an absent option.
use crate::cbor_io::{default_limits, Limits};
use crate::errors::ErrorView;
use crate::maps::{decode_entries, encodes_pairs, lists_entries, pair_encodes};
use crate::sequences::{decode_elems, encodes_all};
use crate::traits::{elem_outcome, field_outcome, top_outcome, Decodable, Encodable};
use crate::util::slice_outcome;
use crate::wire::{at, head64, head_at, int32_item, int64_item, lemma_head_at, null_item, Head};
use std::collections::HashMap;
use std::hash::Hash;
use std::sync::Arc;
use vstd::std_specs::hash::lemma_hashmap_deepview_properties;
use vstd::prelude::*;
use vstd::utf8::{encode_utf8, encode_utf8_decode_utf8, encode_utf8_valid_utf8};

verus! {

/// Values whose encoding decodes back to them.
pub trait RoundTrip: Encodable + Decodable {
    /// What decoding `null` gives: no value (`None`) for every type but an
    /// option, for which it gives an option that is there and absent.
    spec fn spec_null() -> Option<<Self as DeepView>::V>;

    /// The value's encoding is decoded back to it under the limits `lim` of
    /// a decoder configuration: its lengths are within the limits, and no
    /// option in it is absent where the option's own type reads `null` as a
    /// value.
    spec fn spec_fits(&self, lim: Limits) -> bool;

    /// Decoding an encoding of a value, from where it starts and whatever
    /// follows it, gives the value and stops where the encoding ends.
    proof fn lemma_roundtrip(&self, out: Seq<u8>, input: Seq<u8>, pos: nat, lim: Limits)
        requires
            Self::encoding_modeled(),
            Self::decoding_modeled(),
            self.spec_encodes(out),
            at(input, pos, out),
            self.spec_fits(lim),
        ensures
            Self::spec_decode(input, pos, lim) == (
                Ok::<Option<<Self as DeepView>::V>, ErrorView>(Some(self.deep_view())),
                pos + out.len(),
            ),
    ;

    /// `null` decodes as `spec_null`, and only its one byte is read.
    proof fn lemma_null(input: Seq<u8>, pos: nat, lim: Limits)
        requires
            Self::decoding_modeled(),
            at(input, pos, null_item()),
            lim.max_nesting > 0,
        ensures
            Self::spec_decode(input, pos, lim) == (Ok::<Option<<Self as DeepView>::V>, ErrorView>(Self::spec_null()), pos + 1),
    ;
}

/// A part of the bytes at `pos` stands at its own offset.
pub proof fn lemma_at_part(input: Seq<u8>, pos: nat, out: Seq<u8>, a: int, b: int)
    requires
        at(input, pos, out),
        0 <= a <= b <= out.len(),
    ensures
        at(input, (pos + a) as nat, out.subrange(a, b)),
{
    assert(input.subrange(pos + a, pos + b) =~= out.subrange(a, b)) by {
        assert forall|i: int| 0 <= i < b - a implies input.subrange(pos + a, pos + b)[i] == out.subrange(a, b)[i] by {
            assert(input.subrange(pos as int, (pos + out.len()) as int)[a + i] == out[a + i]);
        }
    }
}

/// Where a one-byte head stands, the head read is that byte's.
pub proof fn lemma_byte_head(input: Seq<u8>, pos: nat, b: u8)
    requires
        at(input, pos, seq![b]),
        b % 32 <= 23,
    ensures
        head_at(input, pos) == Some(Head { major: (b / 32) as nat, info: (b % 32) as nat, arg: (b % 32) as nat, len: 1 }),
{
    assert(input.subrange(pos as int, (pos + 1) as int)[0] == b);
}

/// Where `null` stands, the head read is `null`.
pub proof fn lemma_null_head(input: Seq<u8>, pos: nat)
    requires
        at(input, pos, null_item()),
    ensures
        head_at(input, pos) matches Some(h) && h.major == 7 && h.info == 22 && h.len == 1,
{
    lemma_byte_head(input, pos, 0xf6u8);
}

impl RoundTrip for u8 {
    open spec fn spec_null() -> Option<<Self as DeepView>::V> { None }

    open spec fn spec_fits(&self, lim: Limits) -> bool { lim.max_nesting > 0 }

    proof fn lemma_roundtrip(&self, out: Seq<u8>, input: Seq<u8>, pos: nat, lim: Limits) {
        lemma_head_at(input, pos, 0, *self as nat, false);
    }

    proof fn lemma_null(input: Seq<u8>, pos: nat, lim: Limits) {
        lemma_null_head(input, pos);
    }
}

impl RoundTrip for u16 {
    open spec fn spec_null() -> Option<<Self as DeepView>::V> { None }

    open spec fn spec_fits(&self, lim: Limits) -> bool { lim.max_nesting > 0 }

    proof fn lemma_roundtrip(&self, out: Seq<u8>, input: Seq<u8>, pos: nat, lim: Limits) {
        lemma_head_at(input, pos, 0, *self as nat, false);
    }

    proof fn lemma_null(input: Seq<u8>, pos: nat, lim: Limits) {
        lemma_null_head(input, pos);
    }
}

impl RoundTrip for u32 {
    open spec fn spec_null() -> Option<<Self as DeepView>::V> { None }

    open spec fn spec_fits(&self, lim: Limits) -> bool { lim.max_nesting > 0 }

    proof fn lemma_roundtrip(&self, out: Seq<u8>, input: Seq<u8>, pos: nat, lim: Limits) {
        lemma_head_at(input, pos, 0, *self as nat, false);
    }

    proof fn lemma_null(input: Seq<u8>, pos: nat, lim: Limits) {
        lemma_null_head(input, pos);
    }
}

impl RoundTrip for u64 {
    open spec fn spec_null() -> Option<<Self as DeepView>::V> { None }

    open spec fn spec_fits(&self, lim: Limits) -> bool { lim.max_nesting > 0 }

    proof fn lemma_roundtrip(&self, out: Seq<u8>, input: Seq<u8>, pos: nat, lim: Limits) {
        lemma_head_at(input, pos, 0, *self as nat, true);
    }

    proof fn lemma_null(input: Seq<u8>, pos: nat, lim: Limits) {
        lemma_null_head(input, pos);
    }
}

impl RoundTrip for usize {
    open spec fn spec_null() -> Option<<Self as DeepView>::V> { None }

    open spec fn spec_fits(&self, lim: Limits) -> bool { lim.max_nesting > 0 }

    proof fn lemma_roundtrip(&self, out: Seq<u8>, input: Seq<u8>, pos: nat, lim: Limits) {
        lemma_head_at(input, pos, 0, *self as nat, true);
    }

    proof fn lemma_null(input: Seq<u8>, pos: nat, lim: Limits) {
        lemma_null_head(input, pos);
    }
}

/// The head of a signed integer's encoding: major type 0 for a value that is
/// not negative, else 1 with argument `-1 - x`.
pub proof fn lemma_int_head(input: Seq<u8>, pos: nat, x: int, wide: bool)
    requires
        -0x8000_0000_0000_0000 <= x < 0x8000_0000_0000_0000,
        !wide ==> -0x8000_0000 <= x < 0x8000_0000,
        at(input, pos, if wide { int64_item(x) } else { int32_item(x) }),
    ensures
        ({
            let item = if wide { int64_item(x) } else { int32_item(x) };
            head_at(input, pos) == Some(Head {
                major: if x >= 0 { 0nat } else { 1nat },
                info: (item[0] as nat) % 32,
                arg: if x >= 0 { x as nat } else { (-1 - x) as nat },
                len: item.len(),
            }) && (item[0] as nat) % 32 <= 27
        }),
{
    if x >= 0 {
        lemma_head_at(input, pos, 0, x as nat, wide);
    } else {
        lemma_head_at(input, pos, 1, (-1 - x) as nat, wide);
    }
}

impl RoundTrip for i8 {
    open spec fn spec_null() -> Option<<Self as DeepView>::V> { None }

    open spec fn spec_fits(&self, lim: Limits) -> bool { lim.max_nesting > 0 }

    proof fn lemma_roundtrip(&self, out: Seq<u8>, input: Seq<u8>, pos: nat, lim: Limits) {
        lemma_int_head(input, pos, *self as int, false);
    }

    proof fn lemma_null(input: Seq<u8>, pos: nat, lim: Limits) {
        lemma_null_head(input, pos);
    }
}

impl RoundTrip for i16 {
    open spec fn spec_null() -> Option<<Self as DeepView>::V> { None }

    open spec fn spec_fits(&self, lim: Limits) -> bool { lim.max_nesting > 0 }

    proof fn lemma_roundtrip(&self, out: Seq<u8>, input: Seq<u8>, pos: nat, lim: Limits) {
        lemma_int_head(input, pos, *self as int, false);
    }

    proof fn lemma_null(input: Seq<u8>, pos: nat, lim: Limits) {
        lemma_null_head(input, pos);
    }
}

impl RoundTrip for i32 {
    open spec fn spec_null() -> Option<<Self as DeepView>::V> { None }

    open spec fn spec_fits(&self, lim: Limits) -> bool { lim.max_nesting > 0 }

    proof fn lemma_roundtrip(&self, out: Seq<u8>, input: Seq<u8>, pos: nat, lim: Limits) {
        lemma_int_head(input, pos, *self as int, false);
    }

    proof fn lemma_null(input: Seq<u8>, pos: nat, lim: Limits) {
        lemma_null_head(input, pos);
    }
}

impl RoundTrip for i64 {
    open spec fn spec_null() -> Option<<Self as DeepView>::V> { None }

    open spec fn spec_fits(&self, lim: Limits) -> bool { lim.max_nesting > 0 }

    proof fn lemma_roundtrip(&self, out: Seq<u8>, input: Seq<u8>, pos: nat, lim: Limits) {
        lemma_int_head(input, pos, *self as int, true);
    }

    proof fn lemma_null(input: Seq<u8>, pos: nat, lim: Limits) {
        lemma_null_head(input, pos);
    }
}

impl RoundTrip for bool {
    open spec fn spec_null() -> Option<<Self as DeepView>::V> { None }

    open spec fn spec_fits(&self, lim: Limits) -> bool { lim.max_nesting > 0 }

    proof fn lemma_roundtrip(&self, out: Seq<u8>, input: Seq<u8>, pos: nat, lim: Limits) {
        if *self {
            lemma_byte_head(input, pos, 0xf5u8);
        } else {
            lemma_byte_head(input, pos, 0xf4u8);
        }
    }

    proof fn lemma_null(input: Seq<u8>, pos: nat, lim: Limits) {
        lemma_null_head(input, pos);
    }
}

impl RoundTrip for String {
    open spec fn spec_null() -> Option<<Self as DeepView>::V> { None }

    open spec fn spec_fits(&self, lim: Limits) -> bool {
        lim.max_nesting > 0 && encode_utf8(self@).len() <= lim.max_len_text
    }

    proof fn lemma_roundtrip(&self, out: Seq<u8>, input: Seq<u8>, pos: nat, lim: Limits) {
        let bytes = encode_utf8(self@);
        let h = head64(3, bytes.len());
        crate::wire::lemma_head_len(3, bytes.len());
        assert(out.subrange(0, h.len() as int) =~= h);
        lemma_at_part(input, pos, out, 0, h.len() as int);
        lemma_head_at(input, pos, 3, bytes.len(), true);
        assert(out.subrange(h.len() as int, out.len() as int) =~= bytes);
        lemma_at_part(input, pos, out, h.len() as int, out.len() as int);
        encode_utf8_valid_utf8(self@);
        encode_utf8_decode_utf8(self@);
    }

    proof fn lemma_null(input: Seq<u8>, pos: nat, lim: Limits) {
        lemma_null_head(input, pos);
    }
}

impl<A: RoundTrip> RoundTrip for Box<A> {
    open spec fn spec_null() -> Option<A::V> { A::spec_null() }

    open spec fn spec_fits(&self, lim: Limits) -> bool { (**self).spec_fits(lim) }

    proof fn lemma_roundtrip(&self, out: Seq<u8>, input: Seq<u8>, pos: nat, lim: Limits) {
        (**self).lemma_roundtrip(out, input, pos, lim);
    }

    proof fn lemma_null(input: Seq<u8>, pos: nat, lim: Limits) {
        A::lemma_null(input, pos, lim);
    }
}

impl<A: RoundTrip> RoundTrip for Arc<A> {
    open spec fn spec_null() -> Option<A::V> { A::spec_null() }

    open spec fn spec_fits(&self, lim: Limits) -> bool { (**self).spec_fits(lim) }

    proof fn lemma_roundtrip(&self, out: Seq<u8>, input: Seq<u8>, pos: nat, lim: Limits) {
        (**self).lemma_roundtrip(out, input, pos, lim);
    }

    proof fn lemma_null(input: Seq<u8>, pos: nat, lim: Limits) {
        A::lemma_null(input, pos, lim);
    }
}

/// An option is encoded as its value or as `null`; decoding gives the option
/// back, an absent one as long as the value's type reads `null` as no value
/// (it is not itself an option).
impl<A: RoundTrip> RoundTrip for Option<A> {
    open spec fn spec_null() -> Option<Option<A::V>> { Some(A::spec_null()) }

    open spec fn spec_fits(&self, lim: Limits) -> bool {
        match self {
            Some(x) => x.spec_fits(lim),
            None => A::spec_null() is None && lim.max_nesting > 0,
        }
    }

    proof fn lemma_roundtrip(&self, out: Seq<u8>, input: Seq<u8>, pos: nat, lim: Limits) {
        match self {
            Some(x) => x.lemma_roundtrip(out, input, pos, lim),
            None => A::lemma_null(input, pos, lim),
        }
    }

    proof fn lemma_null(input: Seq<u8>, pos: nat, lim: Limits) {
        A::lemma_null(input, pos, lim);
    }
}

/// The encodings of some values start with the encoding of the first.
pub proof fn lemma_encodes_all_front<T: Encodable>(xs: Seq<T>, out: Seq<u8>) -> (j: int)
    requires
        encodes_all(xs, out),
        xs.len() > 0,
    ensures
        0 <= j <= out.len(),
        xs[0].spec_encodes(out.take(j)),
        encodes_all(xs.drop_first(), out.skip(j)),
    decreases xs.len(),
{
    let k = choose|k: int|
        0 <= k <= out.len() && encodes_all(xs.drop_last(), #[trigger] out.take(k)) && xs.last().spec_encodes(out.skip(k));
    if xs.len() == 1 {
        assert(out.take(k).len() == 0);
        assert(out.skip(0) =~= out);
        assert(out.take(out.len() as int) =~= out);
        assert(xs.drop_first().len() == 0);
        out.len() as int
    } else {
        let j = lemma_encodes_all_front(xs.drop_last(), out.take(k));
        assert(out.take(k).take(j) =~= out.take(j));
        let rest = xs.drop_first();
        let tail = out.skip(j);
        assert(rest.drop_last() =~= xs.drop_last().drop_first());
        assert(tail.take(k - j) =~= out.take(k).skip(j));
        assert(tail.skip(k - j) =~= out.skip(k));
        assert(rest.last() == xs.last());
        assert(encodes_all(rest, tail));
        j
    }
}

/// Every value of `xs` fits the limits.
pub open spec fn all_fit<T: RoundTrip>(xs: Seq<T>, lim: Limits) -> bool {
    forall|i: int| 0 <= i < xs.len() ==> #[trigger] xs[i].spec_fits(lim)
}

/// Decoding the encodings of some array elements, after the elements `acc`,
/// gives all of them.
pub proof fn lemma_decode_elems<T: RoundTrip>(xs: Seq<T>, out: Seq<u8>, input: Seq<u8>, pos: nat, lim: Limits, i: nat, n: nat, acc: Seq<T::V>)
    requires
        T::encoding_modeled(),
        T::decoding_modeled(),
        encodes_all(xs, out),
        at(input, pos, out),
        all_fit(xs, lim),
        i + xs.len() == n,
    ensures
        decode_elems::<T>(input, pos, lim, i, n, acc) == (
            Ok::<Seq<T::V>, ErrorView>(acc + xs.map_values(|x: T| x.deep_view())),
            pos + out.len(),
        ),
    decreases xs.len(),
{
    if xs.len() == 0 {
        assert(acc + xs.map_values(|x: T| x.deep_view()) =~= acc);
    } else {
        let j = lemma_encodes_all_front(xs, out);
        assert(out.subrange(0, j) =~= out.take(j));
        lemma_at_part(input, pos, out, 0, j);
        xs[0].lemma_roundtrip(out.take(j), input, pos, lim);
        assert(out.subrange(j, out.len() as int) =~= out.skip(j));
        lemma_at_part(input, pos, out, j, out.len() as int);
        let rest = xs.drop_first();
        assert forall|k: int| 0 <= k < rest.len() implies #[trigger] rest[k].spec_fits(lim) by {
            assert(rest[k] == xs[k + 1]);
        }
        lemma_decode_elems(rest, out.skip(j), input, (pos + j) as nat, lim, i + 1, n, acc.push(xs[0].deep_view()));
        assert(acc.push(xs[0].deep_view()) + rest.map_values(|x: T| x.deep_view()) =~= acc + xs.map_values(|x: T| x.deep_view()));
    }
}

/// A vector is decoded back from its array.
impl<T: RoundTrip> RoundTrip for Vec<T> {
    open spec fn spec_null() -> Option<<Self as DeepView>::V> { None }

    open spec fn spec_fits(&self, lim: Limits) -> bool {
        lim.max_nesting > 0 && self.len() <= lim.max_len_array && all_fit(self@, lim)
    }

    proof fn lemma_roundtrip(&self, out: Seq<u8>, input: Seq<u8>, pos: nat, lim: Limits) {
        let h = head64(4, self.len() as nat);
        crate::wire::lemma_head_len(4, self.len() as nat);
        assert(out.subrange(0, h.len() as int) =~= h);
        lemma_at_part(input, pos, out, 0, h.len() as int);
        lemma_head_at(input, pos, 4, self.len() as nat, true);
        assert(out.subrange(h.len() as int, out.len() as int) =~= out.skip(h.len() as int));
        lemma_at_part(input, pos, out, h.len() as int, out.len() as int);
        lemma_decode_elems(self@, out.skip(h.len() as int), input, pos + h.len(), lim, 0, self.len() as nat, Seq::empty());
        assert(Seq::<T::V>::empty() + self@.map_values(|x: T| x.deep_view()) =~= self.deep_view());
    }

    proof fn lemma_null(input: Seq<u8>, pos: nat, lim: Limits) {
        lemma_null_head(input, pos);
    }
}

/// A tuple of one element is decoded back from its array.
impl<A: RoundTrip> RoundTrip for (A,) {
    open spec fn spec_null() -> Option<<Self as DeepView>::V> { None }

    open spec fn spec_fits(&self, lim: Limits) -> bool {
        lim.max_nesting > 0 && 1 <= lim.max_len_array && self.0.spec_fits(lim)
    }

    proof fn lemma_roundtrip(&self, out: Seq<u8>, input: Seq<u8>, pos: nat, lim: Limits) {
        let h = head64(4, 1);
        assert(out.subrange(0, h.len() as int) =~= h);
        lemma_at_part(input, pos, out, 0, h.len() as int);
        lemma_head_at(input, pos, 4, 1, true);
        let n = out.len() as int;
        assert(out.subrange(h.len() as int, n) =~= out.skip(h.len() as int));
        lemma_at_part(input, pos, out, h.len() as int, n);
        self.0.lemma_roundtrip(out.skip(h.len() as int), input, pos + h.len(), lim);
    }

    proof fn lemma_null(input: Seq<u8>, pos: nat, lim: Limits) {
        lemma_null_head(input, pos);
    }
}

/// A tuple of two elements is decoded back from its array.
impl<A: RoundTrip, B: RoundTrip> RoundTrip for (A, B) {
    open spec fn spec_null() -> Option<<Self as DeepView>::V> { None }

    open spec fn spec_fits(&self, lim: Limits) -> bool {
        lim.max_nesting > 0 && 2 <= lim.max_len_array && self.0.spec_fits(lim) && self.1.spec_fits(lim)
    }

    proof fn lemma_roundtrip(&self, out: Seq<u8>, input: Seq<u8>, pos: nat, lim: Limits) {
        let h = head64(4, 2);
        let hl = h.len() as int;
        let n = out.len() as int;
        let k = choose|k: int|
            hl <= k <= n && self.0.spec_encodes(#[trigger] out.subrange(hl, k)) && self.1.spec_encodes(out.skip(k));
        assert(out.subrange(0, hl) =~= h);
        lemma_at_part(input, pos, out, 0, hl);
        lemma_head_at(input, pos, 4, 2, true);
        lemma_at_part(input, pos, out, hl, k);
        self.0.lemma_roundtrip(out.subrange(hl, k), input, (pos + hl) as nat, lim);
        assert(out.subrange(k, n) =~= out.skip(k));
        lemma_at_part(input, pos, out, k, n);
        self.1.lemma_roundtrip(out.skip(k), input, (pos + k) as nat, lim);
    }

    proof fn lemma_null(input: Seq<u8>, pos: nat, lim: Limits) {
        lemma_null_head(input, pos);
    }
}

/// A tuple of three elements is decoded back from its array.
impl<A: RoundTrip, B: RoundTrip, C: RoundTrip> RoundTrip for (A, B, C) {
    open spec fn spec_null() -> Option<<Self as DeepView>::V> { None }

    open spec fn spec_fits(&self, lim: Limits) -> bool {
        lim.max_nesting > 0 && 3 <= lim.max_len_array && self.0.spec_fits(lim) && self.1.spec_fits(lim)
            && self.2.spec_fits(lim)
    }

    proof fn lemma_roundtrip(&self, out: Seq<u8>, input: Seq<u8>, pos: nat, lim: Limits) {
        let h = head64(4, 3);
        let hl = h.len() as int;
        let n = out.len() as int;
        let (k1, k2) = choose|k1: int, k2: int|
            hl <= k1 <= k2 <= n && self.0.spec_encodes(#[trigger] out.subrange(hl, k1))
                && self.1.spec_encodes(#[trigger] out.subrange(k1, k2)) && self.2.spec_encodes(out.skip(k2));
        assert(out.subrange(0, hl) =~= h);
        lemma_at_part(input, pos, out, 0, hl);
        lemma_head_at(input, pos, 4, 3, true);
        lemma_at_part(input, pos, out, hl, k1);
        self.0.lemma_roundtrip(out.subrange(hl, k1), input, (pos + hl) as nat, lim);
        lemma_at_part(input, pos, out, k1, k2);
        self.1.lemma_roundtrip(out.subrange(k1, k2), input, (pos + k1) as nat, lim);
        assert(out.subrange(k2, n) =~= out.skip(k2));
        lemma_at_part(input, pos, out, k2, n);
        self.2.lemma_roundtrip(out.skip(k2), input, (pos + k2) as nat, lim);
    }

    proof fn lemma_null(input: Seq<u8>, pos: nat, lim: Limits) {
        lemma_null_head(input, pos);
    }
}

/// Decoding a whole buffer that holds just the encoding of a value, with the
/// default configuration, gives the value: what `from_slice` gives of what
/// `to_buf` wrote.
pub proof fn lemma_buffer_roundtrip<T: RoundTrip>(x: T, buf: Seq<u8>)
    requires
        T::encoding_modeled(),
        T::decoding_modeled(),
        x.spec_encodes(buf),
        x.spec_fits(default_limits()),
    ensures
        slice_outcome::<T>(buf) == Ok::<T::V, ErrorView>(x.deep_view()),
{
    assert(buf.subrange(0, buf.len() as int) =~= buf);
    x.lemma_roundtrip(buf, buf, 0, default_limits());
}

/// A buffer that holds the encoding of a value followed by more bytes is
/// refused as trailing data.
pub proof fn lemma_trailing_data<T: RoundTrip>(x: T, out: Seq<u8>, more: Seq<u8>)
    requires
        T::encoding_modeled(),
        T::decoding_modeled(),
        x.spec_encodes(out),
        x.spec_fits(default_limits()),
        more.len() > 0,
    ensures
        slice_outcome::<T>(out + more) == Err::<T::V, ErrorView>(ErrorView::WrongValue("trailing data"@)),
{
    let buf = out + more;
    assert(buf.subrange(0, out.len() as int) =~= out);
    x.lemma_roundtrip(out, buf, 0, default_limits());
}

/// The map of the deep views of the pairs `t`, later pairs over earlier ones.
pub open spec fn pairs_map<K: DeepView, V: DeepView>(t: Seq<(K, V)>) -> Map<K::V, V::V>
    decreases t.len(),
{
    if t.len() == 0 {
        Map::empty()
    } else {
        pairs_map(t.drop_last()).insert(t.last().0.deep_view(), t.last().1.deep_view())
    }
}

/// No two pairs of `t` have keys with the same deep view.
pub open spec fn deep_keys_distinct<K: DeepView, V>(t: Seq<(K, V)>) -> bool {
    forall|a: int, b: int| 0 <= a < b < t.len() ==> #[trigger] t[a].0.deep_view() != #[trigger] t[b].0.deep_view()
}

/// The map of pairs with distinct keys holds each pair.
pub proof fn lemma_pairs_map<K: DeepView, V: DeepView>(t: Seq<(K, V)>)
    requires
        deep_keys_distinct(t),
    ensures
        forall|dk: K::V| #[trigger] pairs_map(t).contains_key(dk) <==> exists|a: int| 0 <= a < t.len() && t[a].0.deep_view() == dk,
        forall|a: int| 0 <= a < t.len() ==> #[trigger] pairs_map(t)[t[a].0.deep_view()] == t[a].1.deep_view(),
    decreases t.len(),
{
    if t.len() > 0 {
        let u = t.drop_last();
        let l = t.len() - 1;
        assert forall|a: int, b: int| 0 <= a < b < u.len() implies #[trigger] u[a].0.deep_view() != #[trigger] u[b].0.deep_view() by {
            assert(u[a] == t[a]);
            assert(u[b] == t[b]);
        }
        lemma_pairs_map(u);
        assert forall|dk: K::V| #[trigger] pairs_map(t).contains_key(dk) <==> exists|a: int| 0 <= a < t.len() && t[a].0.deep_view() == dk by {
            if pairs_map(t).contains_key(dk) && dk != t[l].0.deep_view() {
                assert(pairs_map(u).contains_key(dk));
                let a = choose|a: int| 0 <= a < u.len() && u[a].0.deep_view() == dk;
                assert(t[a] == u[a]);
            }
            if exists|a: int| 0 <= a < t.len() && t[a].0.deep_view() == dk {
                let a = choose|a: int| 0 <= a < t.len() && t[a].0.deep_view() == dk;
                if a < l {
                    assert(u[a] == t[a]);
                    assert(pairs_map(u).contains_key(dk));
                }
            }
        }
        assert forall|a: int| 0 <= a < t.len() implies #[trigger] pairs_map(t)[t[a].0.deep_view()] == t[a].1.deep_view() by {
            if a < l {
                assert(t[a].0.deep_view() != t[l].0.deep_view());
                assert(u[a] == t[a]);
                assert(pairs_map(u)[u[a].0.deep_view()] == u[a].1.deep_view());
            }
        }
    }
}

/// Every key and value of the pairs `s` fits the limits.
pub open spec fn pairs_fit<K: RoundTrip, V: RoundTrip>(s: Seq<(K, V)>, lim: Limits) -> bool {
    forall|a: int| 0 <= a < s.len() ==> #[trigger] pair_fits(s[a], lim)
}

/// The key and the value fit the limits.
pub open spec fn pair_fits<K: RoundTrip, V: RoundTrip>(p: (K, V), lim: Limits) -> bool {
    p.0.spec_fits(lim) && p.1.spec_fits(lim)
}

/// Decoding the entries of the first `k` pairs gives the map of those pairs.
pub proof fn lemma_entries_prefix<K: RoundTrip, V: RoundTrip>(s: Seq<(K, V)>, o: Seq<u8>, input: Seq<u8>, q0: nat, lim: Limits, k: nat, n: nat)
    requires
        K::encoding_modeled(),
        K::decoding_modeled(),
        V::encoding_modeled(),
        V::decoding_modeled(),
        k <= s.len(),
        s.len() == n,
        encodes_pairs(s.take(k as int), o),
        at(input, q0, o),
        deep_keys_distinct(s),
        pairs_fit(s, lim),
    ensures
        decode_entries::<K, V>(input, q0, lim, 0, n, Map::empty()) == decode_entries::<K, V>(
            input,
            q0 + o.len(),
            lim,
            k,
            n,
            pairs_map(s.take(k as int)),
        ),
    decreases k,
{
    if k == 0 {
        assert(o.len() == 0);
        assert(pairs_map(s.take(0)) =~= Map::<K::V, V::V>::empty());
    } else {
        let km = (k - 1) as nat;
        let t = s.take(k as int);
        let j = choose|j: int|
            0 <= j <= o.len() && encodes_pairs(t.drop_last(), #[trigger] o.take(j)) && pair_encodes(t.last().0, t.last().1, o.skip(j));
        assert(t.drop_last() =~= s.take(km as int));
        assert(o.subrange(0, j) =~= o.take(j));
        lemma_at_part(input, q0, o, 0, j);
        lemma_entries_prefix(s, o.take(j), input, q0, lim, km, n);
        let pe = o.skip(j);
        let m = choose|m: int| 0 <= m <= pe.len() && t.last().0.spec_encodes(#[trigger] pe.take(m)) && t.last().1.spec_encodes(pe.skip(m));
        let p1 = (q0 + j) as nat;
        assert(pair_fits(s[km as int], lim));
        assert(o.subrange(j, j + m) =~= pe.take(m));
        lemma_at_part(input, q0, o, j, j + m);
        s[km as int].0.lemma_roundtrip(pe.take(m), input, p1, lim);
        assert(o.subrange(j + m, o.len() as int) =~= pe.skip(m));
        lemma_at_part(input, q0, o, j + m, o.len() as int);
        s[km as int].1.lemma_roundtrip(pe.skip(m), input, (p1 + m) as nat, lim);
        let acc = pairs_map(s.take(km as int));
        let u = s.take(km as int);
        assert(deep_keys_distinct(u));
        lemma_pairs_map(u);
        if acc.contains_key(s[km as int].0.deep_view()) {
            let a = choose|a: int| 0 <= a < u.len() && u[a].0.deep_view() == s[km as int].0.deep_view();
            assert(s[a].0.deep_view() == s[km as int].0.deep_view());
        }
    }
}

/// A map is decoded back from its object when its keys' deep views tell
/// keys apart.
impl<K: RoundTrip + Hash + Eq, V: RoundTrip> RoundTrip for HashMap<K, V> {
    open spec fn spec_null() -> Option<<Self as DeepView>::V> { None }

    open spec fn spec_fits(&self, lim: Limits) -> bool {
        &&& lim.max_nesting > 0
        &&& self@.len() <= lim.max_size_map
        &&& forall|k: K| #[trigger] self@.contains_key(k) ==> k.spec_fits(lim) && self@[k].spec_fits(lim)
    }

    proof fn lemma_roundtrip(&self, out: Seq<u8>, input: Seq<u8>, pos: nat, lim: Limits) {
        let n = self@.len();
        let h = head64(5, n);
        let hl = h.len() as int;
        crate::wire::lemma_head_len(5, n);
        assert(out.subrange(0, hl) =~= h);
        lemma_at_part(input, pos, out, 0, hl);
        lemma_head_at(input, pos, 5, n, true);
        let rest = out.skip(hl);
        assert(out.subrange(hl, out.len() as int) =~= rest);
        lemma_at_part(input, pos, out, hl, out.len() as int);
        assert(exists|s: Seq<(K, V)>| lists_entries(s, self@) && #[trigger] encodes_pairs(s, rest));
        let s = choose|s: Seq<(K, V)>| lists_entries(s, self@) && #[trigger] encodes_pairs(s, rest);
        assert forall|a: int, b: int| 0 <= a < b < s.len() implies #[trigger] s[a].0.deep_view() != #[trigger] s[b].0.deep_view() by {
            let f = |k: K| k.deep_view();
            if s[a].0.deep_view() == s[b].0.deep_view() {
                assert(f(s[a].0) == f(s[b].0));
                assert(self@.contains_key(s[a].0));
                assert(self@.contains_key(s[b].0));
                assert(s[a] == s[b]);
            }
        }
        assert forall|a: int| 0 <= a < s.len() implies #[trigger] pair_fits(s[a], lim) by {
            assert(self@.contains_key(s[a].0));
        }
        assert(s.take(n as int) =~= s);
        lemma_entries_prefix(s, rest, input, (pos + hl) as nat, lim, n, n);
        lemma_pairs_map(s);
        lemma_hashmap_deepview_properties(*self);
        let f = |k: K| k.deep_view();
        assert forall|k1: K, k2: K| #[trigger] k1.deep_view() == #[trigger] k2.deep_view() implies k1 == k2 by {
            assert(f(k1) == f(k2));
        }
        assert forall|dk: K::V| #[trigger] self.deep_view().contains_key(dk) implies pairs_map(s).contains_key(dk) by {
            let k = choose|k: K| k.deep_view() == dk && #[trigger] self@.contains_key(k);
            assert(s.contains((k, self@[k])));
            let a = choose|a: int| 0 <= a < s.len() && s[a] == (k, self@[k]);
            assert(s[a].0.deep_view() == dk);
        }
        assert forall|dk: K::V| #[trigger] pairs_map(s).contains_key(dk) implies self.deep_view().contains_key(dk)
            && self.deep_view()[dk] == pairs_map(s)[dk] by {
            let a = choose|a: int| 0 <= a < s.len() && s[a].0.deep_view() == dk;
            assert(self@.contains_key(s[a].0));
        }
        assert(pairs_map(s) =~= self.deep_view());
    }

    proof fn lemma_null(input: Seq<u8>, pos: nat, lim: Limits) {
        lemma_null_head(input, pos);
    }
}

/// Where a value is required, `null` is an error that says where it stood:
/// the top-level `decode` gives `UnexpectedNull`, a field gives it wrapped
/// with the field's name, an array element wrapped with its index.
pub proof fn lemma_null_required<T: RoundTrip>(input: Seq<u8>, pos: nat, lim: Limits, name: Seq<char>, n: usize)
    requires
        T::decoding_modeled(),
        T::spec_null() is None,
        at(input, pos, null_item()),
        lim.max_nesting > 0,
    ensures
        top_outcome(T::spec_decode(input, pos, lim).0) == Err::<T::V, ErrorView>(ErrorView::UnexpectedNull),
        field_outcome(T::spec_decode(input, pos, lim).0, name) == Err::<T::V, ErrorView>(
            ErrorView::BadFieldValue(name, Box::new(ErrorView::UnexpectedNull)),
        ),
        elem_outcome(T::spec_decode(input, pos, lim).0, n) == Err::<T::V, ErrorView>(
            ErrorView::BadArrayElement(n, Box::new(ErrorView::UnexpectedNull)),
        ),
{
    T::lemma_null(input, pos, lim);
}

} // verus!
