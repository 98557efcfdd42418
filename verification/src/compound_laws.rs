//! The wire form of vectors, maps, tuples and options: what a reader of the bytes
//! finds where such a value was encoded.
use crate::maps::{encodes_pairs, lists_entries};
use crate::sequences::encodes_all;
use std::collections::HashMap;
use std::hash::Hash;
use crate::traits::Encodable;
use crate::laws::lemma_byte_head;
use crate::wire::{head64, head_at, lemma_head_at, lemma_head_len, Head};
use vstd::prelude::*;

verus! {

/// The encodings of some values, one after the other, split into one
/// encoding of each value, in order.
pub proof fn lemma_encodes_all_parts<T: Encodable>(xs: Seq<T>, out: Seq<u8>) -> (parts: Seq<Seq<u8>>)
    requires
        encodes_all(xs, out),
    ensures
        parts.len() == xs.len(),
        forall|i: int| 0 <= i < xs.len() ==> #[trigger] xs[i].spec_encodes(parts[i]),
        out == parts.flatten(),
    decreases xs.len(),
{
    if xs.len() == 0 {
        let parts = Seq::<Seq<u8>>::empty();
        assert(out =~= parts.flatten());
        parts
    } else {
        let k = choose|k: int|
            0 <= k <= out.len() && encodes_all(xs.drop_last(), #[trigger] out.take(k)) && xs.last().spec_encodes(out.skip(k));
        let front = lemma_encodes_all_parts(xs.drop_last(), out.take(k));
        let parts = front.push(out.skip(k));
        front.lemma_flatten_push(out.skip(k));
        assert(out =~= out.take(k) + out.skip(k));
        assert forall|i: int| 0 <= i < xs.len() implies #[trigger] xs[i].spec_encodes(parts[i]) by {
            if i < xs.len() - 1 {
                assert(xs.drop_last()[i] == xs[i]);
            }
        }
        parts
    }
}

/// A vector is written as an array head (major type 4) whose argument is its
/// length, followed by one encoding of each element, in the vector's order.
pub proof fn lemma_vec_wire<T: Encodable>(xs: Vec<T>, out: Seq<u8>)
    requires
        xs.spec_encodes(out),
    ensures
        head_at(out, 0) matches Some(h) && h.major == 4 && h.arg == xs.len() && exists|parts: Seq<Seq<u8>>|
            #![trigger parts.flatten()]
            parts.len() == xs.len() && (forall|i: int| 0 <= i < xs.len() ==> #[trigger] xs@[i].spec_encodes(parts[i]))
                && out.skip(h.len as int) == parts.flatten(),
{
    let h = head64(4, xs.len() as nat);
    lemma_head_len(4, xs.len() as nat);
    assert(out.subrange(0, h.len() as int) =~= out.take(h.len() as int));
    lemma_head_at(out, 0, 4, xs.len() as nat, true);
    let parts = lemma_encodes_all_parts(xs@, out.skip(h.len() as int));
    assert(parts.len() == xs.len() && (forall|i: int| 0 <= i < xs.len() ==> #[trigger] xs@[i].spec_encodes(parts[i]))
        && out.skip(h.len() as int) == parts.flatten());
}

/// A tuple of one element is written as an array head of one element
/// followed by an encoding of the element.
pub proof fn lemma_tuple1_wire<A: Encodable>(x: (A,), out: Seq<u8>)
    requires
        x.spec_encodes(out),
    ensures
        head_at(out, 0) matches Some(h) && h.major == 4 && h.arg == 1 && x.0.spec_encodes(out.skip(h.len as int)),
{
    let h = head64(4, 1);
    assert(out.subrange(0, h.len() as int) =~= out.take(h.len() as int));
    lemma_head_at(out, 0, 4, 1, true);
}

/// A pair is written as an array head of two elements followed by an
/// encoding of the first element and then one of the second.
pub proof fn lemma_tuple2_wire<A: Encodable, B: Encodable>(x: (A, B), out: Seq<u8>)
    requires
        x.spec_encodes(out),
    ensures
        head_at(out, 0) matches Some(h) && h.major == 4 && h.arg == 2 && exists|a: Seq<u8>, b: Seq<u8>|
            #![trigger x.0.spec_encodes(a), x.1.spec_encodes(b)]
            x.0.spec_encodes(a) && x.1.spec_encodes(b) && out.skip(h.len as int) == a + b,
{
    let h = head64(4, 2);
    assert(out.subrange(0, h.len() as int) =~= out.take(h.len() as int));
    lemma_head_at(out, 0, 4, 2, true);
    let k = choose|k: int|
        h.len() <= k <= out.len() && x.0.spec_encodes(#[trigger] out.subrange(h.len() as int, k)) && x.1.spec_encodes(out.skip(k));
    let a = out.subrange(h.len() as int, k);
    let b = out.skip(k);
    assert(out.skip(h.len() as int) =~= a + b);
}

/// A triple is written as an array head of three elements followed by an
/// encoding of each element, in order.
pub proof fn lemma_tuple3_wire<A: Encodable, B: Encodable, C: Encodable>(x: (A, B, C), out: Seq<u8>)
    requires
        x.spec_encodes(out),
    ensures
        head_at(out, 0) matches Some(h) && h.major == 4 && h.arg == 3 && exists|a: Seq<u8>, b: Seq<u8>, c: Seq<u8>|
            #![trigger x.0.spec_encodes(a), x.1.spec_encodes(b), x.2.spec_encodes(c)]
            x.0.spec_encodes(a) && x.1.spec_encodes(b) && x.2.spec_encodes(c) && out.skip(h.len as int) == a + b + c,
{
    let h = head64(4, 3);
    assert(out.subrange(0, h.len() as int) =~= out.take(h.len() as int));
    lemma_head_at(out, 0, 4, 3, true);
    let (k1, k2) = choose|k1: int, k2: int|
        h.len() <= k1 <= k2 <= out.len() && x.0.spec_encodes(#[trigger] out.subrange(h.len() as int, k1))
            && x.1.spec_encodes(#[trigger] out.subrange(k1, k2)) && x.2.spec_encodes(out.skip(k2));
    let a = out.subrange(h.len() as int, k1);
    let b = out.subrange(k1, k2);
    let c = out.skip(k2);
    assert(out.skip(h.len() as int) =~= a + b + c);
}

/// An absent option is written as `null` (the simple value 22, one byte);
/// a present one as its value.
pub proof fn lemma_option_wire<A: Encodable>(x: Option<A>, out: Seq<u8>)
    requires
        x.spec_encodes(out),
    ensures
        match x {
            Some(v) => v.spec_encodes(out),
            None => out.len() == 1 && head_at(out, 0) == Some(Head { major: 7, info: 22, arg: 22, len: 1 }),
        },
{
    if x is None {
        assert(out.subrange(0, 1) =~= out);
        lemma_byte_head(out, 0, 0xf6u8);
    }
}

/// `out` is an encoding of the key `k` followed by an encoding of the value
/// `v`.
pub open spec fn key_then_value<K: Encodable, V: Encodable>(k: K, v: V, out: Seq<u8>) -> bool {
    exists|a: Seq<u8>, b: Seq<u8>| #![trigger k.spec_encodes(a), v.spec_encodes(b)] k.spec_encodes(a) && v.spec_encodes(b) && out == a + b
}

/// The encodings of some key-value pairs, one after the other, split into
/// one part per pair, in order: the key's encoding, then the value's.
pub proof fn lemma_encodes_pairs_parts<K: Encodable, V: Encodable>(s: Seq<(K, V)>, out: Seq<u8>) -> (parts: Seq<Seq<u8>>)
    requires
        encodes_pairs(s, out),
    ensures
        parts.len() == s.len(),
        forall|i: int| 0 <= i < s.len() ==> #[trigger] key_then_value(s[i].0, s[i].1, parts[i]),
        out == parts.flatten(),
    decreases s.len(),
{
    if s.len() == 0 {
        let parts = Seq::<Seq<u8>>::empty();
        assert(out =~= parts.flatten());
        parts
    } else {
        let j = choose|j: int|
            0 <= j <= out.len() && encodes_pairs(s.drop_last(), #[trigger] out.take(j)) && crate::maps::pair_encodes(
                s.last().0,
                s.last().1,
                out.skip(j),
            );
        let last = out.skip(j);
        let m = choose|m: int| 0 <= m <= last.len() && s.last().0.spec_encodes(#[trigger] last.take(m)) && s.last().1.spec_encodes(last.skip(m));
        assert(last =~= last.take(m) + last.skip(m));
        assert(key_then_value(s.last().0, s.last().1, last));
        let front = lemma_encodes_pairs_parts(s.drop_last(), out.take(j));
        let parts = front.push(last);
        front.lemma_flatten_push(last);
        assert(out =~= out.take(j) + last);
        assert forall|i: int| 0 <= i < s.len() implies #[trigger] key_then_value(s[i].0, s[i].1, parts[i]) by {
            if i < s.len() - 1 {
                assert(s.drop_last()[i] == s[i]);
            }
        }
        parts
    }
}

/// A map is written as an object head (major type 5) whose argument is its
/// number of entries, followed by one part per entry, each entry once, in
/// some order: the key's encoding, then the value's.
pub proof fn lemma_map_wire<K: Encodable + Hash + Eq, V: Encodable>(m: HashMap<K, V>, out: Seq<u8>)
    requires
        m.spec_encodes(out),
        m@.len() <= usize::MAX,
    ensures
        head_at(out, 0) matches Some(h) && h.major == 5 && h.arg == m@.len() && exists|s: Seq<(K, V)>, parts: Seq<Seq<u8>>|
            #![trigger lists_entries(s, m@), parts.flatten()]
            lists_entries(s, m@) && parts.len() == s.len()
                && (forall|i: int| 0 <= i < s.len() ==> #[trigger] key_then_value(s[i].0, s[i].1, parts[i]))
                && out.skip(h.len as int) == parts.flatten(),
{
    let h = head64(5, m@.len());
    lemma_head_len(5, m@.len());
    assert(out.subrange(0, h.len() as int) =~= out.take(h.len() as int));
    lemma_head_at(out, 0, 5, m@.len(), true);
    let s = choose|s: Seq<(K, V)>| lists_entries(s, m@) && #[trigger] encodes_pairs(s, out.skip(h.len() as int));
    let parts = lemma_encodes_pairs_parts(s, out.skip(h.len() as int));
    assert(lists_entries(s, m@) && parts.len() == s.len()
        && (forall|i: int| 0 <= i < s.len() ==> #[trigger] key_then_value(s[i].0, s[i].1, parts[i]))
        && out.skip(h.len() as int) == parts.flatten());
}

} // verus!
