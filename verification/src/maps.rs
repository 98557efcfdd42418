//! Encoding and decoding of hash maps as CBOR objects.
use crate::cbor_io::{
    cbor_object, decoder_input, decoder_limits, decoder_pos, put_object, read_object, written, CborDecoder,
    CborEncoder, CborFault, Limits,
};
use crate::errors::{DecodeError, ErrorView};
use crate::traits::{appended, extends, field_outcome, lemma_extends_trans, lemma_wrote, opt_view, Decodable, Decode, Encodable};
use crate::wire::head64;
use cbor::EncodeError;
use std::collections::hash_map::RandomState;
use std::collections::HashMap;
use std::hash::Hash;
use vstd::prelude::*;
use vstd::relations::injective;
use vstd::std_specs::iter::IteratorSpec;
use vstd::std_specs::hash::{builds_valid_hashers, lemma_hashmap_deepview_properties, obeys_key_model, spec_hash_map_len};

verus! {

broadcast use vstd::std_specs::hash::group_hash_axioms;

/// The key type `K` behaves as a hash map key should (its hash and equality
/// agree with spec equality), and keys with the same deep view are equal.
pub open spec fn keys_modeled<K: DeepView>() -> bool {
    &&& obeys_key_model::<K>()
    &&& builds_valid_hashers::<RandomState>()
    &&& injective(|k: K| k.deep_view())
}

/// `out` is an encoding of the key `k` followed by an encoding of the value `v`.
pub open spec fn pair_encodes<K: Encodable, V: Encodable>(k: K, v: V, out: Seq<u8>) -> bool {
    exists|m: int| 0 <= m <= out.len() && k.spec_encodes(#[trigger] out.take(m)) && v.spec_encodes(out.skip(m))
}

/// `out` is the encodings of the key-value pairs `s`, one after the other.
pub open spec fn encodes_pairs<K: Encodable, V: Encodable>(s: Seq<(K, V)>, out: Seq<u8>) -> bool
    decreases s.len(),
{
    if s.len() == 0 {
        out.len() == 0
    } else {
        exists|j: int|
            0 <= j <= out.len() && encodes_pairs(s.drop_last(), #[trigger] out.take(j)) && pair_encodes(
                s.last().0,
                s.last().1,
                out.skip(j),
            )
    }
}

/// `s` lists each entry of the map `m` once, in some order.
pub open spec fn lists_entries<K, V>(s: Seq<(K, V)>, m: Map<K, V>) -> bool {
    &&& s.len() == m.len()
    &&& s.no_duplicates()
    &&& forall|i: int| 0 <= i < s.len() ==> #[trigger] m.contains_key(s[i].0) && m[s[i].0] == s[i].1
    &&& forall|k: K| #[trigger] m.contains_key(k) ==> s.contains((k, m[k]))
}

/// Takes the next item of an iterator: the first of the items it has left.
fn advance<I: Iterator>(it: &mut I) -> (r: Option<I::Item>)
    ensures
        (*final(it)).obeys_prophetic_iter_laws() == (*old(it)).obeys_prophetic_iter_laws(),
        (*old(it)).obeys_prophetic_iter_laws() && (*old(it)).remaining().len() > 0 ==> {
            &&& (*final(it)).remaining() == (*old(it)).remaining().drop_first()
            &&& r == Some((*old(it)).remaining()[0])
        },
{
    it.next()
}

/// A map is an object with one key-value entry per entry of the map; in
/// which order the entries come is not fixed.
impl<K: Encodable + Hash + Eq, V: Encodable> Encodable for HashMap<K, V> {
    open spec fn encoding_modeled() -> bool {
        K::encoding_modeled() && V::encoding_modeled() && obeys_key_model::<K>() && builds_valid_hashers::<RandomState>()
    }

    open spec fn spec_encodes(&self, out: Seq<u8>) -> bool {
        let h = head64(5, self@.len());
        &&& h.len() <= out.len()
        &&& out.take(h.len() as int) == h
        &&& exists|s: Seq<(K, V)>| lists_entries(s, self@) && #[trigger] encodes_pairs(s, out.skip(h.len() as int))
    }

    /// Whatever the key type, the encoding starts with the object head for
    /// the map's length.
    fn encode(&self, e: &mut CborEncoder) -> (r: Result<(), EncodeError>)
        ensures
            ({
                let h = head64(5, spec_hash_map_len(self) as nat);
                &&& h.len() <= appended(*old(e), *final(e)).len()
                &&& appended(*old(e), *final(e)).take(h.len() as int) == h
            }),
    {
        let ghost e0 = *e;
        let n = self.len();
        let ghost h = head64(5, n as nat);
        let _ = put_object(e, n);
        proof {
            lemma_wrote(e0, *e, h);
        }
        let ghost e1 = *e;
        assert(written(e1).subrange(0, written(e1).len() as int) =~= written(e1));
        assert(appended(e1, e1) =~= Seq::empty());
        let mut it = self.iter();
        let ghost s = it.remaining();
        let mut i: usize = 0;
        while i < n
            invariant
                i <= n,
                extends(e1, *e),
                written(e1) == written(e0) + h,
                Self::encoding_modeled() ==> {
                    &&& s.len() == n
                    &&& it.remaining() == s.skip(i as int)
                    &&& encodes_pairs(s.take(i as int).unref(), appended(e1, *e))
                },
            decreases n - i,
        {
            let ghost before = *e;
            match advance(&mut it) {
                Some((k, v)) => {
                    let _ = k.encode(e);
                    let ghost mid = *e;
                    let _ = v.encode(e);
                    proof {
                        lemma_extends_trans(before, mid, *e);
                        lemma_extends_trans(e1, before, *e);
                        if Self::encoding_modeled() {
                            let prev = appended(e1, before);
                            let pe = appended(before, *e);
                            let ke = appended(before, mid);
                            let ve = appended(mid, *e);
                            let out = appended(e1, *e);
                            assert(pe.take(ke.len() as int) =~= ke);
                            assert(pe.skip(ke.len() as int) =~= ve);
                            assert(pair_encodes(*k, *v, pe));
                            let t = s.take(i + 1).unref();
                            assert(t.drop_last() =~= s.take(i as int).unref());
                            assert(out.take(prev.len() as int) =~= prev);
                            assert(out.skip(prev.len() as int) =~= pe);
                            assert(encodes_pairs(t, out));
                            assert(it.remaining() =~= s.skip(i + 1));
                        }
                    }
                },
                None => {},
            }
            i = i + 1;
        }
        proof {
            lemma_extends_trans(e0, e1, *e);
            let out = appended(e0, *e);
            assert(appended(e0, e1) =~= h);
            assert(out.take(h.len() as int) =~= h);
            assert(out.skip(h.len() as int) =~= appended(e1, *e));
            if Self::encoding_modeled() {
                let u = s.unref();
                assert(s.take(n as int) =~= s);
                assert forall|k: K| #[trigger] self@.contains_key(k) implies u.contains((k, self@[k])) by {
                    assert(s.contains((&k, &self@[k])));
                    let i = choose|i: int| 0 <= i < s.len() && s[i] == (&k, &self@[k]);
                    assert(u[i] == (k, self@[k]));
                }
                assert(lists_entries(u, self@));
                assert(encodes_pairs(u, out.skip(h.len() as int)));
            }
        }
        Ok(())
    }
}

/// What decoding the entries `k..n` of an object gives, after the entries
/// `acc`, from `pos` on: the map of all entries; or the first error, a key
/// or value that cannot be decoded (or is `null`), or a key that occurs
/// twice.
pub open spec fn decode_entries<K: Decodable, V: Decodable>(
    input: Seq<u8>,
    pos: nat,
    lim: Limits,
    k: nat,
    n: nat,
    acc: Map<K::V, V::V>,
) -> (Result<Map<K::V, V::V>, ErrorView>, nat)
    decreases n - k,
{
    if k >= n {
        (Ok(acc), pos)
    } else {
        let (ko, p) = K::spec_decode(input, pos, lim);
        match field_outcome(ko, "mapping key"@) {
            Err(e) => (Err(e), p),
            Ok(key) => {
                let (vo, q) = V::spec_decode(input, p, lim);
                match field_outcome(vo, "mapping value"@) {
                    Err(e) => (Err(e), q),
                    Ok(value) => if acc.contains_key(key) {
                        (Err(ErrorView::DuplicateKey), q)
                    } else {
                        decode_entries::<K, V>(input, q, lim, k + 1, n, acc.insert(key, value))
                    },
                }
            },
        }
    }
}

/// The outcome of decoding a map: `null` gives `None`, another item than an
/// object `WrongType`, an object its entries or the first error.
pub open spec fn map_outcome<K: Decodable, V: Decodable>(input: Seq<u8>, pos: nat, lim: Limits) -> (Result<Option<Map<K::V, V::V>>, ErrorView>, nat) {
    let (r, p) = cbor_object(input, pos, lim);
    match r {
        Ok(n) => {
            let (m, q) = decode_entries::<K, V>(input, p, lim, 0, n as nat, Map::empty());
            (match m {
                Ok(v) => Ok(Some(v)),
                Err(e) => Err(e),
            }, q)
        },
        Err(CborFault::Null) => (Ok(None), p),
        Err(_) => (Err(ErrorView::WrongType("object expected"@)), p),
    }
}

/// What decoding a map gives in the cases decided before any entry is put
/// into the map, whatever the key type: `None` for `null`; `WrongType` for
/// another item than an object or a head that cannot be read; the error of
/// the first entry's key or value. `None` for every other case.
pub open spec fn map_early_outcome<K: Decodable, V: Decodable>(input: Seq<u8>, pos: nat, lim: Limits) -> Option<(Result<Option<Map<K::V, V::V>>, ErrorView>, nat)> {
    let (r, p) = cbor_object(input, pos, lim);
    match r {
        Err(CborFault::Null) => Some((Ok(None), p)),
        Err(_) => Some((Err(ErrorView::WrongType("object expected"@)), p)),
        Ok(n) => if n == 0 {
            None
        } else {
            let (ko, p1) = K::spec_decode(input, p, lim);
            match field_outcome(ko, "mapping key"@) {
                Err(e) => Some((Err(e), p1)),
                Ok(_) => {
                    let (vo, p2) = V::spec_decode(input, p1, lim);
                    match field_outcome(vo, "mapping value"@) {
                        Err(e) => Some((Err(e), p2)),
                        Ok(_) => None,
                    }
                },
            }
        },
    }
}

/// Where the early outcome decides, it is what decoding the map gives.
pub proof fn lemma_map_early_outcome<K: Decodable, V: Decodable>(input: Seq<u8>, pos: nat, lim: Limits)
    ensures
        map_early_outcome::<K, V>(input, pos, lim) matches Some(o) ==> map_outcome::<K, V>(input, pos, lim) == o,
{
}

/// Inserting a key that is not there adds its deep view with the value's.
proof fn lemma_insert_deep<K: DeepView, V: DeepView>(before: HashMap<K, V>, after: HashMap<K, V>, k: K, v: V)
    requires
        injective(|k: K| k.deep_view()),
        after@ == before@.insert(k, v),
    ensures
        before@.contains_key(k) <==> before.deep_view().contains_key(k.deep_view()),
        after.deep_view() == before.deep_view().insert(k.deep_view(), v.deep_view()),
{
    lemma_hashmap_deepview_properties(before);
    lemma_hashmap_deepview_properties(after);
    let f = |k: K| k.deep_view();
    assert forall|k1: K, k2: K| #[trigger] k1.deep_view() == #[trigger] k2.deep_view() implies k1 == k2 by {
        assert(f(k1) == f(k2));
    }
    let target = before.deep_view().insert(k.deep_view(), v.deep_view());
    assert forall|dk: K::V| #[trigger] after.deep_view().contains_key(dk) implies target.contains_key(dk) && after.deep_view()[dk] == target[dk] by {
        let k2 = choose|k2: K| k2.deep_view() == dk && #[trigger] after@.contains_key(k2);
        if k2 != k {
            assert(before@.contains_key(k2));
        }
    }
    assert forall|dk: K::V| #[trigger] target.contains_key(dk) implies after.deep_view().contains_key(dk) by {
        if dk != k.deep_view() {
            let k2 = choose|k2: K| k2.deep_view() == dk && #[trigger] before@.contains_key(k2);
            assert(after@.contains_key(k2));
        } else {
            assert(after@.contains_key(k));
        }
    }
    assert(after.deep_view() =~= target);
}

impl<K: Decodable + Hash + Eq, V: Decodable> Decodable for HashMap<K, V> {
    open spec fn decoding_modeled() -> bool {
        K::decoding_modeled() && V::decoding_modeled() && keys_modeled::<K>()
    }

    open spec fn spec_decode(input: Seq<u8>, pos: nat, lim: Limits) -> (Result<Option<Map<K::V, V::V>>, ErrorView>, nat) {
        map_outcome::<K, V>(input, pos, lim)
    }

    /// Whatever the key type, the cases decided before any entry is put into
    /// the map give what `map_early_outcome` says.
    fn decode_opt(d: &mut CborDecoder) -> (r: Result<Option<HashMap<K, V>>, DecodeError>)
        ensures
            K::decoding_modeled() && V::decoding_modeled() ==> (map_early_outcome::<K, V>(
                decoder_input(*old(d)),
                decoder_pos(*old(d)),
                decoder_limits(*old(d)),
            ) matches Some(o) ==> (opt_view(r), decoder_pos(*final(d))) == o),
    {
        let ghost input = decoder_input(*d);
        let ghost lim = decoder_limits(*d);
        let ghost start = decoder_pos(*d);
        match read_object(d) {
            Ok(num) => {
                let ghost p0 = decoder_pos(*d);
                let mut res: HashMap<K, V> = HashMap::new();
                proof {
                    if keys_modeled::<K>() {
                        lemma_hashmap_deepview_properties(res);
                        assert(res.deep_view() =~= Map::<K::V, V::V>::empty());
                    }
                }
                let mut i: usize = 0;
                while i < num
                    invariant
                        i <= num,
                        decoder_input(*d) == input,
                        decoder_limits(*d) == lim,
                        input == decoder_input(*old(d)),
                        lim == decoder_limits(*old(d)),
                        start == decoder_pos(*old(d)),
                        cbor_object(input, start, lim) == (Ok::<usize, CborFault>(num), p0),
                        i == 0 ==> decoder_pos(*d) == p0,
                        K::decoding_modeled() && V::decoding_modeled() && i > 0 ==> map_early_outcome::<K, V>(
                            input,
                            start,
                            lim,
                        ) is None,
                        Self::decoding_modeled() ==> decode_entries::<K, V>(input, p0, lim, 0, num as nat, Map::empty())
                            == decode_entries::<K, V>(input, decoder_pos(*d), lim, i as nat, num as nat, res.deep_view()),
                    decreases num - i,
                {
                    let key = match K::decode_field(d, "mapping key") {
                        Ok(key) => key,
                        Err(e) => {
                            return Err(e);
                        },
                    };
                    let value = match V::decode_field(d, "mapping value") {
                        Ok(value) => value,
                        Err(e) => {
                            return Err(e);
                        },
                    };
                    let ghost before = res;
                    let ghost gk = key;
                    let ghost gv = value;
                    match res.insert(key, value) {
                        Some(_) => {
                            proof {
                                if Self::decoding_modeled() {
                                    lemma_insert_deep(before, res, gk, gv);
                                }
                            }
                            return Err(DecodeError::DuplicateKey);
                        },
                        None => {
                            proof {
                                if Self::decoding_modeled() {
                                    lemma_insert_deep(before, res, gk, gv);
                                }
                            }
                        },
                    }
                    i = i + 1;
                }
                Ok(Some(res))
            },
            Err(f) => match f.fault {
                CborFault::Null => Ok(None),
                _ => Err(DecodeError::WrongType("object expected", f.error)),
            },
        }
    }
}

} // verus!
