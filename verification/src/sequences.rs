//! Encoding and decoding of vectors as CBOR arrays.
use crate::cbor_io::{cbor_array, decoder_input, decoder_limits, decoder_pos, put_array, read_array, written, CborDecoder, CborEncoder, CborFault, Limits};
use crate::errors::{DecodeError, ErrorView};
use crate::traits::{appended, elem_outcome, extends, lemma_extends_trans, lemma_wrote, opt_view, Decodable, Decode, Encodable};
use crate::wire::head64;
use cbor::EncodeError;
use vstd::prelude::*;

verus! {

/// `out` is the encodings of `xs`, one after the other.
pub open spec fn encodes_all<T: Encodable>(xs: Seq<T>, out: Seq<u8>) -> bool
    decreases xs.len(),
{
    if xs.len() == 0 {
        out.len() == 0
    } else {
        exists|k: int|
            0 <= k <= out.len() && encodes_all(xs.drop_last(), #[trigger] out.take(k)) && xs.last().spec_encodes(
                out.skip(k),
            )
    }
}

/// Adding the encoding of one more value to the encodings of some values.
pub proof fn lemma_encodes_all_push<T: Encodable>(xs: Seq<T>, x: T, out: Seq<u8>, more: Seq<u8>)
    requires
        encodes_all(xs, out),
        x.spec_encodes(more),
    ensures
        encodes_all(xs.push(x), out + more),
{
    let k = out.len() as int;
    assert((out + more).take(k) =~= out);
    assert((out + more).skip(k) =~= more);
    assert(xs.push(x).drop_last() =~= xs);
}

/// What decoding the elements `i..n` of an array gives, after the elements
/// `acc`, from `pos` on: all elements, or the first element's error.
pub open spec fn decode_elems<T: Decodable>(
    input: Seq<u8>,
    pos: nat,
    lim: Limits,
    i: nat,
    n: nat,
    acc: Seq<T::V>,
) -> (Result<Seq<T::V>, ErrorView>, nat)
    decreases n - i,
{
    if i >= n {
        (Ok(acc), pos)
    } else {
        let (o, p) = T::spec_decode(input, pos, lim);
        match elem_outcome(o, i as usize) {
            Ok(v) => decode_elems::<T>(input, p, lim, i + 1, n, acc.push(v)),
            Err(e) => (Err(e), p),
        }
    }
}

/// A vector is an array of its elements.
impl<T: Encodable> Encodable for Vec<T> {
    open spec fn encoding_modeled() -> bool {
        T::encoding_modeled()
    }

    open spec fn spec_encodes(&self, out: Seq<u8>) -> bool {
        let h = head64(4, self.len() as nat);
        h.len() <= out.len() && out.take(h.len() as int) == h && encodes_all(self@, out.skip(h.len() as int))
    }

    fn encode(&self, e: &mut CborEncoder) -> (r: Result<(), EncodeError>) {
        let ghost e0 = *e;
        let ghost h = head64(4, self.len() as nat);
        let r = put_array(e, self.len());
        proof {
            lemma_wrote(e0, *e, h);
        }
        let ghost e1 = *e;
        assert(written(e1).subrange(0, written(e1).len() as int) =~= written(e1));
        assert(appended(e1, e1) =~= Seq::empty());
        assert(self@.take(0) =~= Seq::empty());
        let mut i: usize = 0;
        while i < self.len()
            invariant
                i <= self.len(),
                extends(e1, *e),
                T::encoding_modeled() ==> encodes_all(self@.take(i as int), appended(e1, *e)),
                written(e1) == written(e0) + h,
            decreases self.len() - i,
        {
            let ghost before = *e;
            let _ = self[i].encode(e);
            proof {
                lemma_extends_trans(e1, before, *e);
                if T::encoding_modeled() {
                    lemma_encodes_all_push(self@.take(i as int), self@[i as int], appended(e1, before), appended(before, *e));
                    assert(self@.take(i as int).push(self@[i as int]) =~= self@.take(i + 1));
                }
            }
            i = i + 1;
        }
        proof {
            assert(self@.take(i as int) =~= self@);
            assert(extends(e0, e1));
            lemma_extends_trans(e0, e1, *e);
            assert(appended(e0, e1) =~= h);
            let out = appended(e0, *e);
            assert(out.take(h.len() as int) =~= h);
            assert(out.skip(h.len() as int) =~= appended(e1, *e));
        }
        Ok(())
    }
}

/// The outcome of decoding a vector: `null` gives `None`, another item than
/// an array `WrongType`, an array its elements or the first element's error.
pub open spec fn vec_outcome<T: Decodable>(input: Seq<u8>, pos: nat, lim: Limits) -> (Result<Option<Seq<T::V>>, ErrorView>, nat) {
    let (r, p) = cbor_array(input, pos, lim);
    match r {
        Ok(n) => {
            let (s, q) = decode_elems::<T>(input, p, lim, 0, n as nat, Seq::empty());
            (match s {
                Ok(v) => Ok(Some(v)),
                Err(e) => Err(e),
            }, q)
        },
        Err(CborFault::Null) => (Ok(None), p),
        Err(_) => (Err(ErrorView::WrongType("array expected"@)), p),
    }
}

impl<T: Decodable> Decodable for Vec<T> {
    open spec fn decoding_modeled() -> bool {
        T::decoding_modeled()
    }

    open spec fn spec_decode(input: Seq<u8>, pos: nat, lim: Limits) -> (Result<Option<Seq<T::V>>, ErrorView>, nat) {
        vec_outcome::<T>(input, pos, lim)
    }

    /// Whatever the element type: `null` gives `None`; another item than an
    /// array gives `WrongType("array expected")`; an array of `n` elements
    /// gives a vector of `n` elements, or the error of an element below `n`.
    fn decode_opt(d: &mut CborDecoder) -> (r: Result<Option<Vec<T>>, DecodeError>)
        ensures
            ({
                let (a, p) = cbor_array(decoder_input(*old(d)), decoder_pos(*old(d)), decoder_limits(*old(d)));
                match a {
                    Err(CborFault::Null) => r matches Ok(None) && decoder_pos(*final(d)) == p,
                    Err(_) => opt_view(r) == Err::<Option<Seq<T::V>>, ErrorView>(ErrorView::WrongType("array expected"@))
                        && decoder_pos(*final(d)) == p,
                    Ok(n) => {
                        &&& r matches Ok(Some(v)) ==> v.len() == n
                        &&& r matches Err(e) ==> e matches DecodeError::BadArrayElement(i, _) && i < n
                        &&& r is Ok ==> r matches Ok(Some(_))
                    },
                }
            }),
    {
        let ghost input = decoder_input(*d);
        let ghost lim = decoder_limits(*d);
        let ghost start = decoder_pos(*d);
        match read_array(d) {
            Ok(num) => {
                let ghost p0 = decoder_pos(*d);
                let mut res: Vec<T> = Vec::new();
                assert(res.deep_view() =~= Seq::<T::V>::empty());
                let mut idx: usize = 0;
                while idx < num
                    invariant
                        idx <= num,
                        res@.len() == idx,
                        decoder_input(*d) == input,
                        decoder_limits(*d) == lim,
                        input == decoder_input(*old(d)),
                        lim == decoder_limits(*old(d)),
                        start == decoder_pos(*old(d)),
                        cbor_array(input, start, lim) == (Ok::<usize, CborFault>(num), p0),
                        T::decoding_modeled() ==> decode_elems::<T>(input, p0, lim, 0, num as nat, Seq::empty())
                            == decode_elems::<T>(input, decoder_pos(*d), lim, idx as nat, num as nat, res.deep_view()),
                    decreases num - idx,
                {
                    let ghost before = *d;
                    let ghost acc = res.deep_view();
                    match T::decode_elem(d, idx) {
                        Ok(x) => {
                            res.push(x);
                            proof {
                                assert(res.deep_view() =~= acc.push(x.deep_view()));
                            }
                        },
                        Err(e) => {
                            return Err(e);
                        },
                    }
                    idx = idx + 1;
                }
                Ok(Some(res))
            },
            Err(f) => match f.fault {
                CborFault::Null => Ok(None),
                _ => Err(DecodeError::WrongType("array expected", f.error)),
            },
        }
    }
}

} // verus!
