//! Encoding and decoding of tuples of one to three elements as CBOR arrays.
use crate::cbor_io::{cbor_array, put_array, read_array, CborDecoder, CborEncoder, CborFault, Limits};
use crate::errors::{DecodeError, ErrorView};
use crate::traits::{appended, elem_outcome, lemma_extends_trans, lemma_wrote, Decodable, Decode, Encodable};
use crate::wire::head64;
use cbor::EncodeError;
use vstd::prelude::*;

verus! {

/// A tuple is an array of its elements.
impl<A: Encodable> Encodable for (A,) {
    open spec fn encoding_modeled() -> bool {
        A::encoding_modeled()
    }

    open spec fn spec_encodes(&self, out: Seq<u8>) -> bool {
        let h = head64(4, 1);
        &&& h.len() <= out.len()
        &&& out.take(h.len() as int) == h
        &&& self.0.spec_encodes(out.skip(h.len() as int))
    }

    fn encode(&self, e: &mut CborEncoder) -> (r: Result<(), EncodeError>) {
        let ghost e0 = *e;
        let ghost h = head64(4, 1);
        let _ = put_array(e, 1);
        let ghost e1 = *e;
        let _ = self.0.encode(e);
        let ghost e2 = *e;
        proof {
            lemma_wrote(e0, e1, h);
            lemma_extends_trans(e0, e1, e2);
            assert(appended(e0, e2).take(h.len() as int) =~= h);
            assert(appended(e0, e2).skip(h.len() as int) =~= appended(e1, e2));
        }
        Ok(())
    }
}

/// What decoding a tuple of one element gives.
pub open spec fn tuple1_outcome<A: Decodable>(input: Seq<u8>, pos: nat, lim: Limits) -> (Result<Option<(A::V,)>, ErrorView>, nat) {
    let (r, p) = cbor_array(input, pos, lim);
    match r {
        Ok(len) => if len != 1 {
            (Err(ErrorView::WrongArrayLength(len)), p)
        } else {
            let (o0, p0) = A::spec_decode(input, p, lim);
            match elem_outcome(o0, 0usize) {
                Err(e) => (Err(e), p0),
                Ok(v0) => (Ok(Some((v0,))), p0),
            }
        },
        Err(CborFault::Null) => (Ok(None), p),
        Err(_) => (Err(ErrorView::WrongType("expected an array of one element"@)), p),
    }
}

impl<A: Decodable> Decodable for (A,) {
    open spec fn decoding_modeled() -> bool {
        A::decoding_modeled()
    }

    open spec fn spec_decode(input: Seq<u8>, pos: nat, lim: Limits) -> (Result<Option<(A::V,)>, ErrorView>, nat) {
        tuple1_outcome::<A>(input, pos, lim)
    }

    fn decode_opt(d: &mut CborDecoder) -> (r: Result<Option<(A,)>, DecodeError>) {
        let len = match read_array(d) {
            Ok(x) => x,
            Err(f) => {
                return match f.fault {
                    CborFault::Null => Ok(None),
                    _ => Err(DecodeError::WrongType("expected an array of one element", f.error)),
                };
            },
        };
        if len != 1 {
            return Err(DecodeError::WrongArrayLength(len));
        }
        Ok(Some((A::decode_elem(d, 0)?,)))
    }
}

/// A tuple is an array of its elements.
impl<A: Encodable, B: Encodable> Encodable for (A, B) {
    open spec fn encoding_modeled() -> bool {
        A::encoding_modeled() && B::encoding_modeled()
    }

    open spec fn spec_encodes(&self, out: Seq<u8>) -> bool {
        let h = head64(4, 2);
        &&& h.len() <= out.len()
        &&& out.take(h.len() as int) == h
        &&& exists|k: int|
            h.len() <= k <= out.len() && self.0.spec_encodes(#[trigger] out.subrange(h.len() as int, k))
                && self.1.spec_encodes(out.skip(k))
    }

    fn encode(&self, e: &mut CborEncoder) -> (r: Result<(), EncodeError>) {
        let ghost e0 = *e;
        let ghost h = head64(4, 2);
        let _ = put_array(e, 2);
        let ghost e1 = *e;
        let _ = self.0.encode(e);
        let ghost e2 = *e;
        let _ = self.1.encode(e);
        let ghost e3 = *e;
        proof {
            lemma_wrote(e0, e1, h);
            lemma_extends_trans(e0, e1, e2);
            lemma_extends_trans(e0, e2, e3);
            let out = appended(e0, e3);
            let k = (h.len() + appended(e1, e2).len()) as int;
            assert(out.take(h.len() as int) =~= h);
            assert(out.subrange(h.len() as int, k) =~= appended(e1, e2));
            assert(out.skip(k) =~= appended(e2, e3));
        }
        Ok(())
    }
}

/// What decoding a tuple of two elements gives.
pub open spec fn tuple2_outcome<A: Decodable, B: Decodable>(input: Seq<u8>, pos: nat, lim: Limits) -> (Result<Option<(A::V, B::V)>, ErrorView>, nat) {
    let (r, p) = cbor_array(input, pos, lim);
    match r {
        Ok(len) => if len != 2 {
            (Err(ErrorView::WrongArrayLength(len)), p)
        } else {
            let (o0, p0) = A::spec_decode(input, p, lim);
            match elem_outcome(o0, 0usize) {
                Err(e) => (Err(e), p0),
                Ok(v0) => {
                    let (o1, p1) = B::spec_decode(input, p0, lim);
                    match elem_outcome(o1, 1usize) {
                        Err(e) => (Err(e), p1),
                        Ok(v1) => (Ok(Some((v0, v1))), p1),
                    }
                },
            }
        },
        Err(CborFault::Null) => (Ok(None), p),
        Err(_) => (Err(ErrorView::WrongType("expected an array of two elements"@)), p),
    }
}

impl<A: Decodable, B: Decodable> Decodable for (A, B) {
    open spec fn decoding_modeled() -> bool {
        A::decoding_modeled() && B::decoding_modeled()
    }

    open spec fn spec_decode(input: Seq<u8>, pos: nat, lim: Limits) -> (Result<Option<(A::V, B::V)>, ErrorView>, nat) {
        tuple2_outcome::<A, B>(input, pos, lim)
    }

    fn decode_opt(d: &mut CborDecoder) -> (r: Result<Option<(A, B)>, DecodeError>) {
        let len = match read_array(d) {
            Ok(x) => x,
            Err(f) => {
                return match f.fault {
                    CborFault::Null => Ok(None),
                    _ => Err(DecodeError::WrongType("expected an array of two elements", f.error)),
                };
            },
        };
        if len != 2 {
            return Err(DecodeError::WrongArrayLength(len));
        }
        Ok(Some((A::decode_elem(d, 0)?, B::decode_elem(d, 1)?)))
    }
}

/// A tuple is an array of its elements.
impl<A: Encodable, B: Encodable, C: Encodable> Encodable for (A, B, C) {
    open spec fn encoding_modeled() -> bool {
        A::encoding_modeled() && B::encoding_modeled() && C::encoding_modeled()
    }

    open spec fn spec_encodes(&self, out: Seq<u8>) -> bool {
        let h = head64(4, 3);
        &&& h.len() <= out.len()
        &&& out.take(h.len() as int) == h
        &&& exists|k1: int, k2: int|
            h.len() <= k1 <= k2 <= out.len() && self.0.spec_encodes(#[trigger] out.subrange(h.len() as int, k1))
                && self.1.spec_encodes(#[trigger] out.subrange(k1, k2)) && self.2.spec_encodes(out.skip(k2))
    }

    fn encode(&self, e: &mut CborEncoder) -> (r: Result<(), EncodeError>) {
        let ghost e0 = *e;
        let ghost h = head64(4, 3);
        let _ = put_array(e, 3);
        let ghost e1 = *e;
        let _ = self.0.encode(e);
        let ghost e2 = *e;
        let _ = self.1.encode(e);
        let ghost e3 = *e;
        let _ = self.2.encode(e);
        let ghost e4 = *e;
        proof {
            lemma_wrote(e0, e1, h);
            lemma_extends_trans(e0, e1, e2);
            lemma_extends_trans(e0, e2, e3);
            lemma_extends_trans(e0, e3, e4);
            let out = appended(e0, e4);
            let k1 = (h.len() + appended(e1, e2).len()) as int;
            let k2 = k1 + appended(e2, e3).len() as int;
            assert(out.take(h.len() as int) =~= h);
            assert(out.subrange(h.len() as int, k1) =~= appended(e1, e2));
            assert(out.subrange(k1, k2) =~= appended(e2, e3));
            assert(out.skip(k2) =~= appended(e3, e4));
        }
        Ok(())
    }
}

/// What decoding a tuple of three elements gives.
pub open spec fn tuple3_outcome<A: Decodable, B: Decodable, C: Decodable>(input: Seq<u8>, pos: nat, lim: Limits) -> (Result<Option<(A::V, B::V, C::V)>, ErrorView>, nat) {
    let (r, p) = cbor_array(input, pos, lim);
    match r {
        Ok(len) => if len != 3 {
            (Err(ErrorView::WrongArrayLength(len)), p)
        } else {
            let (o0, p0) = A::spec_decode(input, p, lim);
            match elem_outcome(o0, 0usize) {
                Err(e) => (Err(e), p0),
                Ok(v0) => {
                    let (o1, p1) = B::spec_decode(input, p0, lim);
                    match elem_outcome(o1, 1usize) {
                        Err(e) => (Err(e), p1),
                        Ok(v1) => {
                            let (o2, p2) = C::spec_decode(input, p1, lim);
                            match elem_outcome(o2, 2usize) {
                                Err(e) => (Err(e), p2),
                                Ok(v2) => (Ok(Some((v0, v1, v2))), p2),
                            }
                        },
                    }
                },
            }
        },
        Err(CborFault::Null) => (Ok(None), p),
        Err(_) => (Err(ErrorView::WrongType("expected an array of three elements"@)), p),
    }
}

impl<A: Decodable, B: Decodable, C: Decodable> Decodable for (A, B, C) {
    open spec fn decoding_modeled() -> bool {
        A::decoding_modeled() && B::decoding_modeled() && C::decoding_modeled()
    }

    open spec fn spec_decode(input: Seq<u8>, pos: nat, lim: Limits) -> (Result<Option<(A::V, B::V, C::V)>, ErrorView>, nat) {
        tuple3_outcome::<A, B, C>(input, pos, lim)
    }

    fn decode_opt(d: &mut CborDecoder) -> (r: Result<Option<(A, B, C)>, DecodeError>) {
        let len = match read_array(d) {
            Ok(x) => x,
            Err(f) => {
                return match f.fault {
                    CborFault::Null => Ok(None),
                    _ => Err(DecodeError::WrongType("expected an array of three elements", f.error)),
                };
            },
        };
        if len != 3 {
            return Err(DecodeError::WrongArrayLength(len));
        }
        Ok(Some((A::decode_elem(d, 0)?, B::decode_elem(d, 1)?, C::decode_elem(d, 2)?)))
    }
}

} // verus!
