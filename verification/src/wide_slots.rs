//! Field slots and field values for structures of four to eight fields.
use crate::cbor_io::{CborDecoder, CborEncoder, Limits};
use crate::errors::{DecodeError, ErrorView};
use crate::structs::{elem_slot_outcome, elem_value, field_value, slot_outcome, FieldSet, FieldValues};
use crate::traits::{Decodable, Encodable};
use cbor::EncodeError;
use vstd::prelude::*;

verus! {

/// Slots for a structure of four fields, one per field.
impl<A: Decodable, B: Decodable, C: Decodable, D: Decodable> FieldSet for (Option<A>, Option<B>, Option<C>, Option<D>) {
    open spec fn slots_modeled() -> bool { A::decoding_modeled() && B::decoding_modeled() && C::decoding_modeled() && D::decoding_modeled() }

    open spec fn spec_empty() -> (Option<A::V>, Option<B::V>, Option<C::V>, Option<D::V>) { (None, None, None, None) }

    open spec fn spec_decode_slot(slots: (Option<A::V>, Option<B::V>, Option<C::V>, Option<D::V>), i: nat, name: Seq<char>, input: Seq<u8>, pos: nat, lim: Limits) -> (Result<(Option<A::V>, Option<B::V>, Option<C::V>, Option<D::V>), ErrorView>, nat) {
        if i == 0 {
            let (o, p) = A::spec_decode(input, pos, lim);
            (match slot_outcome(o, name) {
                Ok(v) => Ok((v, slots.1, slots.2, slots.3)),
                Err(e) => Err(e),
            }, p)
        } else if i == 1 {
            let (o, p) = B::spec_decode(input, pos, lim);
            (match slot_outcome(o, name) {
                Ok(v) => Ok((slots.0, v, slots.2, slots.3)),
                Err(e) => Err(e),
            }, p)
        } else if i == 2 {
            let (o, p) = C::spec_decode(input, pos, lim);
            (match slot_outcome(o, name) {
                Ok(v) => Ok((slots.0, slots.1, v, slots.3)),
                Err(e) => Err(e),
            }, p)
        } else {
            let (o, p) = D::spec_decode(input, pos, lim);
            (match slot_outcome(o, name) {
                Ok(v) => Ok((slots.0, slots.1, slots.2, v)),
                Err(e) => Err(e),
            }, p)
        }
    }

    open spec fn spec_decode_elem_slot(slots: (Option<A::V>, Option<B::V>, Option<C::V>, Option<D::V>), i: nat, idx: usize, input: Seq<u8>, pos: nat, lim: Limits) -> (Result<(Option<A::V>, Option<B::V>, Option<C::V>, Option<D::V>), ErrorView>, nat) {
        if i == 0 {
            let (o, p) = A::spec_decode(input, pos, lim);
            (match elem_slot_outcome(o, idx) {
                Ok(v) => Ok((v, slots.1, slots.2, slots.3)),
                Err(e) => Err(e),
            }, p)
        } else if i == 1 {
            let (o, p) = B::spec_decode(input, pos, lim);
            (match elem_slot_outcome(o, idx) {
                Ok(v) => Ok((slots.0, v, slots.2, slots.3)),
                Err(e) => Err(e),
            }, p)
        } else if i == 2 {
            let (o, p) = C::spec_decode(input, pos, lim);
            (match elem_slot_outcome(o, idx) {
                Ok(v) => Ok((slots.0, slots.1, v, slots.3)),
                Err(e) => Err(e),
            }, p)
        } else {
            let (o, p) = D::spec_decode(input, pos, lim);
            (match elem_slot_outcome(o, idx) {
                Ok(v) => Ok((slots.0, slots.1, slots.2, v)),
                Err(e) => Err(e),
            }, p)
        }
    }

    open spec fn spec_with(slots: (Option<A::V>, Option<B::V>, Option<C::V>, Option<D::V>), from: (Option<A::V>, Option<B::V>, Option<C::V>, Option<D::V>), i: nat) -> (Option<A::V>, Option<B::V>, Option<C::V>, Option<D::V>) {
        if i == 0 {
            (from.0, slots.1, slots.2, slots.3)
        } else if i == 1 {
            (slots.0, from.1, slots.2, slots.3)
        } else if i == 2 {
            (slots.0, slots.1, from.2, slots.3)
        } else {
            (slots.0, slots.1, slots.2, from.3)
        }
    }

    fn empty() -> (s: (Option<A>, Option<B>, Option<C>, Option<D>)) { (None, None, None, None) }

    fn decode_slot(&mut self, i: usize, name: &'static str, d: &mut CborDecoder) -> (r: Result<(), DecodeError>) {
        if i == 0 {
            match field_value::<A>(name, d) {
                Ok(v) => {
                    self.0 = v;
                    Ok(())
                },
                Err(e) => Err(e),
            }
        } else if i == 1 {
            match field_value::<B>(name, d) {
                Ok(v) => {
                    self.1 = v;
                    Ok(())
                },
                Err(e) => Err(e),
            }
        } else if i == 2 {
            match field_value::<C>(name, d) {
                Ok(v) => {
                    self.2 = v;
                    Ok(())
                },
                Err(e) => Err(e),
            }
        } else {
            match field_value::<D>(name, d) {
                Ok(v) => {
                    self.3 = v;
                    Ok(())
                },
                Err(e) => Err(e),
            }
        }
    }

    fn decode_elem_slot(&mut self, i: usize, idx: usize, d: &mut CborDecoder) -> (r: Result<(), DecodeError>) {
        if i == 0 {
            match elem_value::<A>(idx, d) {
                Ok(v) => {
                    self.0 = v;
                    Ok(())
                },
                Err(e) => Err(e),
            }
        } else if i == 1 {
            match elem_value::<B>(idx, d) {
                Ok(v) => {
                    self.1 = v;
                    Ok(())
                },
                Err(e) => Err(e),
            }
        } else if i == 2 {
            match elem_value::<C>(idx, d) {
                Ok(v) => {
                    self.2 = v;
                    Ok(())
                },
                Err(e) => Err(e),
            }
        } else {
            match elem_value::<D>(idx, d) {
                Ok(v) => {
                    self.3 = v;
                    Ok(())
                },
                Err(e) => Err(e),
            }
        }
    }
}

/// The values of a structure of four fields.
impl<'a, A: Encodable, B: Encodable, C: Encodable, D: Encodable> FieldValues for (&'a A, &'a B, &'a C, &'a D) {
    open spec fn values_modeled() -> bool { A::encoding_modeled() && B::encoding_modeled() && C::encoding_modeled() && D::encoding_modeled() }

    open spec fn spec_value_encodes(&self, i: nat, out: Seq<u8>) -> bool {
        if i == 0 { (*self.0).spec_encodes(out) } else if i == 1 { (*self.1).spec_encodes(out) } else if i == 2 { (*self.2).spec_encodes(out) } else { (*self.3).spec_encodes(out) }
    }

    fn encode_value(&self, i: usize, e: &mut CborEncoder) -> (r: Result<(), EncodeError>) {
        if i == 0 { self.0.encode(e) } else if i == 1 { self.1.encode(e) } else if i == 2 { self.2.encode(e) } else { self.3.encode(e) }
    }
}

/// Slots for a structure of five fields, one per field.
impl<A: Decodable, B: Decodable, C: Decodable, D: Decodable, E: Decodable> FieldSet for (Option<A>, Option<B>, Option<C>, Option<D>, Option<E>) {
    open spec fn slots_modeled() -> bool { A::decoding_modeled() && B::decoding_modeled() && C::decoding_modeled() && D::decoding_modeled() && E::decoding_modeled() }

    open spec fn spec_empty() -> (Option<A::V>, Option<B::V>, Option<C::V>, Option<D::V>, Option<E::V>) { (None, None, None, None, None) }

    open spec fn spec_decode_slot(slots: (Option<A::V>, Option<B::V>, Option<C::V>, Option<D::V>, Option<E::V>), i: nat, name: Seq<char>, input: Seq<u8>, pos: nat, lim: Limits) -> (Result<(Option<A::V>, Option<B::V>, Option<C::V>, Option<D::V>, Option<E::V>), ErrorView>, nat) {
        if i == 0 {
            let (o, p) = A::spec_decode(input, pos, lim);
            (match slot_outcome(o, name) {
                Ok(v) => Ok((v, slots.1, slots.2, slots.3, slots.4)),
                Err(e) => Err(e),
            }, p)
        } else if i == 1 {
            let (o, p) = B::spec_decode(input, pos, lim);
            (match slot_outcome(o, name) {
                Ok(v) => Ok((slots.0, v, slots.2, slots.3, slots.4)),
                Err(e) => Err(e),
            }, p)
        } else if i == 2 {
            let (o, p) = C::spec_decode(input, pos, lim);
            (match slot_outcome(o, name) {
                Ok(v) => Ok((slots.0, slots.1, v, slots.3, slots.4)),
                Err(e) => Err(e),
            }, p)
        } else if i == 3 {
            let (o, p) = D::spec_decode(input, pos, lim);
            (match slot_outcome(o, name) {
                Ok(v) => Ok((slots.0, slots.1, slots.2, v, slots.4)),
                Err(e) => Err(e),
            }, p)
        } else {
            let (o, p) = E::spec_decode(input, pos, lim);
            (match slot_outcome(o, name) {
                Ok(v) => Ok((slots.0, slots.1, slots.2, slots.3, v)),
                Err(e) => Err(e),
            }, p)
        }
    }

    open spec fn spec_decode_elem_slot(slots: (Option<A::V>, Option<B::V>, Option<C::V>, Option<D::V>, Option<E::V>), i: nat, idx: usize, input: Seq<u8>, pos: nat, lim: Limits) -> (Result<(Option<A::V>, Option<B::V>, Option<C::V>, Option<D::V>, Option<E::V>), ErrorView>, nat) {
        if i == 0 {
            let (o, p) = A::spec_decode(input, pos, lim);
            (match elem_slot_outcome(o, idx) {
                Ok(v) => Ok((v, slots.1, slots.2, slots.3, slots.4)),
                Err(e) => Err(e),
            }, p)
        } else if i == 1 {
            let (o, p) = B::spec_decode(input, pos, lim);
            (match elem_slot_outcome(o, idx) {
                Ok(v) => Ok((slots.0, v, slots.2, slots.3, slots.4)),
                Err(e) => Err(e),
            }, p)
        } else if i == 2 {
            let (o, p) = C::spec_decode(input, pos, lim);
            (match elem_slot_outcome(o, idx) {
                Ok(v) => Ok((slots.0, slots.1, v, slots.3, slots.4)),
                Err(e) => Err(e),
            }, p)
        } else if i == 3 {
            let (o, p) = D::spec_decode(input, pos, lim);
            (match elem_slot_outcome(o, idx) {
                Ok(v) => Ok((slots.0, slots.1, slots.2, v, slots.4)),
                Err(e) => Err(e),
            }, p)
        } else {
            let (o, p) = E::spec_decode(input, pos, lim);
            (match elem_slot_outcome(o, idx) {
                Ok(v) => Ok((slots.0, slots.1, slots.2, slots.3, v)),
                Err(e) => Err(e),
            }, p)
        }
    }

    open spec fn spec_with(slots: (Option<A::V>, Option<B::V>, Option<C::V>, Option<D::V>, Option<E::V>), from: (Option<A::V>, Option<B::V>, Option<C::V>, Option<D::V>, Option<E::V>), i: nat) -> (Option<A::V>, Option<B::V>, Option<C::V>, Option<D::V>, Option<E::V>) {
        if i == 0 {
            (from.0, slots.1, slots.2, slots.3, slots.4)
        } else if i == 1 {
            (slots.0, from.1, slots.2, slots.3, slots.4)
        } else if i == 2 {
            (slots.0, slots.1, from.2, slots.3, slots.4)
        } else if i == 3 {
            (slots.0, slots.1, slots.2, from.3, slots.4)
        } else {
            (slots.0, slots.1, slots.2, slots.3, from.4)
        }
    }

    fn empty() -> (s: (Option<A>, Option<B>, Option<C>, Option<D>, Option<E>)) { (None, None, None, None, None) }

    fn decode_slot(&mut self, i: usize, name: &'static str, d: &mut CborDecoder) -> (r: Result<(), DecodeError>) {
        if i == 0 {
            match field_value::<A>(name, d) {
                Ok(v) => {
                    self.0 = v;
                    Ok(())
                },
                Err(e) => Err(e),
            }
        } else if i == 1 {
            match field_value::<B>(name, d) {
                Ok(v) => {
                    self.1 = v;
                    Ok(())
                },
                Err(e) => Err(e),
            }
        } else if i == 2 {
            match field_value::<C>(name, d) {
                Ok(v) => {
                    self.2 = v;
                    Ok(())
                },
                Err(e) => Err(e),
            }
        } else if i == 3 {
            match field_value::<D>(name, d) {
                Ok(v) => {
                    self.3 = v;
                    Ok(())
                },
                Err(e) => Err(e),
            }
        } else {
            match field_value::<E>(name, d) {
                Ok(v) => {
                    self.4 = v;
                    Ok(())
                },
                Err(e) => Err(e),
            }
        }
    }

    fn decode_elem_slot(&mut self, i: usize, idx: usize, d: &mut CborDecoder) -> (r: Result<(), DecodeError>) {
        if i == 0 {
            match elem_value::<A>(idx, d) {
                Ok(v) => {
                    self.0 = v;
                    Ok(())
                },
                Err(e) => Err(e),
            }
        } else if i == 1 {
            match elem_value::<B>(idx, d) {
                Ok(v) => {
                    self.1 = v;
                    Ok(())
                },
                Err(e) => Err(e),
            }
        } else if i == 2 {
            match elem_value::<C>(idx, d) {
                Ok(v) => {
                    self.2 = v;
                    Ok(())
                },
                Err(e) => Err(e),
            }
        } else if i == 3 {
            match elem_value::<D>(idx, d) {
                Ok(v) => {
                    self.3 = v;
                    Ok(())
                },
                Err(e) => Err(e),
            }
        } else {
            match elem_value::<E>(idx, d) {
                Ok(v) => {
                    self.4 = v;
                    Ok(())
                },
                Err(e) => Err(e),
            }
        }
    }
}

/// The values of a structure of five fields.
impl<'a, A: Encodable, B: Encodable, C: Encodable, D: Encodable, E: Encodable> FieldValues for (&'a A, &'a B, &'a C, &'a D, &'a E) {
    open spec fn values_modeled() -> bool { A::encoding_modeled() && B::encoding_modeled() && C::encoding_modeled() && D::encoding_modeled() && E::encoding_modeled() }

    open spec fn spec_value_encodes(&self, i: nat, out: Seq<u8>) -> bool {
        if i == 0 { (*self.0).spec_encodes(out) } else if i == 1 { (*self.1).spec_encodes(out) } else if i == 2 { (*self.2).spec_encodes(out) } else if i == 3 { (*self.3).spec_encodes(out) } else { (*self.4).spec_encodes(out) }
    }

    fn encode_value(&self, i: usize, e: &mut CborEncoder) -> (r: Result<(), EncodeError>) {
        if i == 0 { self.0.encode(e) } else if i == 1 { self.1.encode(e) } else if i == 2 { self.2.encode(e) } else if i == 3 { self.3.encode(e) } else { self.4.encode(e) }
    }
}

/// Slots for a structure of six fields, one per field.
impl<A: Decodable, B: Decodable, C: Decodable, D: Decodable, E: Decodable, F: Decodable> FieldSet for (Option<A>, Option<B>, Option<C>, Option<D>, Option<E>, Option<F>) {
    open spec fn slots_modeled() -> bool { A::decoding_modeled() && B::decoding_modeled() && C::decoding_modeled() && D::decoding_modeled() && E::decoding_modeled() && F::decoding_modeled() }

    open spec fn spec_empty() -> (Option<A::V>, Option<B::V>, Option<C::V>, Option<D::V>, Option<E::V>, Option<F::V>) { (None, None, None, None, None, None) }

    open spec fn spec_decode_slot(slots: (Option<A::V>, Option<B::V>, Option<C::V>, Option<D::V>, Option<E::V>, Option<F::V>), i: nat, name: Seq<char>, input: Seq<u8>, pos: nat, lim: Limits) -> (Result<(Option<A::V>, Option<B::V>, Option<C::V>, Option<D::V>, Option<E::V>, Option<F::V>), ErrorView>, nat) {
        if i == 0 {
            let (o, p) = A::spec_decode(input, pos, lim);
            (match slot_outcome(o, name) {
                Ok(v) => Ok((v, slots.1, slots.2, slots.3, slots.4, slots.5)),
                Err(e) => Err(e),
            }, p)
        } else if i == 1 {
            let (o, p) = B::spec_decode(input, pos, lim);
            (match slot_outcome(o, name) {
                Ok(v) => Ok((slots.0, v, slots.2, slots.3, slots.4, slots.5)),
                Err(e) => Err(e),
            }, p)
        } else if i == 2 {
            let (o, p) = C::spec_decode(input, pos, lim);
            (match slot_outcome(o, name) {
                Ok(v) => Ok((slots.0, slots.1, v, slots.3, slots.4, slots.5)),
                Err(e) => Err(e),
            }, p)
        } else if i == 3 {
            let (o, p) = D::spec_decode(input, pos, lim);
            (match slot_outcome(o, name) {
                Ok(v) => Ok((slots.0, slots.1, slots.2, v, slots.4, slots.5)),
                Err(e) => Err(e),
            }, p)
        } else if i == 4 {
            let (o, p) = E::spec_decode(input, pos, lim);
            (match slot_outcome(o, name) {
                Ok(v) => Ok((slots.0, slots.1, slots.2, slots.3, v, slots.5)),
                Err(e) => Err(e),
            }, p)
        } else {
            let (o, p) = F::spec_decode(input, pos, lim);
            (match slot_outcome(o, name) {
                Ok(v) => Ok((slots.0, slots.1, slots.2, slots.3, slots.4, v)),
                Err(e) => Err(e),
            }, p)
        }
    }

    open spec fn spec_decode_elem_slot(slots: (Option<A::V>, Option<B::V>, Option<C::V>, Option<D::V>, Option<E::V>, Option<F::V>), i: nat, idx: usize, input: Seq<u8>, pos: nat, lim: Limits) -> (Result<(Option<A::V>, Option<B::V>, Option<C::V>, Option<D::V>, Option<E::V>, Option<F::V>), ErrorView>, nat) {
        if i == 0 {
            let (o, p) = A::spec_decode(input, pos, lim);
            (match elem_slot_outcome(o, idx) {
                Ok(v) => Ok((v, slots.1, slots.2, slots.3, slots.4, slots.5)),
                Err(e) => Err(e),
            }, p)
        } else if i == 1 {
            let (o, p) = B::spec_decode(input, pos, lim);
            (match elem_slot_outcome(o, idx) {
                Ok(v) => Ok((slots.0, v, slots.2, slots.3, slots.4, slots.5)),
                Err(e) => Err(e),
            }, p)
        } else if i == 2 {
            let (o, p) = C::spec_decode(input, pos, lim);
            (match elem_slot_outcome(o, idx) {
                Ok(v) => Ok((slots.0, slots.1, v, slots.3, slots.4, slots.5)),
                Err(e) => Err(e),
            }, p)
        } else if i == 3 {
            let (o, p) = D::spec_decode(input, pos, lim);
            (match elem_slot_outcome(o, idx) {
                Ok(v) => Ok((slots.0, slots.1, slots.2, v, slots.4, slots.5)),
                Err(e) => Err(e),
            }, p)
        } else if i == 4 {
            let (o, p) = E::spec_decode(input, pos, lim);
            (match elem_slot_outcome(o, idx) {
                Ok(v) => Ok((slots.0, slots.1, slots.2, slots.3, v, slots.5)),
                Err(e) => Err(e),
            }, p)
        } else {
            let (o, p) = F::spec_decode(input, pos, lim);
            (match elem_slot_outcome(o, idx) {
                Ok(v) => Ok((slots.0, slots.1, slots.2, slots.3, slots.4, v)),
                Err(e) => Err(e),
            }, p)
        }
    }

    open spec fn spec_with(slots: (Option<A::V>, Option<B::V>, Option<C::V>, Option<D::V>, Option<E::V>, Option<F::V>), from: (Option<A::V>, Option<B::V>, Option<C::V>, Option<D::V>, Option<E::V>, Option<F::V>), i: nat) -> (Option<A::V>, Option<B::V>, Option<C::V>, Option<D::V>, Option<E::V>, Option<F::V>) {
        if i == 0 {
            (from.0, slots.1, slots.2, slots.3, slots.4, slots.5)
        } else if i == 1 {
            (slots.0, from.1, slots.2, slots.3, slots.4, slots.5)
        } else if i == 2 {
            (slots.0, slots.1, from.2, slots.3, slots.4, slots.5)
        } else if i == 3 {
            (slots.0, slots.1, slots.2, from.3, slots.4, slots.5)
        } else if i == 4 {
            (slots.0, slots.1, slots.2, slots.3, from.4, slots.5)
        } else {
            (slots.0, slots.1, slots.2, slots.3, slots.4, from.5)
        }
    }

    fn empty() -> (s: (Option<A>, Option<B>, Option<C>, Option<D>, Option<E>, Option<F>)) { (None, None, None, None, None, None) }

    fn decode_slot(&mut self, i: usize, name: &'static str, d: &mut CborDecoder) -> (r: Result<(), DecodeError>) {
        if i == 0 {
            match field_value::<A>(name, d) {
                Ok(v) => {
                    self.0 = v;
                    Ok(())
                },
                Err(e) => Err(e),
            }
        } else if i == 1 {
            match field_value::<B>(name, d) {
                Ok(v) => {
                    self.1 = v;
                    Ok(())
                },
                Err(e) => Err(e),
            }
        } else if i == 2 {
            match field_value::<C>(name, d) {
                Ok(v) => {
                    self.2 = v;
                    Ok(())
                },
                Err(e) => Err(e),
            }
        } else if i == 3 {
            match field_value::<D>(name, d) {
                Ok(v) => {
                    self.3 = v;
                    Ok(())
                },
                Err(e) => Err(e),
            }
        } else if i == 4 {
            match field_value::<E>(name, d) {
                Ok(v) => {
                    self.4 = v;
                    Ok(())
                },
                Err(e) => Err(e),
            }
        } else {
            match field_value::<F>(name, d) {
                Ok(v) => {
                    self.5 = v;
                    Ok(())
                },
                Err(e) => Err(e),
            }
        }
    }

    fn decode_elem_slot(&mut self, i: usize, idx: usize, d: &mut CborDecoder) -> (r: Result<(), DecodeError>) {
        if i == 0 {
            match elem_value::<A>(idx, d) {
                Ok(v) => {
                    self.0 = v;
                    Ok(())
                },
                Err(e) => Err(e),
            }
        } else if i == 1 {
            match elem_value::<B>(idx, d) {
                Ok(v) => {
                    self.1 = v;
                    Ok(())
                },
                Err(e) => Err(e),
            }
        } else if i == 2 {
            match elem_value::<C>(idx, d) {
                Ok(v) => {
                    self.2 = v;
                    Ok(())
                },
                Err(e) => Err(e),
            }
        } else if i == 3 {
            match elem_value::<D>(idx, d) {
                Ok(v) => {
                    self.3 = v;
                    Ok(())
                },
                Err(e) => Err(e),
            }
        } else if i == 4 {
            match elem_value::<E>(idx, d) {
                Ok(v) => {
                    self.4 = v;
                    Ok(())
                },
                Err(e) => Err(e),
            }
        } else {
            match elem_value::<F>(idx, d) {
                Ok(v) => {
                    self.5 = v;
                    Ok(())
                },
                Err(e) => Err(e),
            }
        }
    }
}

/// The values of a structure of six fields.
impl<'a, A: Encodable, B: Encodable, C: Encodable, D: Encodable, E: Encodable, F: Encodable> FieldValues for (&'a A, &'a B, &'a C, &'a D, &'a E, &'a F) {
    open spec fn values_modeled() -> bool { A::encoding_modeled() && B::encoding_modeled() && C::encoding_modeled() && D::encoding_modeled() && E::encoding_modeled() && F::encoding_modeled() }

    open spec fn spec_value_encodes(&self, i: nat, out: Seq<u8>) -> bool {
        if i == 0 { (*self.0).spec_encodes(out) } else if i == 1 { (*self.1).spec_encodes(out) } else if i == 2 { (*self.2).spec_encodes(out) } else if i == 3 { (*self.3).spec_encodes(out) } else if i == 4 { (*self.4).spec_encodes(out) } else { (*self.5).spec_encodes(out) }
    }

    fn encode_value(&self, i: usize, e: &mut CborEncoder) -> (r: Result<(), EncodeError>) {
        if i == 0 { self.0.encode(e) } else if i == 1 { self.1.encode(e) } else if i == 2 { self.2.encode(e) } else if i == 3 { self.3.encode(e) } else if i == 4 { self.4.encode(e) } else { self.5.encode(e) }
    }
}

/// Slots for a structure of seven fields, one per field.
impl<A: Decodable, B: Decodable, C: Decodable, D: Decodable, E: Decodable, F: Decodable, G: Decodable> FieldSet for (Option<A>, Option<B>, Option<C>, Option<D>, Option<E>, Option<F>, Option<G>) {
    open spec fn slots_modeled() -> bool { A::decoding_modeled() && B::decoding_modeled() && C::decoding_modeled() && D::decoding_modeled() && E::decoding_modeled() && F::decoding_modeled() && G::decoding_modeled() }

    open spec fn spec_empty() -> (Option<A::V>, Option<B::V>, Option<C::V>, Option<D::V>, Option<E::V>, Option<F::V>, Option<G::V>) { (None, None, None, None, None, None, None) }

    open spec fn spec_decode_slot(slots: (Option<A::V>, Option<B::V>, Option<C::V>, Option<D::V>, Option<E::V>, Option<F::V>, Option<G::V>), i: nat, name: Seq<char>, input: Seq<u8>, pos: nat, lim: Limits) -> (Result<(Option<A::V>, Option<B::V>, Option<C::V>, Option<D::V>, Option<E::V>, Option<F::V>, Option<G::V>), ErrorView>, nat) {
        if i == 0 {
            let (o, p) = A::spec_decode(input, pos, lim);
            (match slot_outcome(o, name) {
                Ok(v) => Ok((v, slots.1, slots.2, slots.3, slots.4, slots.5, slots.6)),
                Err(e) => Err(e),
            }, p)
        } else if i == 1 {
            let (o, p) = B::spec_decode(input, pos, lim);
            (match slot_outcome(o, name) {
                Ok(v) => Ok((slots.0, v, slots.2, slots.3, slots.4, slots.5, slots.6)),
                Err(e) => Err(e),
            }, p)
        } else if i == 2 {
            let (o, p) = C::spec_decode(input, pos, lim);
            (match slot_outcome(o, name) {
                Ok(v) => Ok((slots.0, slots.1, v, slots.3, slots.4, slots.5, slots.6)),
                Err(e) => Err(e),
            }, p)
        } else if i == 3 {
            let (o, p) = D::spec_decode(input, pos, lim);
            (match slot_outcome(o, name) {
                Ok(v) => Ok((slots.0, slots.1, slots.2, v, slots.4, slots.5, slots.6)),
                Err(e) => Err(e),
            }, p)
        } else if i == 4 {
            let (o, p) = E::spec_decode(input, pos, lim);
            (match slot_outcome(o, name) {
                Ok(v) => Ok((slots.0, slots.1, slots.2, slots.3, v, slots.5, slots.6)),
                Err(e) => Err(e),
            }, p)
        } else if i == 5 {
            let (o, p) = F::spec_decode(input, pos, lim);
            (match slot_outcome(o, name) {
                Ok(v) => Ok((slots.0, slots.1, slots.2, slots.3, slots.4, v, slots.6)),
                Err(e) => Err(e),
            }, p)
        } else {
            let (o, p) = G::spec_decode(input, pos, lim);
            (match slot_outcome(o, name) {
                Ok(v) => Ok((slots.0, slots.1, slots.2, slots.3, slots.4, slots.5, v)),
                Err(e) => Err(e),
            }, p)
        }
    }

    open spec fn spec_decode_elem_slot(slots: (Option<A::V>, Option<B::V>, Option<C::V>, Option<D::V>, Option<E::V>, Option<F::V>, Option<G::V>), i: nat, idx: usize, input: Seq<u8>, pos: nat, lim: Limits) -> (Result<(Option<A::V>, Option<B::V>, Option<C::V>, Option<D::V>, Option<E::V>, Option<F::V>, Option<G::V>), ErrorView>, nat) {
        if i == 0 {
            let (o, p) = A::spec_decode(input, pos, lim);
            (match elem_slot_outcome(o, idx) {
                Ok(v) => Ok((v, slots.1, slots.2, slots.3, slots.4, slots.5, slots.6)),
                Err(e) => Err(e),
            }, p)
        } else if i == 1 {
            let (o, p) = B::spec_decode(input, pos, lim);
            (match elem_slot_outcome(o, idx) {
                Ok(v) => Ok((slots.0, v, slots.2, slots.3, slots.4, slots.5, slots.6)),
                Err(e) => Err(e),
            }, p)
        } else if i == 2 {
            let (o, p) = C::spec_decode(input, pos, lim);
            (match elem_slot_outcome(o, idx) {
                Ok(v) => Ok((slots.0, slots.1, v, slots.3, slots.4, slots.5, slots.6)),
                Err(e) => Err(e),
            }, p)
        } else if i == 3 {
            let (o, p) = D::spec_decode(input, pos, lim);
            (match elem_slot_outcome(o, idx) {
                Ok(v) => Ok((slots.0, slots.1, slots.2, v, slots.4, slots.5, slots.6)),
                Err(e) => Err(e),
            }, p)
        } else if i == 4 {
            let (o, p) = E::spec_decode(input, pos, lim);
            (match elem_slot_outcome(o, idx) {
                Ok(v) => Ok((slots.0, slots.1, slots.2, slots.3, v, slots.5, slots.6)),
                Err(e) => Err(e),
            }, p)
        } else if i == 5 {
            let (o, p) = F::spec_decode(input, pos, lim);
            (match elem_slot_outcome(o, idx) {
                Ok(v) => Ok((slots.0, slots.1, slots.2, slots.3, slots.4, v, slots.6)),
                Err(e) => Err(e),
            }, p)
        } else {
            let (o, p) = G::spec_decode(input, pos, lim);
            (match elem_slot_outcome(o, idx) {
                Ok(v) => Ok((slots.0, slots.1, slots.2, slots.3, slots.4, slots.5, v)),
                Err(e) => Err(e),
            }, p)
        }
    }

    open spec fn spec_with(slots: (Option<A::V>, Option<B::V>, Option<C::V>, Option<D::V>, Option<E::V>, Option<F::V>, Option<G::V>), from: (Option<A::V>, Option<B::V>, Option<C::V>, Option<D::V>, Option<E::V>, Option<F::V>, Option<G::V>), i: nat) -> (Option<A::V>, Option<B::V>, Option<C::V>, Option<D::V>, Option<E::V>, Option<F::V>, Option<G::V>) {
        if i == 0 {
            (from.0, slots.1, slots.2, slots.3, slots.4, slots.5, slots.6)
        } else if i == 1 {
            (slots.0, from.1, slots.2, slots.3, slots.4, slots.5, slots.6)
        } else if i == 2 {
            (slots.0, slots.1, from.2, slots.3, slots.4, slots.5, slots.6)
        } else if i == 3 {
            (slots.0, slots.1, slots.2, from.3, slots.4, slots.5, slots.6)
        } else if i == 4 {
            (slots.0, slots.1, slots.2, slots.3, from.4, slots.5, slots.6)
        } else if i == 5 {
            (slots.0, slots.1, slots.2, slots.3, slots.4, from.5, slots.6)
        } else {
            (slots.0, slots.1, slots.2, slots.3, slots.4, slots.5, from.6)
        }
    }

    fn empty() -> (s: (Option<A>, Option<B>, Option<C>, Option<D>, Option<E>, Option<F>, Option<G>)) { (None, None, None, None, None, None, None) }

    fn decode_slot(&mut self, i: usize, name: &'static str, d: &mut CborDecoder) -> (r: Result<(), DecodeError>) {
        if i == 0 {
            match field_value::<A>(name, d) {
                Ok(v) => {
                    self.0 = v;
                    Ok(())
                },
                Err(e) => Err(e),
            }
        } else if i == 1 {
            match field_value::<B>(name, d) {
                Ok(v) => {
                    self.1 = v;
                    Ok(())
                },
                Err(e) => Err(e),
            }
        } else if i == 2 {
            match field_value::<C>(name, d) {
                Ok(v) => {
                    self.2 = v;
                    Ok(())
                },
                Err(e) => Err(e),
            }
        } else if i == 3 {
            match field_value::<D>(name, d) {
                Ok(v) => {
                    self.3 = v;
                    Ok(())
                },
                Err(e) => Err(e),
            }
        } else if i == 4 {
            match field_value::<E>(name, d) {
                Ok(v) => {
                    self.4 = v;
                    Ok(())
                },
                Err(e) => Err(e),
            }
        } else if i == 5 {
            match field_value::<F>(name, d) {
                Ok(v) => {
                    self.5 = v;
                    Ok(())
                },
                Err(e) => Err(e),
            }
        } else {
            match field_value::<G>(name, d) {
                Ok(v) => {
                    self.6 = v;
                    Ok(())
                },
                Err(e) => Err(e),
            }
        }
    }

    fn decode_elem_slot(&mut self, i: usize, idx: usize, d: &mut CborDecoder) -> (r: Result<(), DecodeError>) {
        if i == 0 {
            match elem_value::<A>(idx, d) {
                Ok(v) => {
                    self.0 = v;
                    Ok(())
                },
                Err(e) => Err(e),
            }
        } else if i == 1 {
            match elem_value::<B>(idx, d) {
                Ok(v) => {
                    self.1 = v;
                    Ok(())
                },
                Err(e) => Err(e),
            }
        } else if i == 2 {
            match elem_value::<C>(idx, d) {
                Ok(v) => {
                    self.2 = v;
                    Ok(())
                },
                Err(e) => Err(e),
            }
        } else if i == 3 {
            match elem_value::<D>(idx, d) {
                Ok(v) => {
                    self.3 = v;
                    Ok(())
                },
                Err(e) => Err(e),
            }
        } else if i == 4 {
            match elem_value::<E>(idx, d) {
                Ok(v) => {
                    self.4 = v;
                    Ok(())
                },
                Err(e) => Err(e),
            }
        } else if i == 5 {
            match elem_value::<F>(idx, d) {
                Ok(v) => {
                    self.5 = v;
                    Ok(())
                },
                Err(e) => Err(e),
            }
        } else {
            match elem_value::<G>(idx, d) {
                Ok(v) => {
                    self.6 = v;
                    Ok(())
                },
                Err(e) => Err(e),
            }
        }
    }
}

/// The values of a structure of seven fields.
impl<'a, A: Encodable, B: Encodable, C: Encodable, D: Encodable, E: Encodable, F: Encodable, G: Encodable> FieldValues for (&'a A, &'a B, &'a C, &'a D, &'a E, &'a F, &'a G) {
    open spec fn values_modeled() -> bool { A::encoding_modeled() && B::encoding_modeled() && C::encoding_modeled() && D::encoding_modeled() && E::encoding_modeled() && F::encoding_modeled() && G::encoding_modeled() }

    open spec fn spec_value_encodes(&self, i: nat, out: Seq<u8>) -> bool {
        if i == 0 { (*self.0).spec_encodes(out) } else if i == 1 { (*self.1).spec_encodes(out) } else if i == 2 { (*self.2).spec_encodes(out) } else if i == 3 { (*self.3).spec_encodes(out) } else if i == 4 { (*self.4).spec_encodes(out) } else if i == 5 { (*self.5).spec_encodes(out) } else { (*self.6).spec_encodes(out) }
    }

    fn encode_value(&self, i: usize, e: &mut CborEncoder) -> (r: Result<(), EncodeError>) {
        if i == 0 { self.0.encode(e) } else if i == 1 { self.1.encode(e) } else if i == 2 { self.2.encode(e) } else if i == 3 { self.3.encode(e) } else if i == 4 { self.4.encode(e) } else if i == 5 { self.5.encode(e) } else { self.6.encode(e) }
    }
}

/// Slots for a structure of eight fields, one per field.
impl<A: Decodable, B: Decodable, C: Decodable, D: Decodable, E: Decodable, F: Decodable, G: Decodable, H: Decodable> FieldSet for (Option<A>, Option<B>, Option<C>, Option<D>, Option<E>, Option<F>, Option<G>, Option<H>) {
    open spec fn slots_modeled() -> bool { A::decoding_modeled() && B::decoding_modeled() && C::decoding_modeled() && D::decoding_modeled() && E::decoding_modeled() && F::decoding_modeled() && G::decoding_modeled() && H::decoding_modeled() }

    open spec fn spec_empty() -> (Option<A::V>, Option<B::V>, Option<C::V>, Option<D::V>, Option<E::V>, Option<F::V>, Option<G::V>, Option<H::V>) { (None, None, None, None, None, None, None, None) }

    open spec fn spec_decode_slot(slots: (Option<A::V>, Option<B::V>, Option<C::V>, Option<D::V>, Option<E::V>, Option<F::V>, Option<G::V>, Option<H::V>), i: nat, name: Seq<char>, input: Seq<u8>, pos: nat, lim: Limits) -> (Result<(Option<A::V>, Option<B::V>, Option<C::V>, Option<D::V>, Option<E::V>, Option<F::V>, Option<G::V>, Option<H::V>), ErrorView>, nat) {
        if i == 0 {
            let (o, p) = A::spec_decode(input, pos, lim);
            (match slot_outcome(o, name) {
                Ok(v) => Ok((v, slots.1, slots.2, slots.3, slots.4, slots.5, slots.6, slots.7)),
                Err(e) => Err(e),
            }, p)
        } else if i == 1 {
            let (o, p) = B::spec_decode(input, pos, lim);
            (match slot_outcome(o, name) {
                Ok(v) => Ok((slots.0, v, slots.2, slots.3, slots.4, slots.5, slots.6, slots.7)),
                Err(e) => Err(e),
            }, p)
        } else if i == 2 {
            let (o, p) = C::spec_decode(input, pos, lim);
            (match slot_outcome(o, name) {
                Ok(v) => Ok((slots.0, slots.1, v, slots.3, slots.4, slots.5, slots.6, slots.7)),
                Err(e) => Err(e),
            }, p)
        } else if i == 3 {
            let (o, p) = D::spec_decode(input, pos, lim);
            (match slot_outcome(o, name) {
                Ok(v) => Ok((slots.0, slots.1, slots.2, v, slots.4, slots.5, slots.6, slots.7)),
                Err(e) => Err(e),
            }, p)
        } else if i == 4 {
            let (o, p) = E::spec_decode(input, pos, lim);
            (match slot_outcome(o, name) {
                Ok(v) => Ok((slots.0, slots.1, slots.2, slots.3, v, slots.5, slots.6, slots.7)),
                Err(e) => Err(e),
            }, p)
        } else if i == 5 {
            let (o, p) = F::spec_decode(input, pos, lim);
            (match slot_outcome(o, name) {
                Ok(v) => Ok((slots.0, slots.1, slots.2, slots.3, slots.4, v, slots.6, slots.7)),
                Err(e) => Err(e),
            }, p)
        } else if i == 6 {
            let (o, p) = G::spec_decode(input, pos, lim);
            (match slot_outcome(o, name) {
                Ok(v) => Ok((slots.0, slots.1, slots.2, slots.3, slots.4, slots.5, v, slots.7)),
                Err(e) => Err(e),
            }, p)
        } else {
            let (o, p) = H::spec_decode(input, pos, lim);
            (match slot_outcome(o, name) {
                Ok(v) => Ok((slots.0, slots.1, slots.2, slots.3, slots.4, slots.5, slots.6, v)),
                Err(e) => Err(e),
            }, p)
        }
    }

    open spec fn spec_decode_elem_slot(slots: (Option<A::V>, Option<B::V>, Option<C::V>, Option<D::V>, Option<E::V>, Option<F::V>, Option<G::V>, Option<H::V>), i: nat, idx: usize, input: Seq<u8>, pos: nat, lim: Limits) -> (Result<(Option<A::V>, Option<B::V>, Option<C::V>, Option<D::V>, Option<E::V>, Option<F::V>, Option<G::V>, Option<H::V>), ErrorView>, nat) {
        if i == 0 {
            let (o, p) = A::spec_decode(input, pos, lim);
            (match elem_slot_outcome(o, idx) {
                Ok(v) => Ok((v, slots.1, slots.2, slots.3, slots.4, slots.5, slots.6, slots.7)),
                Err(e) => Err(e),
            }, p)
        } else if i == 1 {
            let (o, p) = B::spec_decode(input, pos, lim);
            (match elem_slot_outcome(o, idx) {
                Ok(v) => Ok((slots.0, v, slots.2, slots.3, slots.4, slots.5, slots.6, slots.7)),
                Err(e) => Err(e),
            }, p)
        } else if i == 2 {
            let (o, p) = C::spec_decode(input, pos, lim);
            (match elem_slot_outcome(o, idx) {
                Ok(v) => Ok((slots.0, slots.1, v, slots.3, slots.4, slots.5, slots.6, slots.7)),
                Err(e) => Err(e),
            }, p)
        } else if i == 3 {
            let (o, p) = D::spec_decode(input, pos, lim);
            (match elem_slot_outcome(o, idx) {
                Ok(v) => Ok((slots.0, slots.1, slots.2, v, slots.4, slots.5, slots.6, slots.7)),
                Err(e) => Err(e),
            }, p)
        } else if i == 4 {
            let (o, p) = E::spec_decode(input, pos, lim);
            (match elem_slot_outcome(o, idx) {
                Ok(v) => Ok((slots.0, slots.1, slots.2, slots.3, v, slots.5, slots.6, slots.7)),
                Err(e) => Err(e),
            }, p)
        } else if i == 5 {
            let (o, p) = F::spec_decode(input, pos, lim);
            (match elem_slot_outcome(o, idx) {
                Ok(v) => Ok((slots.0, slots.1, slots.2, slots.3, slots.4, v, slots.6, slots.7)),
                Err(e) => Err(e),
            }, p)
        } else if i == 6 {
            let (o, p) = G::spec_decode(input, pos, lim);
            (match elem_slot_outcome(o, idx) {
                Ok(v) => Ok((slots.0, slots.1, slots.2, slots.3, slots.4, slots.5, v, slots.7)),
                Err(e) => Err(e),
            }, p)
        } else {
            let (o, p) = H::spec_decode(input, pos, lim);
            (match elem_slot_outcome(o, idx) {
                Ok(v) => Ok((slots.0, slots.1, slots.2, slots.3, slots.4, slots.5, slots.6, v)),
                Err(e) => Err(e),
            }, p)
        }
    }

    open spec fn spec_with(slots: (Option<A::V>, Option<B::V>, Option<C::V>, Option<D::V>, Option<E::V>, Option<F::V>, Option<G::V>, Option<H::V>), from: (Option<A::V>, Option<B::V>, Option<C::V>, Option<D::V>, Option<E::V>, Option<F::V>, Option<G::V>, Option<H::V>), i: nat) -> (Option<A::V>, Option<B::V>, Option<C::V>, Option<D::V>, Option<E::V>, Option<F::V>, Option<G::V>, Option<H::V>) {
        if i == 0 {
            (from.0, slots.1, slots.2, slots.3, slots.4, slots.5, slots.6, slots.7)
        } else if i == 1 {
            (slots.0, from.1, slots.2, slots.3, slots.4, slots.5, slots.6, slots.7)
        } else if i == 2 {
            (slots.0, slots.1, from.2, slots.3, slots.4, slots.5, slots.6, slots.7)
        } else if i == 3 {
            (slots.0, slots.1, slots.2, from.3, slots.4, slots.5, slots.6, slots.7)
        } else if i == 4 {
            (slots.0, slots.1, slots.2, slots.3, from.4, slots.5, slots.6, slots.7)
        } else if i == 5 {
            (slots.0, slots.1, slots.2, slots.3, slots.4, from.5, slots.6, slots.7)
        } else if i == 6 {
            (slots.0, slots.1, slots.2, slots.3, slots.4, slots.5, from.6, slots.7)
        } else {
            (slots.0, slots.1, slots.2, slots.3, slots.4, slots.5, slots.6, from.7)
        }
    }

    fn empty() -> (s: (Option<A>, Option<B>, Option<C>, Option<D>, Option<E>, Option<F>, Option<G>, Option<H>)) { (None, None, None, None, None, None, None, None) }

    fn decode_slot(&mut self, i: usize, name: &'static str, d: &mut CborDecoder) -> (r: Result<(), DecodeError>) {
        if i == 0 {
            match field_value::<A>(name, d) {
                Ok(v) => {
                    self.0 = v;
                    Ok(())
                },
                Err(e) => Err(e),
            }
        } else if i == 1 {
            match field_value::<B>(name, d) {
                Ok(v) => {
                    self.1 = v;
                    Ok(())
                },
                Err(e) => Err(e),
            }
        } else if i == 2 {
            match field_value::<C>(name, d) {
                Ok(v) => {
                    self.2 = v;
                    Ok(())
                },
                Err(e) => Err(e),
            }
        } else if i == 3 {
            match field_value::<D>(name, d) {
                Ok(v) => {
                    self.3 = v;
                    Ok(())
                },
                Err(e) => Err(e),
            }
        } else if i == 4 {
            match field_value::<E>(name, d) {
                Ok(v) => {
                    self.4 = v;
                    Ok(())
                },
                Err(e) => Err(e),
            }
        } else if i == 5 {
            match field_value::<F>(name, d) {
                Ok(v) => {
                    self.5 = v;
                    Ok(())
                },
                Err(e) => Err(e),
            }
        } else if i == 6 {
            match field_value::<G>(name, d) {
                Ok(v) => {
                    self.6 = v;
                    Ok(())
                },
                Err(e) => Err(e),
            }
        } else {
            match field_value::<H>(name, d) {
                Ok(v) => {
                    self.7 = v;
                    Ok(())
                },
                Err(e) => Err(e),
            }
        }
    }

    fn decode_elem_slot(&mut self, i: usize, idx: usize, d: &mut CborDecoder) -> (r: Result<(), DecodeError>) {
        if i == 0 {
            match elem_value::<A>(idx, d) {
                Ok(v) => {
                    self.0 = v;
                    Ok(())
                },
                Err(e) => Err(e),
            }
        } else if i == 1 {
            match elem_value::<B>(idx, d) {
                Ok(v) => {
                    self.1 = v;
                    Ok(())
                },
                Err(e) => Err(e),
            }
        } else if i == 2 {
            match elem_value::<C>(idx, d) {
                Ok(v) => {
                    self.2 = v;
                    Ok(())
                },
                Err(e) => Err(e),
            }
        } else if i == 3 {
            match elem_value::<D>(idx, d) {
                Ok(v) => {
                    self.3 = v;
                    Ok(())
                },
                Err(e) => Err(e),
            }
        } else if i == 4 {
            match elem_value::<E>(idx, d) {
                Ok(v) => {
                    self.4 = v;
                    Ok(())
                },
                Err(e) => Err(e),
            }
        } else if i == 5 {
            match elem_value::<F>(idx, d) {
                Ok(v) => {
                    self.5 = v;
                    Ok(())
                },
                Err(e) => Err(e),
            }
        } else if i == 6 {
            match elem_value::<G>(idx, d) {
                Ok(v) => {
                    self.6 = v;
                    Ok(())
                },
                Err(e) => Err(e),
            }
        } else {
            match elem_value::<H>(idx, d) {
                Ok(v) => {
                    self.7 = v;
                    Ok(())
                },
                Err(e) => Err(e),
            }
        }
    }
}

/// The values of a structure of eight fields.
impl<'a, A: Encodable, B: Encodable, C: Encodable, D: Encodable, E: Encodable, F: Encodable, G: Encodable, H: Encodable> FieldValues for (&'a A, &'a B, &'a C, &'a D, &'a E, &'a F, &'a G, &'a H) {
    open spec fn values_modeled() -> bool { A::encoding_modeled() && B::encoding_modeled() && C::encoding_modeled() && D::encoding_modeled() && E::encoding_modeled() && F::encoding_modeled() && G::encoding_modeled() && H::encoding_modeled() }

    open spec fn spec_value_encodes(&self, i: nat, out: Seq<u8>) -> bool {
        if i == 0 { (*self.0).spec_encodes(out) } else if i == 1 { (*self.1).spec_encodes(out) } else if i == 2 { (*self.2).spec_encodes(out) } else if i == 3 { (*self.3).spec_encodes(out) } else if i == 4 { (*self.4).spec_encodes(out) } else if i == 5 { (*self.5).spec_encodes(out) } else if i == 6 { (*self.6).spec_encodes(out) } else { (*self.7).spec_encodes(out) }
    }

    fn encode_value(&self, i: usize, e: &mut CborEncoder) -> (r: Result<(), EncodeError>) {
        if i == 0 { self.0.encode(e) } else if i == 1 { self.1.encode(e) } else if i == 2 { self.2.encode(e) } else if i == 3 { self.3.encode(e) } else if i == 4 { self.4.encode(e) } else if i == 5 { self.5.encode(e) } else if i == 6 { self.6.encode(e) } else { self.7.encode(e) }
    }
}

} // verus!
