//! Encoding and decoding of enumerations: an array whose first element is
//! the variant's number and whose further elements are the variant's fields
//! at their numbers. A decoder also accepts the variant's name in place of
//! its number.
use crate::cbor_io::{cbor_array, cbor_raw_data, cbor_u64, decoder_input, decoder_limits, decoder_pos, put_array, put_u64, read_array, read_raw_data, read_u64, same_source, str_equal, string_from_utf8, written, CborDecoder, CborEncoder, CborFault, Limits};
use crate::errors::{DecodeError, ErrorView};
use crate::structs::{array_slots_encode, find_index, find_index_from, skip_item, skip_outcome, slots_before, write_slots, FieldSet, FieldSpec, FieldValues, numbered_in_order};
use crate::traits::{appended, extends, lemma_extends_trans, lemma_wrote};
use crate::wire::head64;
use cbor::EncodeError;
use vstd::prelude::*;
use vstd::utf8::{decode_utf8, valid_utf8};

verus! {

/// A variant of an enumeration: its name and its number.
pub struct VariantSpec {
    pub name: &'static str,
    pub number: u64,
}

/// The length of a variant's array: one more than its last field number
/// (1 when it has no fields).
pub open spec fn variant_len(fields: Seq<FieldSpec>) -> nat {
    slots_before(fields, fields.len(), 1)
}

/// `out` is the encoding of the variant with number `number` whose fields
/// are described by `fields` and have the values `values`.
pub open spec fn variant_encodes<V: FieldValues>(number: u64, fields: Seq<FieldSpec>, values: V, out: Seq<u8>) -> bool {
    let h = head64(4, variant_len(fields)) + head64(0, number as nat);
    h.len() <= out.len() && out.take(h.len() as int) == h
        && array_slots_encode(fields, values, 1, fields.len(), out.skip(h.len() as int))
}

/// Appends the encoding of a variant: an array of one more element than its
/// last field number, the variant's number first, `null` in the slots no
/// field takes.
pub fn encode_variant<V: FieldValues>(number: u64, values: &V, fields: &[FieldSpec], e: &mut CborEncoder) -> (r: Result<(), EncodeError>)
    requires
        numbered_in_order(fields@),
        fields@.len() > 0 ==> 1 <= fields@[0].index->Some_0,
    ensures
        r is Ok,
        extends(*old(e), *final(e)),
        V::values_modeled() ==> variant_encodes(number, fields@, *values, appended(*old(e), *final(e))),
{
    let ghost e0 = *e;
    let n = fields.len();
    let slots: usize = if n == 0 {
        1
    } else {
        match fields[n - 1].index {
            Some(last) => (last + 1) as usize,
            None => 1,
        }
    };
    let ghost h = head64(4, slots as nat) + head64(0, number as nat);
    let _ = put_array(e, slots);
    let _ = put_u64(e, number);
    proof {
        assert(written(*e) =~= written(e0) + h);
        lemma_wrote(e0, *e, h);
    }
    let ghost e1 = *e;
    write_slots(values, fields, 1, e);
    proof {
        lemma_extends_trans(e0, e1, *e);
        let out = appended(e0, *e);
        assert(out.take(h.len() as int) =~= h);
        assert(out.skip(h.len() as int) =~= appended(e1, *e));
    }
    Ok(())
}

/// The first variant, from `i` on, whose number is `n`.
pub open spec fn find_number_from(variants: Seq<VariantSpec>, n: u64, i: nat) -> Option<nat>
    decreases variants.len() - i,
{
    if i >= variants.len() {
        None
    } else if variants[i as int].number == n {
        Some(i)
    } else {
        find_number_from(variants, n, i + 1)
    }
}

/// The first variant, from `i` on, whose name is `name`.
pub open spec fn find_variant_name_from(variants: Seq<VariantSpec>, name: Seq<char>, i: nat) -> Option<nat>
    decreases variants.len() - i,
{
    if i >= variants.len() {
        None
    } else if variants[i as int].name@ == name {
        Some(i)
    } else {
        find_variant_name_from(variants, name, i + 1)
    }
}

/// The number lookup finds the first variant from `i` on with number `n`,
/// and finds none exactly when no variant from `i` on has it.
pub proof fn lemma_find_number_from(variants: Seq<VariantSpec>, n: u64, i: nat)
    ensures
        match find_number_from(variants, n, i) {
            Some(k) => i <= k < variants.len() && variants[k as int].number == n && forall|j: int| i <= j < k ==> (#[trigger] variants[j]).number != n,
            None => forall|j: int| i <= j < variants.len() ==> (#[trigger] variants[j]).number != n,
        },
    decreases variants.len() - i,
{
    if i < variants.len() {
        lemma_find_number_from(variants, n, i + 1);
    }
}

/// The name lookup finds the first variant from `i` on named `name`, and
/// finds none exactly when no variant from `i` on has that name.
pub proof fn lemma_find_variant_name_from(variants: Seq<VariantSpec>, name: Seq<char>, i: nat)
    ensures
        match find_variant_name_from(variants, name, i) {
            Some(k) => i <= k < variants.len() && variants[k as int].name@ == name && forall|j: int| i <= j < k ==> (#[trigger] variants[j]).name@ != name,
            None => forall|j: int| i <= j < variants.len() ==> (#[trigger] variants[j]).name@ != name,
        },
    decreases variants.len() - i,
{
    if i < variants.len() {
        lemma_find_variant_name_from(variants, name, i + 1);
    }
}

fn find_number(variants: &[VariantSpec], n: u64) -> (r: Option<usize>)
    ensures
        r matches Some(i) ==> i < variants@.len() && find_number_from(variants@, n, 0) == Some(i as nat),
        r is None ==> find_number_from(variants@, n, 0) is None,
        r matches Some(i) ==> variants@[i as int].number == n && forall|j: int| 0 <= j < i ==> (#[trigger] variants@[j]).number != n,
        r is None ==> forall|j: int| 0 <= j < variants@.len() ==> (#[trigger] variants@[j]).number != n,
{
    let mut i: usize = 0;
    while i < variants.len()
        invariant
            i <= variants@.len(),
            find_number_from(variants@, n, 0) == find_number_from(variants@, n, i as nat),
        decreases variants.len() - i,
    {
        if variants[i].number == n {
            proof { lemma_find_number_from(variants@, n, 0); }
            return Some(i);
        }
        i = i + 1;
    }
    proof { lemma_find_number_from(variants@, n, 0); }
    None
}

fn find_variant_name(variants: &[VariantSpec], name: &str) -> (r: Option<usize>)
    ensures
        r matches Some(i) ==> i < variants@.len() && find_variant_name_from(variants@, name@, 0) == Some(i as nat),
        r is None ==> find_variant_name_from(variants@, name@, 0) is None,
        r matches Some(i) ==> variants@[i as int].name@ == name@ && forall|j: int| 0 <= j < i ==> (#[trigger] variants@[j]).name@ != name@,
        r is None ==> forall|j: int| 0 <= j < variants@.len() ==> (#[trigger] variants@[j]).name@ != name@,
{
    let mut i: usize = 0;
    while i < variants.len()
        invariant
            i <= variants@.len(),
            find_variant_name_from(variants@, name@, 0) == find_variant_name_from(variants@, name@, i as nat),
        decreases variants.len() - i,
    {
        if str_equal(variants[i].name, name) {
            proof { lemma_find_variant_name_from(variants@, name@, 0); }
            return Some(i);
        }
        i = i + 1;
    }
    proof { lemma_find_variant_name_from(variants@, name@, 0); }
    None
}

/// The limit on the length of a variant name read from text.
pub const NAME_LIMIT: usize = 0x8000_0000;

/// The variant selected by a number: the first with it, or
/// `WrongValue("unknown enum variant")`.
pub open spec fn by_number(variants: Seq<VariantSpec>, n: u64, len: usize) -> Result<Option<(usize, usize)>, ErrorView> {
    match find_number_from(variants, n, 0) {
        Some(i) => Ok(Some((i as usize, len))),
        None => Err(ErrorView::WrongValue("unknown enum variant"@)),
    }
}

/// What reading the head of an enumeration gives: `None` for `null`; for
/// an array of at least one element, the variant selected by its first
/// element (a number, or a UTF-8 name) and the array's length; an error
/// otherwise.
pub open spec fn enum_head_outcome(variants: Seq<VariantSpec>, input: Seq<u8>, pos: nat, lim: Limits) -> (Result<Option<(usize, usize)>, ErrorView>, nat) {
    let (a, p) = cbor_array(input, pos, lim);
    match a {
        Ok(len) => if len < 1 {
            (Err(ErrorView::WrongValue("array too short"@)), p)
        } else {
            let (k, q) = cbor_u64(input, p, lim);
            match k {
                Ok(n) => (by_number(variants, n, len), q),
                Err(CborFault::Text(info)) => {
                    let (t, q2) = cbor_raw_data(input, q, info, NAME_LIMIT);
                    (match t {
                        Ok(bytes) => if !valid_utf8(bytes) {
                            Err(ErrorView::WrongValue("enum variant is not correct utf8"@))
                        } else {
                            match find_variant_name_from(variants, decode_utf8(bytes), 0) {
                                Some(i) => Ok(Some((i as usize, len))),
                                None => Err(ErrorView::WrongValue("unknown enum variant"@)),
                            }
                        },
                        Err(_) => Err(ErrorView::WrongType("int or text expected as enum kind"@)),
                    }, q2)
                },
                Err(_) => (Err(ErrorView::WrongType("array expected"@)), q),
            }
        },
        Err(CborFault::Null) => (Ok(None), p),
        Err(_) => (Err(ErrorView::WrongType("array or object expected (e5)"@)), p),
    }
}

/// A head result viewed with its error by its view.
pub open spec fn head_view(r: Result<Option<(usize, usize)>, DecodeError>) -> Result<Option<(usize, usize)>, ErrorView> {
    match r {
        Ok(x) => Ok(x),
        Err(e) => Err(e@),
    }
}

/// Reads the head of an enumeration: the position in `variants` of the
/// variant it holds, and the length of its array; `None` for `null`.
pub fn decode_enum_head(d: &mut CborDecoder, variants: &[VariantSpec]) -> (r: Result<Option<(usize, usize)>, DecodeError>)
    ensures
        same_source(*old(d), *final(d)),
        (head_view(r), decoder_pos(*final(d))) == enum_head_outcome(variants@, decoder_input(*old(d)), decoder_pos(*old(d)), decoder_limits(*old(d))),
        r matches Ok(Some((i, len))) ==> i < variants@.len() && len >= 1,
{
    let len = match read_array(d) {
        Ok(len) => len,
        Err(f) => {
            return match f.fault {
                CborFault::Null => Ok(None),
                _ => Err(DecodeError::WrongType("array or object expected (e5)", f.error)),
            };
        },
    };
    if len < 1 {
        return Err(DecodeError::WrongValue("array too short"));
    }
    match read_u64(d) {
        Ok(n) => match find_number(variants, n) {
            Some(i) => Ok(Some((i, len))),
            None => Err(DecodeError::WrongValue("unknown enum variant")),
        },
        Err(f) => match f.fault {
            CborFault::Text(info) => {
                let bytes = match read_raw_data(d, info, NAME_LIMIT) {
                    Ok(b) => b,
                    Err(g) => {
                        return Err(DecodeError::WrongType("int or text expected as enum kind", g.error));
                    },
                };
                let txt = match string_from_utf8(bytes) {
                    Ok(s) => s,
                    Err(_) => {
                        return Err(DecodeError::WrongValue("enum variant is not correct utf8"));
                    },
                };
                match find_variant_name(variants, txt.as_str()) {
                    Some(i) => Ok(Some((i, len))),
                    None => Err(DecodeError::WrongValue("unknown enum variant")),
                }
            },
            _ => Err(DecodeError::WrongType("array expected", f.error)),
        },
    }
}

/// Decoding the elements `idx..len` of a variant's array into the slots:
/// each element into the first field with its number (`null` is an error
/// there), other elements skipped.
pub open spec fn variant_fields<S: FieldSet>(fields: Seq<FieldSpec>, slots: S::V, input: Seq<u8>, pos: nat, lim: Limits, idx: nat, len: nat) -> (Result<S::V, ErrorView>, nat)
    decreases len - idx,
{
    if idx >= len {
        (Ok(slots), pos)
    } else {
        let (r, p) = match find_index_from(fields, idx as u64, 0) {
            Some(i) => S::spec_decode_elem_slot(slots, i, idx as usize, input, pos, lim),
            None => skip_outcome(slots, input, pos, lim),
        };
        match r {
            Ok(s) => variant_fields::<S>(fields, s, input, p, lim, idx + 1, len),
            Err(e) => (Err(e), p),
        }
    }
}

/// A result of the fields of a variant viewed by deep view and error view.
pub open spec fn slots_view<S: DeepView>(r: Result<S, DecodeError>) -> Result<S::V, ErrorView> {
    match r {
        Ok(s) => Ok(s.deep_view()),
        Err(e) => Err(e@),
    }
}

/// Decodes the fields of a variant whose array has length `len` and whose
/// head was read: elements 1 to `len - 1`, each into the first field with
/// its number, others skipped.
pub fn decode_variant_fields<S: FieldSet>(d: &mut CborDecoder, len: usize, fields: &[FieldSpec]) -> (r: Result<S, DecodeError>)
    ensures
        same_source(*old(d), *final(d)),
        S::slots_modeled() ==> (slots_view(r), decoder_pos(*final(d)))
            == variant_fields::<S>(fields@, S::spec_empty(), decoder_input(*old(d)), decoder_pos(*old(d)), decoder_limits(*old(d)), 1, len as nat),
{
    let ghost input = decoder_input(*d);
    let ghost lim = decoder_limits(*d);
    let ghost start = decoder_pos(*d);
    let mut slots = S::empty();
    let mut idx: usize = 1;
    if len <= 1 {
        return Ok(slots);
    }
    while idx < len
        invariant
            1 <= idx <= len,
                decoder_input(*d) == input,
            decoder_limits(*d) == lim,
            input == decoder_input(*old(d)),
            lim == decoder_limits(*old(d)),
            start == decoder_pos(*old(d)),
            S::slots_modeled() ==> variant_fields::<S>(fields@, S::spec_empty(), input, start, lim, 1, len as nat)
                == variant_fields::<S>(fields@, slots.deep_view(), input, decoder_pos(*d), lim, idx as nat, len as nat),
        decreases len - idx,
    {
        let step = match find_index(fields, idx as u64) {
            Some(i) => slots.decode_elem_slot(i, idx, d),
            None => skip_item(d),
        };
        match step {
            Ok(()) => {},
            Err(e) => {
                return Err(e);
            },
        }
        idx = idx + 1;
    }
    Ok(slots)
}

} // verus!
