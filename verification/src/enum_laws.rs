//! The laws of enumerations: decoding the encoding of a variant selects the
//! variant with its number and fills every field's slot with what decoding
//! that field's value gives.
use crate::cbor_io::Limits;
use crate::enums::{enum_head_outcome, find_number_from, variant_encodes, variant_fields, variant_len, VariantSpec};
use crate::errors::ErrorView;
use crate::laws::lemma_at_part;
use crate::struct_laws::{lemma_find_index, lemma_find_index_none, lemma_skip_null, no_field_at, number, SlotValue};
use crate::structs::{array_slots_encode, fill, numbered_in_order, slots_before, FieldSet, FieldSpec, FieldValues};
use crate::traits::Decodable;
use crate::wire::{at, head64, lemma_head_at, lemma_head_len, nnulls, null_item};
use vstd::prelude::*;

verus! {

/// Decoding an encoding of value `i` as an array element into slot `i`,
/// from any slots, at any place and with any element index, takes slot `i`
/// from `target` and stops where the encoding ends.
pub open spec fn elem_slot_roundtrips<V: FieldValues, S: FieldSet>(
    values: V,
    target: S::V,
    input: Seq<u8>,
    lim: Limits,
    i: nat,
) -> bool {
    forall|p: nat, o: Seq<u8>, s: S::V, idx: usize|
        #![trigger values.spec_value_encodes(i, o), S::spec_decode_elem_slot(s, i, idx, input, p, lim)]
        values.spec_value_encodes(i, o) && at(input, p, o) ==> S::spec_decode_elem_slot(s, i, idx, input, p, lim)
            == (Ok::<S::V, ErrorView>(S::spec_with(s, target, i)), p + o.len())
}

/// Every field's slot round-trips as an array element.
pub open spec fn elem_slots_roundtrip<V: FieldValues, S: FieldSet>(
    fields: Seq<FieldSpec>,
    values: V,
    target: S::V,
    input: Seq<u8>,
    lim: Limits,
) -> bool {
    forall|i: nat| i < fields.len() ==> #[trigger] elem_slot_roundtrips::<V, S>(values, target, input, lim, i)
}

/// Elements of a variant's array that are `null` and that no field takes
/// are skipped.
pub proof fn lemma_skip_variant_nulls<S: FieldSet>(
    fields: Seq<FieldSpec>,
    s: S::V,
    input: Seq<u8>,
    p: nat,
    lim: Limits,
    idx: nat,
    gap: nat,
    len: nat,
)
    requires
        at(input, p, nnulls(gap)),
        lim.max_nesting > 0,
        idx + gap <= len,
        len < 0x1_0000_0000_0000_0000,
        forall|m: nat| idx <= m < idx + gap ==> #[trigger] no_field_at(fields, m),
    ensures
        variant_fields::<S>(fields, s, input, p, lim, idx, len) == variant_fields::<S>(fields, s, input, p + gap, lim, idx + gap, len),
    decreases gap,
{
    if gap > 0 {
        assert(nnulls(gap).subrange(0, 1) =~= null_item());
        lemma_at_part(input, p, nnulls(gap), 0, 1);
        lemma_skip_null(input, p, lim);
        assert(no_field_at(fields, idx));
        lemma_find_index_none(fields, idx as u64, 0);
        assert(nnulls(gap).subrange(1, gap as int) =~= nnulls((gap - 1) as nat));
        lemma_at_part(input, p, nnulls(gap), 1, gap as int);
        lemma_skip_variant_nulls::<S>(fields, s, input, p + 1, lim, idx + 1, (gap - 1) as nat, len);
    }
}

/// Decoding the slots of the first `k` fields of a variant fills the first
/// `k` slots.
pub proof fn lemma_variant_prefix<V: FieldValues, S: FieldSet>(
    fields: Seq<FieldSpec>,
    values: V,
    target: S::V,
    input: Seq<u8>,
    lim: Limits,
    p0: nat,
    o: Seq<u8>,
    k: nat,
    len: nat,
)
    requires
        numbered_in_order(fields),
        0 < fields.len(),
        1 <= number(fields, 0),
        k <= fields.len(),
        number(fields, fields.len() - 1) < len < 0x1_0000_0000_0000_0000,
        array_slots_encode(fields, values, 1, k, o),
        at(input, p0, o),
        lim.max_nesting > 0,
        elem_slots_roundtrip::<V, S>(fields, values, target, input, lim),
    ensures
        variant_fields::<S>(fields, S::spec_empty(), input, p0, lim, 1, len) == variant_fields::<S>(
            fields,
            fill::<S>(S::spec_empty(), target, k),
            input,
            p0 + o.len(),
            lim,
            slots_before(fields, k, 1),
            len,
        ),
    decreases k,
{
    if k > 0 {
        let km = (k - 1) as nat;
        let first = slots_before(fields, km, 1);
        let gap = (number(fields, km as int) - first) as nat;
        let j = choose|j: int|
            0 <= j && j + gap <= o.len() && array_slots_encode(fields, values, 1, km, #[trigger] o.take(j))
                && o.subrange(j, j + gap) == nnulls(gap) && values.spec_value_encodes(km, o.skip(j + gap));
        assert(o.subrange(0, j) =~= o.take(j));
        lemma_at_part(input, p0, o, 0, j);
        lemma_variant_prefix::<V, S>(fields, values, target, input, lim, p0, o.take(j), km, len);
        let s = fill::<S>(S::spec_empty(), target, km);
        let p = p0 + j;
        assert(number(fields, km as int) <= number(fields, fields.len() - 1));
        if km > 0 {
            assert(number(fields, km - 1) < number(fields, km as int));
        }
        lemma_at_part(input, p0, o, j, j + gap);
        assert forall|m: nat| first <= m < first + gap implies #[trigger] no_field_at(fields, m) by {
            assert forall|jj: int| 0 <= jj < fields.len() implies #[trigger] fields[jj].index != Some(m as u64) by {
                if jj < km {
                    assert(number(fields, jj) <= number(fields, km - 1));
                } else if jj > km {
                    assert(number(fields, km as int) < number(fields, jj));
                }
            }
        }
        lemma_skip_variant_nulls::<S>(fields, s, input, p as nat, lim, first, gap, len);
        let idx = number(fields, km as int);
        let ov = o.skip(j + gap);
        assert(o.subrange(j + gap, o.len() as int) =~= ov);
        lemma_at_part(input, p0, o, j + gap, o.len() as int);
        assert forall|jj: int| 0 <= jj < km implies #[trigger] fields[jj].index != Some(idx as u64) by {
            assert(number(fields, jj) < number(fields, km as int));
        }
        lemma_find_index(fields, idx as u64, 0, km);
        assert(elem_slot_roundtrips::<V, S>(values, target, input, lim, km));
        assert(values.spec_value_encodes(km, ov));
        let q = (p + gap) as nat;
        assert(S::spec_decode_elem_slot(s, km, idx as usize, input, q, lim) == (Ok::<S::V, ErrorView>(S::spec_with(s, target, km)), q + ov.len()));
    }
}

/// The encoding of a variant decodes back: its head selects the first
/// variant with its number and gives the array's length, and the elements
/// that follow fill the slots of `target`, when each field's value does as
/// an array element and `target` is what filling all slots gives.
pub proof fn lemma_variant_roundtrip<V: FieldValues, S: FieldSet>(
    variants: Seq<VariantSpec>,
    num: u64,
    fields: Seq<FieldSpec>,
    values: V,
    target: S::V,
    out: Seq<u8>,
    input: Seq<u8>,
    pos: nat,
    lim: Limits,
)
    requires
        variant_encodes(num, fields, values, out),
        at(input, pos, out),
        lim.max_nesting > 0,
        variant_len(fields) <= lim.max_len_array,
        numbered_in_order(fields),
        fields.len() > 0 ==> 1 <= number(fields, 0),
        elem_slots_roundtrip::<V, S>(fields, values, target, input, lim),
        fill::<S>(S::spec_empty(), target, fields.len()) == target,
        find_number_from(variants, num, 0) is Some,
    ensures
        ({
            let (r, p) = enum_head_outcome(variants, input, pos, lim);
            &&& r == Ok::<Option<(usize, usize)>, ErrorView>(
                Some((find_number_from(variants, num, 0)->0 as usize, variant_len(fields) as usize)),
            )
            &&& variant_fields::<S>(fields, S::spec_empty(), input, p, lim, 1, variant_len(fields))
                == (Ok::<S::V, ErrorView>(target), pos + out.len())
        }),
{
    let len = variant_len(fields);
    let h1 = head64(4, len);
    let h2 = head64(0, num as nat);
    let h = h1 + h2;
    let l1 = h1.len() as int;
    let hl = h.len() as int;
    if fields.len() > 0 {
        assert(number(fields, fields.len() - 1) < usize::MAX);
    }
    lemma_head_len(4, len);
    lemma_head_len(0, num as nat);
    assert(out.subrange(0, l1) =~= h1);
    lemma_at_part(input, pos, out, 0, l1);
    lemma_head_at(input, pos, 4, len, true);
    assert(out.take(hl) == h);
    assert(out.subrange(l1, hl) =~= h2) by {
        assert forall|i: int| 0 <= i < hl - l1 implies out.subrange(l1, hl)[i] == h2[i] by {
            assert(out.take(hl)[l1 + i] == h[l1 + i]);
        }
    }
    lemma_at_part(input, pos, out, l1, hl);
    lemma_head_at(input, (pos + l1) as nat, 0, num as nat, true);
    let rest = out.skip(hl);
    assert(out.subrange(hl, out.len() as int) =~= rest);
    lemma_at_part(input, pos, out, hl, out.len() as int);
    if fields.len() > 0 {
        lemma_variant_prefix::<V, S>(fields, values, target, input, lim, (pos + hl) as nat, rest, fields.len(), len);
    } else {
        assert(rest.len() == 0);
    }
}

/// A variant of one field decodes back when its value is not absent: the
/// slot holds the value.
pub proof fn lemma_variant1_roundtrip<A: Decodable, X: SlotValue<A>>(
    variants: Seq<VariantSpec>,
    num: u64,
    fields: Seq<FieldSpec>,
    x: X,
    out: Seq<u8>,
    input: Seq<u8>,
    pos: nat,
    lim: Limits,
)
    requires
        X::encoding_modeled(),
        A::decoding_modeled(),
        fields.len() == 1,
        1 <= number(fields, 0),
        numbered_in_order(fields),
        variant_len(fields) <= lim.max_len_array,
        lim.max_nesting > 0,
        variant_encodes(num, fields, (&x,), out),
        at(input, pos, out),
        x.slot_fits(lim),
        x.slot_view() is Some,
        find_number_from(variants, num, 0) is Some,
    ensures
        ({
            let (r, p) = enum_head_outcome(variants, input, pos, lim);
            &&& r == Ok::<Option<(usize, usize)>, ErrorView>(
                Some((find_number_from(variants, num, 0)->0 as usize, variant_len(fields) as usize)),
            )
            &&& variant_fields::<(Option<A>,)>(fields, (None,), input, p, lim, 1, variant_len(fields))
                == (Ok::<(Option<A::V>,), ErrorView>((x.slot_view(),)), pos + out.len())
        }),
{
    let values = (&x,);
    let target = (x.slot_view(),);
    assert forall|i: nat| i < fields.len() implies #[trigger] elem_slot_roundtrips::<(&X,), (Option<A>,)>(values, target, input, lim, i) by {
        assert forall|p: nat, o: Seq<u8>, s: (Option<A::V>,), idx: usize|
            #![trigger values.spec_value_encodes(i, o), <(Option<A>,) as FieldSet>::spec_decode_elem_slot(s, i, idx, input, p, lim)]
            values.spec_value_encodes(i, o) && at(input, p, o) implies <(Option<A>,) as FieldSet>::spec_decode_elem_slot(
                s, i, idx, input, p, lim,
            ) == (Ok::<(Option<A::V>,), ErrorView>(<(Option<A>,) as FieldSet>::spec_with(s, target, i)), p + o.len()) by {
            x.lemma_slot(o, input, p, lim);
        }
    }
    reveal_with_fuel(fill, 2);
    lemma_variant_roundtrip::<(&X,), (Option<A>,)>(variants, num, fields, values, target, out, input, pos, lim);
}

/// A variant of two fields decodes back when its values are not absent:
/// each slot holds its value.
pub proof fn lemma_variant2_roundtrip<A: Decodable, B: Decodable, X: SlotValue<A>, Y: SlotValue<B>>(
    variants: Seq<VariantSpec>,
    num: u64,
    fields: Seq<FieldSpec>,
    x: X,
    y: Y,
    out: Seq<u8>,
    input: Seq<u8>,
    pos: nat,
    lim: Limits,
)
    requires
        X::encoding_modeled(),
        Y::encoding_modeled(),
        A::decoding_modeled(),
        B::decoding_modeled(),
        fields.len() == 2,
        1 <= number(fields, 0),
        numbered_in_order(fields),
        variant_len(fields) <= lim.max_len_array,
        lim.max_nesting > 0,
        variant_encodes(num, fields, (&x, &y), out),
        at(input, pos, out),
        x.slot_fits(lim),
        y.slot_fits(lim),
        x.slot_view() is Some,
        y.slot_view() is Some,
        find_number_from(variants, num, 0) is Some,
    ensures
        ({
            let (r, p) = enum_head_outcome(variants, input, pos, lim);
            &&& r == Ok::<Option<(usize, usize)>, ErrorView>(
                Some((find_number_from(variants, num, 0)->0 as usize, variant_len(fields) as usize)),
            )
            &&& variant_fields::<(Option<A>, Option<B>)>(fields, (None, None), input, p, lim, 1, variant_len(fields))
                == (Ok::<(Option<A::V>, Option<B::V>), ErrorView>((x.slot_view(), y.slot_view())), pos + out.len())
        }),
{
    let values = (&x, &y);
    let target = (x.slot_view(), y.slot_view());
    assert forall|i: nat| i < fields.len() implies #[trigger] elem_slot_roundtrips::<(&X, &Y), (Option<A>, Option<B>)>(values, target, input, lim, i) by {
        assert forall|p: nat, o: Seq<u8>, s: (Option<A::V>, Option<B::V>), idx: usize|
            #![trigger values.spec_value_encodes(i, o), <(Option<A>, Option<B>) as FieldSet>::spec_decode_elem_slot(s, i, idx, input, p, lim)]
            values.spec_value_encodes(i, o) && at(input, p, o) implies <(Option<A>, Option<B>) as FieldSet>::spec_decode_elem_slot(
                s, i, idx, input, p, lim,
            ) == (Ok::<(Option<A::V>, Option<B::V>), ErrorView>(<(Option<A>, Option<B>) as FieldSet>::spec_with(s, target, i)), p + o.len()) by {
            if i == 0 {
                x.lemma_slot(o, input, p, lim);
            } else {
                y.lemma_slot(o, input, p, lim);
            }
        }
    }
    reveal_with_fuel(fill, 3);
    lemma_variant_roundtrip::<(&X, &Y), (Option<A>, Option<B>)>(variants, num, fields, values, target, out, input, pos, lim);
}

} // verus!
