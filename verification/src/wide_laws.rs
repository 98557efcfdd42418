//! The round-trip laws of structures and variants of three to eight
//! fields: each slot holds what its own field's value gives.
use crate::cbor_io::Limits;
use crate::enum_laws::{elem_slot_roundtrips, lemma_variant_roundtrip};
use crate::enums::{enum_head_outcome, find_number_from, variant_encodes, variant_fields, variant_len, VariantSpec};
use crate::errors::ErrorView;
use crate::struct_laws::{layout_fits, lemma_struct_roundtrip, number, slot_roundtrips, SlotValue};
use crate::structs::{fill, numbered_in_order, struct_encodes, struct_outcome, FieldSet, FieldSpec, FieldValues};
use crate::traits::Decodable;
use crate::wire::at;
use vstd::prelude::*;

verus! {

/// A variant of three fields decodes back when its values are not
/// absent: the head selects the variant and each slot holds its own value.
pub proof fn lemma_variant3_roundtrip<A1: Decodable, A2: Decodable, A3: Decodable, X1: SlotValue<A1>, X2: SlotValue<A2>, X3: SlotValue<A3>>(
    variants: Seq<VariantSpec>,
    num: u64,
    fields: Seq<FieldSpec>,
    x1: X1,
    x2: X2,
    x3: X3,
    out: Seq<u8>,
    input: Seq<u8>,
    pos: nat,
    lim: Limits,
)
    requires
        X1::encoding_modeled(),
        X2::encoding_modeled(),
        X3::encoding_modeled(),
        A1::decoding_modeled(),
        A2::decoding_modeled(),
        A3::decoding_modeled(),
        fields.len() == 3,
        1 <= number(fields, 0),
        numbered_in_order(fields),
        variant_len(fields) <= lim.max_len_array,
        lim.max_nesting > 0,
        variant_encodes(num, fields, (&x1, &x2, &x3), out),
        at(input, pos, out),
        x1.slot_fits(lim),
        x2.slot_fits(lim),
        x3.slot_fits(lim),
        x1.slot_view() is Some,
        x2.slot_view() is Some,
        x3.slot_view() is Some,
        find_number_from(variants, num, 0) is Some,
    ensures
        ({
            let (r, p) = enum_head_outcome(variants, input, pos, lim);
            &&& r == Ok::<Option<(usize, usize)>, ErrorView>(
                Some((find_number_from(variants, num, 0)->0 as usize, variant_len(fields) as usize)),
            )
            &&& variant_fields::<(Option<A1>, Option<A2>, Option<A3>)>(fields, (None, None, None), input, p, lim, 1, variant_len(fields))
                == (Ok::<(Option<A1::V>, Option<A2::V>, Option<A3::V>), ErrorView>((x1.slot_view(), x2.slot_view(), x3.slot_view())), pos + out.len())
        }),
{
    let values = (&x1, &x2, &x3);
    let target = (x1.slot_view(), x2.slot_view(), x3.slot_view());
    assert forall|i: nat| i < fields.len() implies #[trigger] elem_slot_roundtrips::<(&X1, &X2, &X3), (Option<A1>, Option<A2>, Option<A3>)>(values, target, input, lim, i) by {
        assert forall|p: nat, o: Seq<u8>, s: (Option<A1::V>, Option<A2::V>, Option<A3::V>), idx: usize|
            #![trigger values.spec_value_encodes(i, o), <(Option<A1>, Option<A2>, Option<A3>) as FieldSet>::spec_decode_elem_slot(s, i, idx, input, p, lim)]
            values.spec_value_encodes(i, o) && at(input, p, o) implies <(Option<A1>, Option<A2>, Option<A3>) as FieldSet>::spec_decode_elem_slot(
                s, i, idx, input, p, lim,
            ) == (Ok::<(Option<A1::V>, Option<A2::V>, Option<A3::V>), ErrorView>(<(Option<A1>, Option<A2>, Option<A3>) as FieldSet>::spec_with(s, target, i)), p + o.len()) by {
            if i == 0 {
                x1.lemma_slot(o, input, p, lim);
            } else if i == 1 {
                x2.lemma_slot(o, input, p, lim);
            } else {
                x3.lemma_slot(o, input, p, lim);
            }
        }
    }
    reveal_with_fuel(fill, 4);
    lemma_variant_roundtrip::<(&X1, &X2, &X3), (Option<A1>, Option<A2>, Option<A3>)>(variants, num, fields, values, target, out, input, pos, lim);
}

/// A structure of four fields decodes back, in either form: each slot
/// holds what its own field's value gives.
pub proof fn lemma_struct4_roundtrip<A1: Decodable, A2: Decodable, A3: Decodable, A4: Decodable, X1: SlotValue<A1>, X2: SlotValue<A2>, X3: SlotValue<A3>, X4: SlotValue<A4>>(
    fields: Seq<FieldSpec>,
    x1: X1,
    x2: X2,
    x3: X3,
    x4: X4,
    out: Seq<u8>,
    input: Seq<u8>,
    pos: nat,
    lim: Limits,
)
    requires
        X1::encoding_modeled(),
        X2::encoding_modeled(),
        X3::encoding_modeled(),
        X4::encoding_modeled(),
        A1::decoding_modeled(),
        A2::decoding_modeled(),
        A3::decoding_modeled(),
        A4::decoding_modeled(),
        fields.len() == 4,
        layout_fits(fields, lim),
        struct_encodes(fields, (&x1, &x2, &x3, &x4), out),
        at(input, pos, out),
        x1.slot_fits(lim),
        x2.slot_fits(lim),
        x3.slot_fits(lim),
        x4.slot_fits(lim),
    ensures
        struct_outcome::<(Option<A1>, Option<A2>, Option<A3>, Option<A4>)>(fields, input, pos, lim) == (
            Ok::<Option<(Option<A1::V>, Option<A2::V>, Option<A3::V>, Option<A4::V>)>, ErrorView>(Some((x1.slot_view(), x2.slot_view(), x3.slot_view(), x4.slot_view()))),
            pos + out.len(),
        ),
{
    let values = (&x1, &x2, &x3, &x4);
    let target = (x1.slot_view(), x2.slot_view(), x3.slot_view(), x4.slot_view());
    assert forall|i: nat| i < fields.len() implies #[trigger] slot_roundtrips::<(&X1, &X2, &X3, &X4), (Option<A1>, Option<A2>, Option<A3>, Option<A4>)>(fields, values, target, input, lim, i) by {
        assert forall|p: nat, o: Seq<u8>, s: (Option<A1::V>, Option<A2::V>, Option<A3::V>, Option<A4::V>)|
            #![trigger values.spec_value_encodes(i, o), <(Option<A1>, Option<A2>, Option<A3>, Option<A4>) as FieldSet>::spec_decode_slot(s, i, fields[i as int].name@, input, p, lim)]
            values.spec_value_encodes(i, o) && at(input, p, o) implies <(Option<A1>, Option<A2>, Option<A3>, Option<A4>) as FieldSet>::spec_decode_slot(
                s, i, fields[i as int].name@, input, p, lim,
            ) == (Ok::<(Option<A1::V>, Option<A2::V>, Option<A3::V>, Option<A4::V>), ErrorView>(<(Option<A1>, Option<A2>, Option<A3>, Option<A4>) as FieldSet>::spec_with(s, target, i)), p + o.len()) by {
            if i == 0 {
                x1.lemma_slot(o, input, p, lim);
            } else if i == 1 {
                x2.lemma_slot(o, input, p, lim);
            } else if i == 2 {
                x3.lemma_slot(o, input, p, lim);
            } else {
                x4.lemma_slot(o, input, p, lim);
            }
        }
    }
    reveal_with_fuel(fill, 5);
    lemma_struct_roundtrip::<(&X1, &X2, &X3, &X4), (Option<A1>, Option<A2>, Option<A3>, Option<A4>)>(fields, values, target, out, input, pos, lim);
}

/// A variant of four fields decodes back when its values are not
/// absent: the head selects the variant and each slot holds its own value.
pub proof fn lemma_variant4_roundtrip<A1: Decodable, A2: Decodable, A3: Decodable, A4: Decodable, X1: SlotValue<A1>, X2: SlotValue<A2>, X3: SlotValue<A3>, X4: SlotValue<A4>>(
    variants: Seq<VariantSpec>,
    num: u64,
    fields: Seq<FieldSpec>,
    x1: X1,
    x2: X2,
    x3: X3,
    x4: X4,
    out: Seq<u8>,
    input: Seq<u8>,
    pos: nat,
    lim: Limits,
)
    requires
        X1::encoding_modeled(),
        X2::encoding_modeled(),
        X3::encoding_modeled(),
        X4::encoding_modeled(),
        A1::decoding_modeled(),
        A2::decoding_modeled(),
        A3::decoding_modeled(),
        A4::decoding_modeled(),
        fields.len() == 4,
        1 <= number(fields, 0),
        numbered_in_order(fields),
        variant_len(fields) <= lim.max_len_array,
        lim.max_nesting > 0,
        variant_encodes(num, fields, (&x1, &x2, &x3, &x4), out),
        at(input, pos, out),
        x1.slot_fits(lim),
        x2.slot_fits(lim),
        x3.slot_fits(lim),
        x4.slot_fits(lim),
        x1.slot_view() is Some,
        x2.slot_view() is Some,
        x3.slot_view() is Some,
        x4.slot_view() is Some,
        find_number_from(variants, num, 0) is Some,
    ensures
        ({
            let (r, p) = enum_head_outcome(variants, input, pos, lim);
            &&& r == Ok::<Option<(usize, usize)>, ErrorView>(
                Some((find_number_from(variants, num, 0)->0 as usize, variant_len(fields) as usize)),
            )
            &&& variant_fields::<(Option<A1>, Option<A2>, Option<A3>, Option<A4>)>(fields, (None, None, None, None), input, p, lim, 1, variant_len(fields))
                == (Ok::<(Option<A1::V>, Option<A2::V>, Option<A3::V>, Option<A4::V>), ErrorView>((x1.slot_view(), x2.slot_view(), x3.slot_view(), x4.slot_view())), pos + out.len())
        }),
{
    let values = (&x1, &x2, &x3, &x4);
    let target = (x1.slot_view(), x2.slot_view(), x3.slot_view(), x4.slot_view());
    assert forall|i: nat| i < fields.len() implies #[trigger] elem_slot_roundtrips::<(&X1, &X2, &X3, &X4), (Option<A1>, Option<A2>, Option<A3>, Option<A4>)>(values, target, input, lim, i) by {
        assert forall|p: nat, o: Seq<u8>, s: (Option<A1::V>, Option<A2::V>, Option<A3::V>, Option<A4::V>), idx: usize|
            #![trigger values.spec_value_encodes(i, o), <(Option<A1>, Option<A2>, Option<A3>, Option<A4>) as FieldSet>::spec_decode_elem_slot(s, i, idx, input, p, lim)]
            values.spec_value_encodes(i, o) && at(input, p, o) implies <(Option<A1>, Option<A2>, Option<A3>, Option<A4>) as FieldSet>::spec_decode_elem_slot(
                s, i, idx, input, p, lim,
            ) == (Ok::<(Option<A1::V>, Option<A2::V>, Option<A3::V>, Option<A4::V>), ErrorView>(<(Option<A1>, Option<A2>, Option<A3>, Option<A4>) as FieldSet>::spec_with(s, target, i)), p + o.len()) by {
            if i == 0 {
                x1.lemma_slot(o, input, p, lim);
            } else if i == 1 {
                x2.lemma_slot(o, input, p, lim);
            } else if i == 2 {
                x3.lemma_slot(o, input, p, lim);
            } else {
                x4.lemma_slot(o, input, p, lim);
            }
        }
    }
    reveal_with_fuel(fill, 5);
    lemma_variant_roundtrip::<(&X1, &X2, &X3, &X4), (Option<A1>, Option<A2>, Option<A3>, Option<A4>)>(variants, num, fields, values, target, out, input, pos, lim);
}

/// A structure of five fields decodes back, in either form: each slot
/// holds what its own field's value gives.
pub proof fn lemma_struct5_roundtrip<A1: Decodable, A2: Decodable, A3: Decodable, A4: Decodable, A5: Decodable, X1: SlotValue<A1>, X2: SlotValue<A2>, X3: SlotValue<A3>, X4: SlotValue<A4>, X5: SlotValue<A5>>(
    fields: Seq<FieldSpec>,
    x1: X1,
    x2: X2,
    x3: X3,
    x4: X4,
    x5: X5,
    out: Seq<u8>,
    input: Seq<u8>,
    pos: nat,
    lim: Limits,
)
    requires
        X1::encoding_modeled(),
        X2::encoding_modeled(),
        X3::encoding_modeled(),
        X4::encoding_modeled(),
        X5::encoding_modeled(),
        A1::decoding_modeled(),
        A2::decoding_modeled(),
        A3::decoding_modeled(),
        A4::decoding_modeled(),
        A5::decoding_modeled(),
        fields.len() == 5,
        layout_fits(fields, lim),
        struct_encodes(fields, (&x1, &x2, &x3, &x4, &x5), out),
        at(input, pos, out),
        x1.slot_fits(lim),
        x2.slot_fits(lim),
        x3.slot_fits(lim),
        x4.slot_fits(lim),
        x5.slot_fits(lim),
    ensures
        struct_outcome::<(Option<A1>, Option<A2>, Option<A3>, Option<A4>, Option<A5>)>(fields, input, pos, lim) == (
            Ok::<Option<(Option<A1::V>, Option<A2::V>, Option<A3::V>, Option<A4::V>, Option<A5::V>)>, ErrorView>(Some((x1.slot_view(), x2.slot_view(), x3.slot_view(), x4.slot_view(), x5.slot_view()))),
            pos + out.len(),
        ),
{
    let values = (&x1, &x2, &x3, &x4, &x5);
    let target = (x1.slot_view(), x2.slot_view(), x3.slot_view(), x4.slot_view(), x5.slot_view());
    assert forall|i: nat| i < fields.len() implies #[trigger] slot_roundtrips::<(&X1, &X2, &X3, &X4, &X5), (Option<A1>, Option<A2>, Option<A3>, Option<A4>, Option<A5>)>(fields, values, target, input, lim, i) by {
        assert forall|p: nat, o: Seq<u8>, s: (Option<A1::V>, Option<A2::V>, Option<A3::V>, Option<A4::V>, Option<A5::V>)|
            #![trigger values.spec_value_encodes(i, o), <(Option<A1>, Option<A2>, Option<A3>, Option<A4>, Option<A5>) as FieldSet>::spec_decode_slot(s, i, fields[i as int].name@, input, p, lim)]
            values.spec_value_encodes(i, o) && at(input, p, o) implies <(Option<A1>, Option<A2>, Option<A3>, Option<A4>, Option<A5>) as FieldSet>::spec_decode_slot(
                s, i, fields[i as int].name@, input, p, lim,
            ) == (Ok::<(Option<A1::V>, Option<A2::V>, Option<A3::V>, Option<A4::V>, Option<A5::V>), ErrorView>(<(Option<A1>, Option<A2>, Option<A3>, Option<A4>, Option<A5>) as FieldSet>::spec_with(s, target, i)), p + o.len()) by {
            if i == 0 {
                x1.lemma_slot(o, input, p, lim);
            } else if i == 1 {
                x2.lemma_slot(o, input, p, lim);
            } else if i == 2 {
                x3.lemma_slot(o, input, p, lim);
            } else if i == 3 {
                x4.lemma_slot(o, input, p, lim);
            } else {
                x5.lemma_slot(o, input, p, lim);
            }
        }
    }
    reveal_with_fuel(fill, 6);
    lemma_struct_roundtrip::<(&X1, &X2, &X3, &X4, &X5), (Option<A1>, Option<A2>, Option<A3>, Option<A4>, Option<A5>)>(fields, values, target, out, input, pos, lim);
}

/// A variant of five fields decodes back when its values are not
/// absent: the head selects the variant and each slot holds its own value.
pub proof fn lemma_variant5_roundtrip<A1: Decodable, A2: Decodable, A3: Decodable, A4: Decodable, A5: Decodable, X1: SlotValue<A1>, X2: SlotValue<A2>, X3: SlotValue<A3>, X4: SlotValue<A4>, X5: SlotValue<A5>>(
    variants: Seq<VariantSpec>,
    num: u64,
    fields: Seq<FieldSpec>,
    x1: X1,
    x2: X2,
    x3: X3,
    x4: X4,
    x5: X5,
    out: Seq<u8>,
    input: Seq<u8>,
    pos: nat,
    lim: Limits,
)
    requires
        X1::encoding_modeled(),
        X2::encoding_modeled(),
        X3::encoding_modeled(),
        X4::encoding_modeled(),
        X5::encoding_modeled(),
        A1::decoding_modeled(),
        A2::decoding_modeled(),
        A3::decoding_modeled(),
        A4::decoding_modeled(),
        A5::decoding_modeled(),
        fields.len() == 5,
        1 <= number(fields, 0),
        numbered_in_order(fields),
        variant_len(fields) <= lim.max_len_array,
        lim.max_nesting > 0,
        variant_encodes(num, fields, (&x1, &x2, &x3, &x4, &x5), out),
        at(input, pos, out),
        x1.slot_fits(lim),
        x2.slot_fits(lim),
        x3.slot_fits(lim),
        x4.slot_fits(lim),
        x5.slot_fits(lim),
        x1.slot_view() is Some,
        x2.slot_view() is Some,
        x3.slot_view() is Some,
        x4.slot_view() is Some,
        x5.slot_view() is Some,
        find_number_from(variants, num, 0) is Some,
    ensures
        ({
            let (r, p) = enum_head_outcome(variants, input, pos, lim);
            &&& r == Ok::<Option<(usize, usize)>, ErrorView>(
                Some((find_number_from(variants, num, 0)->0 as usize, variant_len(fields) as usize)),
            )
            &&& variant_fields::<(Option<A1>, Option<A2>, Option<A3>, Option<A4>, Option<A5>)>(fields, (None, None, None, None, None), input, p, lim, 1, variant_len(fields))
                == (Ok::<(Option<A1::V>, Option<A2::V>, Option<A3::V>, Option<A4::V>, Option<A5::V>), ErrorView>((x1.slot_view(), x2.slot_view(), x3.slot_view(), x4.slot_view(), x5.slot_view())), pos + out.len())
        }),
{
    let values = (&x1, &x2, &x3, &x4, &x5);
    let target = (x1.slot_view(), x2.slot_view(), x3.slot_view(), x4.slot_view(), x5.slot_view());
    assert forall|i: nat| i < fields.len() implies #[trigger] elem_slot_roundtrips::<(&X1, &X2, &X3, &X4, &X5), (Option<A1>, Option<A2>, Option<A3>, Option<A4>, Option<A5>)>(values, target, input, lim, i) by {
        assert forall|p: nat, o: Seq<u8>, s: (Option<A1::V>, Option<A2::V>, Option<A3::V>, Option<A4::V>, Option<A5::V>), idx: usize|
            #![trigger values.spec_value_encodes(i, o), <(Option<A1>, Option<A2>, Option<A3>, Option<A4>, Option<A5>) as FieldSet>::spec_decode_elem_slot(s, i, idx, input, p, lim)]
            values.spec_value_encodes(i, o) && at(input, p, o) implies <(Option<A1>, Option<A2>, Option<A3>, Option<A4>, Option<A5>) as FieldSet>::spec_decode_elem_slot(
                s, i, idx, input, p, lim,
            ) == (Ok::<(Option<A1::V>, Option<A2::V>, Option<A3::V>, Option<A4::V>, Option<A5::V>), ErrorView>(<(Option<A1>, Option<A2>, Option<A3>, Option<A4>, Option<A5>) as FieldSet>::spec_with(s, target, i)), p + o.len()) by {
            if i == 0 {
                x1.lemma_slot(o, input, p, lim);
            } else if i == 1 {
                x2.lemma_slot(o, input, p, lim);
            } else if i == 2 {
                x3.lemma_slot(o, input, p, lim);
            } else if i == 3 {
                x4.lemma_slot(o, input, p, lim);
            } else {
                x5.lemma_slot(o, input, p, lim);
            }
        }
    }
    reveal_with_fuel(fill, 6);
    lemma_variant_roundtrip::<(&X1, &X2, &X3, &X4, &X5), (Option<A1>, Option<A2>, Option<A3>, Option<A4>, Option<A5>)>(variants, num, fields, values, target, out, input, pos, lim);
}

/// A structure of six fields decodes back, in either form: each slot
/// holds what its own field's value gives.
pub proof fn lemma_struct6_roundtrip<A1: Decodable, A2: Decodable, A3: Decodable, A4: Decodable, A5: Decodable, A6: Decodable, X1: SlotValue<A1>, X2: SlotValue<A2>, X3: SlotValue<A3>, X4: SlotValue<A4>, X5: SlotValue<A5>, X6: SlotValue<A6>>(
    fields: Seq<FieldSpec>,
    x1: X1,
    x2: X2,
    x3: X3,
    x4: X4,
    x5: X5,
    x6: X6,
    out: Seq<u8>,
    input: Seq<u8>,
    pos: nat,
    lim: Limits,
)
    requires
        X1::encoding_modeled(),
        X2::encoding_modeled(),
        X3::encoding_modeled(),
        X4::encoding_modeled(),
        X5::encoding_modeled(),
        X6::encoding_modeled(),
        A1::decoding_modeled(),
        A2::decoding_modeled(),
        A3::decoding_modeled(),
        A4::decoding_modeled(),
        A5::decoding_modeled(),
        A6::decoding_modeled(),
        fields.len() == 6,
        layout_fits(fields, lim),
        struct_encodes(fields, (&x1, &x2, &x3, &x4, &x5, &x6), out),
        at(input, pos, out),
        x1.slot_fits(lim),
        x2.slot_fits(lim),
        x3.slot_fits(lim),
        x4.slot_fits(lim),
        x5.slot_fits(lim),
        x6.slot_fits(lim),
    ensures
        struct_outcome::<(Option<A1>, Option<A2>, Option<A3>, Option<A4>, Option<A5>, Option<A6>)>(fields, input, pos, lim) == (
            Ok::<Option<(Option<A1::V>, Option<A2::V>, Option<A3::V>, Option<A4::V>, Option<A5::V>, Option<A6::V>)>, ErrorView>(Some((x1.slot_view(), x2.slot_view(), x3.slot_view(), x4.slot_view(), x5.slot_view(), x6.slot_view()))),
            pos + out.len(),
        ),
{
    let values = (&x1, &x2, &x3, &x4, &x5, &x6);
    let target = (x1.slot_view(), x2.slot_view(), x3.slot_view(), x4.slot_view(), x5.slot_view(), x6.slot_view());
    assert forall|i: nat| i < fields.len() implies #[trigger] slot_roundtrips::<(&X1, &X2, &X3, &X4, &X5, &X6), (Option<A1>, Option<A2>, Option<A3>, Option<A4>, Option<A5>, Option<A6>)>(fields, values, target, input, lim, i) by {
        assert forall|p: nat, o: Seq<u8>, s: (Option<A1::V>, Option<A2::V>, Option<A3::V>, Option<A4::V>, Option<A5::V>, Option<A6::V>)|
            #![trigger values.spec_value_encodes(i, o), <(Option<A1>, Option<A2>, Option<A3>, Option<A4>, Option<A5>, Option<A6>) as FieldSet>::spec_decode_slot(s, i, fields[i as int].name@, input, p, lim)]
            values.spec_value_encodes(i, o) && at(input, p, o) implies <(Option<A1>, Option<A2>, Option<A3>, Option<A4>, Option<A5>, Option<A6>) as FieldSet>::spec_decode_slot(
                s, i, fields[i as int].name@, input, p, lim,
            ) == (Ok::<(Option<A1::V>, Option<A2::V>, Option<A3::V>, Option<A4::V>, Option<A5::V>, Option<A6::V>), ErrorView>(<(Option<A1>, Option<A2>, Option<A3>, Option<A4>, Option<A5>, Option<A6>) as FieldSet>::spec_with(s, target, i)), p + o.len()) by {
            if i == 0 {
                x1.lemma_slot(o, input, p, lim);
            } else if i == 1 {
                x2.lemma_slot(o, input, p, lim);
            } else if i == 2 {
                x3.lemma_slot(o, input, p, lim);
            } else if i == 3 {
                x4.lemma_slot(o, input, p, lim);
            } else if i == 4 {
                x5.lemma_slot(o, input, p, lim);
            } else {
                x6.lemma_slot(o, input, p, lim);
            }
        }
    }
    reveal_with_fuel(fill, 7);
    lemma_struct_roundtrip::<(&X1, &X2, &X3, &X4, &X5, &X6), (Option<A1>, Option<A2>, Option<A3>, Option<A4>, Option<A5>, Option<A6>)>(fields, values, target, out, input, pos, lim);
}

/// A variant of six fields decodes back when its values are not
/// absent: the head selects the variant and each slot holds its own value.
pub proof fn lemma_variant6_roundtrip<A1: Decodable, A2: Decodable, A3: Decodable, A4: Decodable, A5: Decodable, A6: Decodable, X1: SlotValue<A1>, X2: SlotValue<A2>, X3: SlotValue<A3>, X4: SlotValue<A4>, X5: SlotValue<A5>, X6: SlotValue<A6>>(
    variants: Seq<VariantSpec>,
    num: u64,
    fields: Seq<FieldSpec>,
    x1: X1,
    x2: X2,
    x3: X3,
    x4: X4,
    x5: X5,
    x6: X6,
    out: Seq<u8>,
    input: Seq<u8>,
    pos: nat,
    lim: Limits,
)
    requires
        X1::encoding_modeled(),
        X2::encoding_modeled(),
        X3::encoding_modeled(),
        X4::encoding_modeled(),
        X5::encoding_modeled(),
        X6::encoding_modeled(),
        A1::decoding_modeled(),
        A2::decoding_modeled(),
        A3::decoding_modeled(),
        A4::decoding_modeled(),
        A5::decoding_modeled(),
        A6::decoding_modeled(),
        fields.len() == 6,
        1 <= number(fields, 0),
        numbered_in_order(fields),
        variant_len(fields) <= lim.max_len_array,
        lim.max_nesting > 0,
        variant_encodes(num, fields, (&x1, &x2, &x3, &x4, &x5, &x6), out),
        at(input, pos, out),
        x1.slot_fits(lim),
        x2.slot_fits(lim),
        x3.slot_fits(lim),
        x4.slot_fits(lim),
        x5.slot_fits(lim),
        x6.slot_fits(lim),
        x1.slot_view() is Some,
        x2.slot_view() is Some,
        x3.slot_view() is Some,
        x4.slot_view() is Some,
        x5.slot_view() is Some,
        x6.slot_view() is Some,
        find_number_from(variants, num, 0) is Some,
    ensures
        ({
            let (r, p) = enum_head_outcome(variants, input, pos, lim);
            &&& r == Ok::<Option<(usize, usize)>, ErrorView>(
                Some((find_number_from(variants, num, 0)->0 as usize, variant_len(fields) as usize)),
            )
            &&& variant_fields::<(Option<A1>, Option<A2>, Option<A3>, Option<A4>, Option<A5>, Option<A6>)>(fields, (None, None, None, None, None, None), input, p, lim, 1, variant_len(fields))
                == (Ok::<(Option<A1::V>, Option<A2::V>, Option<A3::V>, Option<A4::V>, Option<A5::V>, Option<A6::V>), ErrorView>((x1.slot_view(), x2.slot_view(), x3.slot_view(), x4.slot_view(), x5.slot_view(), x6.slot_view())), pos + out.len())
        }),
{
    let values = (&x1, &x2, &x3, &x4, &x5, &x6);
    let target = (x1.slot_view(), x2.slot_view(), x3.slot_view(), x4.slot_view(), x5.slot_view(), x6.slot_view());
    assert forall|i: nat| i < fields.len() implies #[trigger] elem_slot_roundtrips::<(&X1, &X2, &X3, &X4, &X5, &X6), (Option<A1>, Option<A2>, Option<A3>, Option<A4>, Option<A5>, Option<A6>)>(values, target, input, lim, i) by {
        assert forall|p: nat, o: Seq<u8>, s: (Option<A1::V>, Option<A2::V>, Option<A3::V>, Option<A4::V>, Option<A5::V>, Option<A6::V>), idx: usize|
            #![trigger values.spec_value_encodes(i, o), <(Option<A1>, Option<A2>, Option<A3>, Option<A4>, Option<A5>, Option<A6>) as FieldSet>::spec_decode_elem_slot(s, i, idx, input, p, lim)]
            values.spec_value_encodes(i, o) && at(input, p, o) implies <(Option<A1>, Option<A2>, Option<A3>, Option<A4>, Option<A5>, Option<A6>) as FieldSet>::spec_decode_elem_slot(
                s, i, idx, input, p, lim,
            ) == (Ok::<(Option<A1::V>, Option<A2::V>, Option<A3::V>, Option<A4::V>, Option<A5::V>, Option<A6::V>), ErrorView>(<(Option<A1>, Option<A2>, Option<A3>, Option<A4>, Option<A5>, Option<A6>) as FieldSet>::spec_with(s, target, i)), p + o.len()) by {
            if i == 0 {
                x1.lemma_slot(o, input, p, lim);
            } else if i == 1 {
                x2.lemma_slot(o, input, p, lim);
            } else if i == 2 {
                x3.lemma_slot(o, input, p, lim);
            } else if i == 3 {
                x4.lemma_slot(o, input, p, lim);
            } else if i == 4 {
                x5.lemma_slot(o, input, p, lim);
            } else {
                x6.lemma_slot(o, input, p, lim);
            }
        }
    }
    reveal_with_fuel(fill, 7);
    lemma_variant_roundtrip::<(&X1, &X2, &X3, &X4, &X5, &X6), (Option<A1>, Option<A2>, Option<A3>, Option<A4>, Option<A5>, Option<A6>)>(variants, num, fields, values, target, out, input, pos, lim);
}

/// A structure of seven fields decodes back, in either form: each slot
/// holds what its own field's value gives.
pub proof fn lemma_struct7_roundtrip<A1: Decodable, A2: Decodable, A3: Decodable, A4: Decodable, A5: Decodable, A6: Decodable, A7: Decodable, X1: SlotValue<A1>, X2: SlotValue<A2>, X3: SlotValue<A3>, X4: SlotValue<A4>, X5: SlotValue<A5>, X6: SlotValue<A6>, X7: SlotValue<A7>>(
    fields: Seq<FieldSpec>,
    x1: X1,
    x2: X2,
    x3: X3,
    x4: X4,
    x5: X5,
    x6: X6,
    x7: X7,
    out: Seq<u8>,
    input: Seq<u8>,
    pos: nat,
    lim: Limits,
)
    requires
        X1::encoding_modeled(),
        X2::encoding_modeled(),
        X3::encoding_modeled(),
        X4::encoding_modeled(),
        X5::encoding_modeled(),
        X6::encoding_modeled(),
        X7::encoding_modeled(),
        A1::decoding_modeled(),
        A2::decoding_modeled(),
        A3::decoding_modeled(),
        A4::decoding_modeled(),
        A5::decoding_modeled(),
        A6::decoding_modeled(),
        A7::decoding_modeled(),
        fields.len() == 7,
        layout_fits(fields, lim),
        struct_encodes(fields, (&x1, &x2, &x3, &x4, &x5, &x6, &x7), out),
        at(input, pos, out),
        x1.slot_fits(lim),
        x2.slot_fits(lim),
        x3.slot_fits(lim),
        x4.slot_fits(lim),
        x5.slot_fits(lim),
        x6.slot_fits(lim),
        x7.slot_fits(lim),
    ensures
        struct_outcome::<(Option<A1>, Option<A2>, Option<A3>, Option<A4>, Option<A5>, Option<A6>, Option<A7>)>(fields, input, pos, lim) == (
            Ok::<Option<(Option<A1::V>, Option<A2::V>, Option<A3::V>, Option<A4::V>, Option<A5::V>, Option<A6::V>, Option<A7::V>)>, ErrorView>(Some((x1.slot_view(), x2.slot_view(), x3.slot_view(), x4.slot_view(), x5.slot_view(), x6.slot_view(), x7.slot_view()))),
            pos + out.len(),
        ),
{
    let values = (&x1, &x2, &x3, &x4, &x5, &x6, &x7);
    let target = (x1.slot_view(), x2.slot_view(), x3.slot_view(), x4.slot_view(), x5.slot_view(), x6.slot_view(), x7.slot_view());
    assert forall|i: nat| i < fields.len() implies #[trigger] slot_roundtrips::<(&X1, &X2, &X3, &X4, &X5, &X6, &X7), (Option<A1>, Option<A2>, Option<A3>, Option<A4>, Option<A5>, Option<A6>, Option<A7>)>(fields, values, target, input, lim, i) by {
        assert forall|p: nat, o: Seq<u8>, s: (Option<A1::V>, Option<A2::V>, Option<A3::V>, Option<A4::V>, Option<A5::V>, Option<A6::V>, Option<A7::V>)|
            #![trigger values.spec_value_encodes(i, o), <(Option<A1>, Option<A2>, Option<A3>, Option<A4>, Option<A5>, Option<A6>, Option<A7>) as FieldSet>::spec_decode_slot(s, i, fields[i as int].name@, input, p, lim)]
            values.spec_value_encodes(i, o) && at(input, p, o) implies <(Option<A1>, Option<A2>, Option<A3>, Option<A4>, Option<A5>, Option<A6>, Option<A7>) as FieldSet>::spec_decode_slot(
                s, i, fields[i as int].name@, input, p, lim,
            ) == (Ok::<(Option<A1::V>, Option<A2::V>, Option<A3::V>, Option<A4::V>, Option<A5::V>, Option<A6::V>, Option<A7::V>), ErrorView>(<(Option<A1>, Option<A2>, Option<A3>, Option<A4>, Option<A5>, Option<A6>, Option<A7>) as FieldSet>::spec_with(s, target, i)), p + o.len()) by {
            if i == 0 {
                x1.lemma_slot(o, input, p, lim);
            } else if i == 1 {
                x2.lemma_slot(o, input, p, lim);
            } else if i == 2 {
                x3.lemma_slot(o, input, p, lim);
            } else if i == 3 {
                x4.lemma_slot(o, input, p, lim);
            } else if i == 4 {
                x5.lemma_slot(o, input, p, lim);
            } else if i == 5 {
                x6.lemma_slot(o, input, p, lim);
            } else {
                x7.lemma_slot(o, input, p, lim);
            }
        }
    }
    reveal_with_fuel(fill, 8);
    lemma_struct_roundtrip::<(&X1, &X2, &X3, &X4, &X5, &X6, &X7), (Option<A1>, Option<A2>, Option<A3>, Option<A4>, Option<A5>, Option<A6>, Option<A7>)>(fields, values, target, out, input, pos, lim);
}

/// A variant of seven fields decodes back when its values are not
/// absent: the head selects the variant and each slot holds its own value.
pub proof fn lemma_variant7_roundtrip<A1: Decodable, A2: Decodable, A3: Decodable, A4: Decodable, A5: Decodable, A6: Decodable, A7: Decodable, X1: SlotValue<A1>, X2: SlotValue<A2>, X3: SlotValue<A3>, X4: SlotValue<A4>, X5: SlotValue<A5>, X6: SlotValue<A6>, X7: SlotValue<A7>>(
    variants: Seq<VariantSpec>,
    num: u64,
    fields: Seq<FieldSpec>,
    x1: X1,
    x2: X2,
    x3: X3,
    x4: X4,
    x5: X5,
    x6: X6,
    x7: X7,
    out: Seq<u8>,
    input: Seq<u8>,
    pos: nat,
    lim: Limits,
)
    requires
        X1::encoding_modeled(),
        X2::encoding_modeled(),
        X3::encoding_modeled(),
        X4::encoding_modeled(),
        X5::encoding_modeled(),
        X6::encoding_modeled(),
        X7::encoding_modeled(),
        A1::decoding_modeled(),
        A2::decoding_modeled(),
        A3::decoding_modeled(),
        A4::decoding_modeled(),
        A5::decoding_modeled(),
        A6::decoding_modeled(),
        A7::decoding_modeled(),
        fields.len() == 7,
        1 <= number(fields, 0),
        numbered_in_order(fields),
        variant_len(fields) <= lim.max_len_array,
        lim.max_nesting > 0,
        variant_encodes(num, fields, (&x1, &x2, &x3, &x4, &x5, &x6, &x7), out),
        at(input, pos, out),
        x1.slot_fits(lim),
        x2.slot_fits(lim),
        x3.slot_fits(lim),
        x4.slot_fits(lim),
        x5.slot_fits(lim),
        x6.slot_fits(lim),
        x7.slot_fits(lim),
        x1.slot_view() is Some,
        x2.slot_view() is Some,
        x3.slot_view() is Some,
        x4.slot_view() is Some,
        x5.slot_view() is Some,
        x6.slot_view() is Some,
        x7.slot_view() is Some,
        find_number_from(variants, num, 0) is Some,
    ensures
        ({
            let (r, p) = enum_head_outcome(variants, input, pos, lim);
            &&& r == Ok::<Option<(usize, usize)>, ErrorView>(
                Some((find_number_from(variants, num, 0)->0 as usize, variant_len(fields) as usize)),
            )
            &&& variant_fields::<(Option<A1>, Option<A2>, Option<A3>, Option<A4>, Option<A5>, Option<A6>, Option<A7>)>(fields, (None, None, None, None, None, None, None), input, p, lim, 1, variant_len(fields))
                == (Ok::<(Option<A1::V>, Option<A2::V>, Option<A3::V>, Option<A4::V>, Option<A5::V>, Option<A6::V>, Option<A7::V>), ErrorView>((x1.slot_view(), x2.slot_view(), x3.slot_view(), x4.slot_view(), x5.slot_view(), x6.slot_view(), x7.slot_view())), pos + out.len())
        }),
{
    let values = (&x1, &x2, &x3, &x4, &x5, &x6, &x7);
    let target = (x1.slot_view(), x2.slot_view(), x3.slot_view(), x4.slot_view(), x5.slot_view(), x6.slot_view(), x7.slot_view());
    assert forall|i: nat| i < fields.len() implies #[trigger] elem_slot_roundtrips::<(&X1, &X2, &X3, &X4, &X5, &X6, &X7), (Option<A1>, Option<A2>, Option<A3>, Option<A4>, Option<A5>, Option<A6>, Option<A7>)>(values, target, input, lim, i) by {
        assert forall|p: nat, o: Seq<u8>, s: (Option<A1::V>, Option<A2::V>, Option<A3::V>, Option<A4::V>, Option<A5::V>, Option<A6::V>, Option<A7::V>), idx: usize|
            #![trigger values.spec_value_encodes(i, o), <(Option<A1>, Option<A2>, Option<A3>, Option<A4>, Option<A5>, Option<A6>, Option<A7>) as FieldSet>::spec_decode_elem_slot(s, i, idx, input, p, lim)]
            values.spec_value_encodes(i, o) && at(input, p, o) implies <(Option<A1>, Option<A2>, Option<A3>, Option<A4>, Option<A5>, Option<A6>, Option<A7>) as FieldSet>::spec_decode_elem_slot(
                s, i, idx, input, p, lim,
            ) == (Ok::<(Option<A1::V>, Option<A2::V>, Option<A3::V>, Option<A4::V>, Option<A5::V>, Option<A6::V>, Option<A7::V>), ErrorView>(<(Option<A1>, Option<A2>, Option<A3>, Option<A4>, Option<A5>, Option<A6>, Option<A7>) as FieldSet>::spec_with(s, target, i)), p + o.len()) by {
            if i == 0 {
                x1.lemma_slot(o, input, p, lim);
            } else if i == 1 {
                x2.lemma_slot(o, input, p, lim);
            } else if i == 2 {
                x3.lemma_slot(o, input, p, lim);
            } else if i == 3 {
                x4.lemma_slot(o, input, p, lim);
            } else if i == 4 {
                x5.lemma_slot(o, input, p, lim);
            } else if i == 5 {
                x6.lemma_slot(o, input, p, lim);
            } else {
                x7.lemma_slot(o, input, p, lim);
            }
        }
    }
    reveal_with_fuel(fill, 8);
    lemma_variant_roundtrip::<(&X1, &X2, &X3, &X4, &X5, &X6, &X7), (Option<A1>, Option<A2>, Option<A3>, Option<A4>, Option<A5>, Option<A6>, Option<A7>)>(variants, num, fields, values, target, out, input, pos, lim);
}

/// A structure of eight fields decodes back, in either form: each slot
/// holds what its own field's value gives.
pub proof fn lemma_struct8_roundtrip<A1: Decodable, A2: Decodable, A3: Decodable, A4: Decodable, A5: Decodable, A6: Decodable, A7: Decodable, A8: Decodable, X1: SlotValue<A1>, X2: SlotValue<A2>, X3: SlotValue<A3>, X4: SlotValue<A4>, X5: SlotValue<A5>, X6: SlotValue<A6>, X7: SlotValue<A7>, X8: SlotValue<A8>>(
    fields: Seq<FieldSpec>,
    x1: X1,
    x2: X2,
    x3: X3,
    x4: X4,
    x5: X5,
    x6: X6,
    x7: X7,
    x8: X8,
    out: Seq<u8>,
    input: Seq<u8>,
    pos: nat,
    lim: Limits,
)
    requires
        X1::encoding_modeled(),
        X2::encoding_modeled(),
        X3::encoding_modeled(),
        X4::encoding_modeled(),
        X5::encoding_modeled(),
        X6::encoding_modeled(),
        X7::encoding_modeled(),
        X8::encoding_modeled(),
        A1::decoding_modeled(),
        A2::decoding_modeled(),
        A3::decoding_modeled(),
        A4::decoding_modeled(),
        A5::decoding_modeled(),
        A6::decoding_modeled(),
        A7::decoding_modeled(),
        A8::decoding_modeled(),
        fields.len() == 8,
        layout_fits(fields, lim),
        struct_encodes(fields, (&x1, &x2, &x3, &x4, &x5, &x6, &x7, &x8), out),
        at(input, pos, out),
        x1.slot_fits(lim),
        x2.slot_fits(lim),
        x3.slot_fits(lim),
        x4.slot_fits(lim),
        x5.slot_fits(lim),
        x6.slot_fits(lim),
        x7.slot_fits(lim),
        x8.slot_fits(lim),
    ensures
        struct_outcome::<(Option<A1>, Option<A2>, Option<A3>, Option<A4>, Option<A5>, Option<A6>, Option<A7>, Option<A8>)>(fields, input, pos, lim) == (
            Ok::<Option<(Option<A1::V>, Option<A2::V>, Option<A3::V>, Option<A4::V>, Option<A5::V>, Option<A6::V>, Option<A7::V>, Option<A8::V>)>, ErrorView>(Some((x1.slot_view(), x2.slot_view(), x3.slot_view(), x4.slot_view(), x5.slot_view(), x6.slot_view(), x7.slot_view(), x8.slot_view()))),
            pos + out.len(),
        ),
{
    let values = (&x1, &x2, &x3, &x4, &x5, &x6, &x7, &x8);
    let target = (x1.slot_view(), x2.slot_view(), x3.slot_view(), x4.slot_view(), x5.slot_view(), x6.slot_view(), x7.slot_view(), x8.slot_view());
    assert forall|i: nat| i < fields.len() implies #[trigger] slot_roundtrips::<(&X1, &X2, &X3, &X4, &X5, &X6, &X7, &X8), (Option<A1>, Option<A2>, Option<A3>, Option<A4>, Option<A5>, Option<A6>, Option<A7>, Option<A8>)>(fields, values, target, input, lim, i) by {
        assert forall|p: nat, o: Seq<u8>, s: (Option<A1::V>, Option<A2::V>, Option<A3::V>, Option<A4::V>, Option<A5::V>, Option<A6::V>, Option<A7::V>, Option<A8::V>)|
            #![trigger values.spec_value_encodes(i, o), <(Option<A1>, Option<A2>, Option<A3>, Option<A4>, Option<A5>, Option<A6>, Option<A7>, Option<A8>) as FieldSet>::spec_decode_slot(s, i, fields[i as int].name@, input, p, lim)]
            values.spec_value_encodes(i, o) && at(input, p, o) implies <(Option<A1>, Option<A2>, Option<A3>, Option<A4>, Option<A5>, Option<A6>, Option<A7>, Option<A8>) as FieldSet>::spec_decode_slot(
                s, i, fields[i as int].name@, input, p, lim,
            ) == (Ok::<(Option<A1::V>, Option<A2::V>, Option<A3::V>, Option<A4::V>, Option<A5::V>, Option<A6::V>, Option<A7::V>, Option<A8::V>), ErrorView>(<(Option<A1>, Option<A2>, Option<A3>, Option<A4>, Option<A5>, Option<A6>, Option<A7>, Option<A8>) as FieldSet>::spec_with(s, target, i)), p + o.len()) by {
            if i == 0 {
                x1.lemma_slot(o, input, p, lim);
            } else if i == 1 {
                x2.lemma_slot(o, input, p, lim);
            } else if i == 2 {
                x3.lemma_slot(o, input, p, lim);
            } else if i == 3 {
                x4.lemma_slot(o, input, p, lim);
            } else if i == 4 {
                x5.lemma_slot(o, input, p, lim);
            } else if i == 5 {
                x6.lemma_slot(o, input, p, lim);
            } else if i == 6 {
                x7.lemma_slot(o, input, p, lim);
            } else {
                x8.lemma_slot(o, input, p, lim);
            }
        }
    }
    reveal_with_fuel(fill, 9);
    lemma_struct_roundtrip::<(&X1, &X2, &X3, &X4, &X5, &X6, &X7, &X8), (Option<A1>, Option<A2>, Option<A3>, Option<A4>, Option<A5>, Option<A6>, Option<A7>, Option<A8>)>(fields, values, target, out, input, pos, lim);
}

/// A variant of eight fields decodes back when its values are not
/// absent: the head selects the variant and each slot holds its own value.
pub proof fn lemma_variant8_roundtrip<A1: Decodable, A2: Decodable, A3: Decodable, A4: Decodable, A5: Decodable, A6: Decodable, A7: Decodable, A8: Decodable, X1: SlotValue<A1>, X2: SlotValue<A2>, X3: SlotValue<A3>, X4: SlotValue<A4>, X5: SlotValue<A5>, X6: SlotValue<A6>, X7: SlotValue<A7>, X8: SlotValue<A8>>(
    variants: Seq<VariantSpec>,
    num: u64,
    fields: Seq<FieldSpec>,
    x1: X1,
    x2: X2,
    x3: X3,
    x4: X4,
    x5: X5,
    x6: X6,
    x7: X7,
    x8: X8,
    out: Seq<u8>,
    input: Seq<u8>,
    pos: nat,
    lim: Limits,
)
    requires
        X1::encoding_modeled(),
        X2::encoding_modeled(),
        X3::encoding_modeled(),
        X4::encoding_modeled(),
        X5::encoding_modeled(),
        X6::encoding_modeled(),
        X7::encoding_modeled(),
        X8::encoding_modeled(),
        A1::decoding_modeled(),
        A2::decoding_modeled(),
        A3::decoding_modeled(),
        A4::decoding_modeled(),
        A5::decoding_modeled(),
        A6::decoding_modeled(),
        A7::decoding_modeled(),
        A8::decoding_modeled(),
        fields.len() == 8,
        1 <= number(fields, 0),
        numbered_in_order(fields),
        variant_len(fields) <= lim.max_len_array,
        lim.max_nesting > 0,
        variant_encodes(num, fields, (&x1, &x2, &x3, &x4, &x5, &x6, &x7, &x8), out),
        at(input, pos, out),
        x1.slot_fits(lim),
        x2.slot_fits(lim),
        x3.slot_fits(lim),
        x4.slot_fits(lim),
        x5.slot_fits(lim),
        x6.slot_fits(lim),
        x7.slot_fits(lim),
        x8.slot_fits(lim),
        x1.slot_view() is Some,
        x2.slot_view() is Some,
        x3.slot_view() is Some,
        x4.slot_view() is Some,
        x5.slot_view() is Some,
        x6.slot_view() is Some,
        x7.slot_view() is Some,
        x8.slot_view() is Some,
        find_number_from(variants, num, 0) is Some,
    ensures
        ({
            let (r, p) = enum_head_outcome(variants, input, pos, lim);
            &&& r == Ok::<Option<(usize, usize)>, ErrorView>(
                Some((find_number_from(variants, num, 0)->0 as usize, variant_len(fields) as usize)),
            )
            &&& variant_fields::<(Option<A1>, Option<A2>, Option<A3>, Option<A4>, Option<A5>, Option<A6>, Option<A7>, Option<A8>)>(fields, (None, None, None, None, None, None, None, None), input, p, lim, 1, variant_len(fields))
                == (Ok::<(Option<A1::V>, Option<A2::V>, Option<A3::V>, Option<A4::V>, Option<A5::V>, Option<A6::V>, Option<A7::V>, Option<A8::V>), ErrorView>((x1.slot_view(), x2.slot_view(), x3.slot_view(), x4.slot_view(), x5.slot_view(), x6.slot_view(), x7.slot_view(), x8.slot_view())), pos + out.len())
        }),
{
    let values = (&x1, &x2, &x3, &x4, &x5, &x6, &x7, &x8);
    let target = (x1.slot_view(), x2.slot_view(), x3.slot_view(), x4.slot_view(), x5.slot_view(), x6.slot_view(), x7.slot_view(), x8.slot_view());
    assert forall|i: nat| i < fields.len() implies #[trigger] elem_slot_roundtrips::<(&X1, &X2, &X3, &X4, &X5, &X6, &X7, &X8), (Option<A1>, Option<A2>, Option<A3>, Option<A4>, Option<A5>, Option<A6>, Option<A7>, Option<A8>)>(values, target, input, lim, i) by {
        assert forall|p: nat, o: Seq<u8>, s: (Option<A1::V>, Option<A2::V>, Option<A3::V>, Option<A4::V>, Option<A5::V>, Option<A6::V>, Option<A7::V>, Option<A8::V>), idx: usize|
            #![trigger values.spec_value_encodes(i, o), <(Option<A1>, Option<A2>, Option<A3>, Option<A4>, Option<A5>, Option<A6>, Option<A7>, Option<A8>) as FieldSet>::spec_decode_elem_slot(s, i, idx, input, p, lim)]
            values.spec_value_encodes(i, o) && at(input, p, o) implies <(Option<A1>, Option<A2>, Option<A3>, Option<A4>, Option<A5>, Option<A6>, Option<A7>, Option<A8>) as FieldSet>::spec_decode_elem_slot(
                s, i, idx, input, p, lim,
            ) == (Ok::<(Option<A1::V>, Option<A2::V>, Option<A3::V>, Option<A4::V>, Option<A5::V>, Option<A6::V>, Option<A7::V>, Option<A8::V>), ErrorView>(<(Option<A1>, Option<A2>, Option<A3>, Option<A4>, Option<A5>, Option<A6>, Option<A7>, Option<A8>) as FieldSet>::spec_with(s, target, i)), p + o.len()) by {
            if i == 0 {
                x1.lemma_slot(o, input, p, lim);
            } else if i == 1 {
                x2.lemma_slot(o, input, p, lim);
            } else if i == 2 {
                x3.lemma_slot(o, input, p, lim);
            } else if i == 3 {
                x4.lemma_slot(o, input, p, lim);
            } else if i == 4 {
                x5.lemma_slot(o, input, p, lim);
            } else if i == 5 {
                x6.lemma_slot(o, input, p, lim);
            } else if i == 6 {
                x7.lemma_slot(o, input, p, lim);
            } else {
                x8.lemma_slot(o, input, p, lim);
            }
        }
    }
    reveal_with_fuel(fill, 9);
    lemma_variant_roundtrip::<(&X1, &X2, &X3, &X4, &X5, &X6, &X7, &X8), (Option<A1>, Option<A2>, Option<A3>, Option<A4>, Option<A5>, Option<A6>, Option<A7>, Option<A8>)>(variants, num, fields, values, target, out, input, pos, lim);
}

} // verus!
