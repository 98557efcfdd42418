//! The laws of structures: decoding the encoding of a structure's field
//! values, in the array form or in the object form, fills every slot with
//! what decoding that field's value gives.
use crate::cbor_io::{cbor_skip, cbor_text, cbor_unsigned, Limits};
use crate::errors::ErrorView;
use crate::laws::{lemma_at_part, lemma_null_head, RoundTrip};
use crate::traits::{Decodable, Encodable};
use crate::structs::{array_fields, array_len, array_slots_encode, dispatch_outcome, entry_outcome, field_key, fill, find_index_from, find_name_from, numbered_in_order, object_entries_encode, object_fields, slots_before, struct_encodes, struct_outcome, FieldSet, FieldSpec, FieldValues};
use crate::wire::{at, head64, lemma_head_at, lemma_head_len, nnulls, null_item};
use vstd::prelude::*;
use vstd::utf8::{encode_utf8, encode_utf8_decode_utf8, encode_utf8_valid_utf8};

verus! {

/// Decoding an encoding of value `i` into slot `i`, from any slots and at
/// any place, takes slot `i` from `target` and stops where the encoding
/// ends.
pub open spec fn slot_roundtrips<V: FieldValues, S: FieldSet>(
    fields: Seq<FieldSpec>,
    values: V,
    target: S::V,
    input: Seq<u8>,
    lim: Limits,
    i: nat,
) -> bool {
    forall|p: nat, o: Seq<u8>, s: S::V|
        #![trigger values.spec_value_encodes(i, o), S::spec_decode_slot(s, i, fields[i as int].name@, input, p, lim)]
        values.spec_value_encodes(i, o) && at(input, p, o) ==> S::spec_decode_slot(
            s,
            i,
            fields[i as int].name@,
            input,
            p,
            lim,
        ) == (Ok::<S::V, ErrorView>(S::spec_with(s, target, i)), p + o.len())
}

/// Every field's slot round-trips.
pub open spec fn slots_roundtrip<V: FieldValues, S: FieldSet>(
    fields: Seq<FieldSpec>,
    values: V,
    target: S::V,
    input: Seq<u8>,
    lim: Limits,
) -> bool {
    forall|i: nat| i < fields.len() ==> #[trigger] slot_roundtrips::<V, S>(fields, values, target, input, lim, i)
}

/// After a head that the encoder wrote, the argument read from the head's
/// first byte on is the head's argument, and it ends where the head does.
pub proof fn lemma_unsigned_after_head(input: Seq<u8>, pos: nat, major: u8, n: nat)
    requires
        major < 8,
        n < 0x1_0000_0000_0000_0000,
        at(input, pos, head64(major, n)),
    ensures
        ({
            let h = head64(major, n);
            let info = (h[0] as nat) % 32;
            &&& info <= 27
            &&& cbor_unsigned(input, pos + 1, info as u8) == (Ok::<u64, crate::cbor_io::CborFault>(n as u64), pos + h.len())
        }),
{
    lemma_head_at(input, pos, major, n, true);
}

/// The first field from `i` on with number `idx` is the field `k`.
pub proof fn lemma_find_index(fields: Seq<FieldSpec>, idx: u64, i: nat, k: nat)
    requires
        i <= k < fields.len(),
        fields[k as int].index == Some(idx),
        forall|j: int| i <= j < k ==> #[trigger] fields[j].index != Some(idx),
    ensures
        find_index_from(fields, idx, i) == Some(k),
    decreases k - i,
{
    if i < k {
        lemma_find_index(fields, idx, i + 1, k);
    }
}

/// No field from `i` on has number `idx`.
pub proof fn lemma_find_index_none(fields: Seq<FieldSpec>, idx: u64, i: nat)
    requires
        forall|j: int| i <= j < fields.len() ==> #[trigger] fields[j].index != Some(idx),
    ensures
        find_index_from(fields, idx, i) is None,
    decreases fields.len() - i,
{
    if i < fields.len() {
        lemma_find_index_none(fields, idx, i + 1);
    }
}

/// The first field from `i` on named `name` is the field `k`.
pub proof fn lemma_find_name(fields: Seq<FieldSpec>, name: Seq<char>, i: nat, k: nat)
    requires
        i <= k < fields.len(),
        fields[k as int].name@ == name,
        forall|j: int| i <= j < k ==> #[trigger] fields[j].name@ != name,
    ensures
        find_name_from(fields, name, i) == Some(k),
    decreases k - i,
{
    if i < k {
        lemma_find_name(fields, name, i + 1, k);
    }
}

/// Where `null` stands, skipping reads its one byte.
pub proof fn lemma_skip_null(input: Seq<u8>, pos: nat, lim: Limits)
    requires
        at(input, pos, null_item()),
        lim.max_nesting > 0,
    ensures
        cbor_skip(input, pos, lim) == (Ok::<(), crate::cbor_io::CborFault>(()), pos + 1),
{
    lemma_null_head(input, pos);
}

/// No field has number `m`.
pub open spec fn no_field_at(fields: Seq<FieldSpec>, m: nat) -> bool {
    forall|j: int| 0 <= j < fields.len() ==> #[trigger] fields[j].index != Some(m as u64)
}

/// Array elements that are `null` and that no field takes are skipped.
pub proof fn lemma_skip_nulls<S: FieldSet>(
    fields: Seq<FieldSpec>,
    s: S::V,
    input: Seq<u8>,
    p: nat,
    lim: Limits,
    idx: nat,
    gap: nat,
    len: nat,
)
    requires
        at(input, p, nnulls(gap)),
        lim.max_nesting > 0,
        idx + gap <= len,
        len < 0x1_0000_0000_0000_0000,
        forall|m: nat| idx <= m < idx + gap ==> #[trigger] no_field_at(fields, m),
    ensures
        array_fields::<S>(fields, s, input, p, lim, idx, len) == array_fields::<S>(fields, s, input, p + gap, lim, idx + gap, len),
    decreases gap,
{
    if gap > 0 {
        assert(nnulls(gap).subrange(0, 1) =~= null_item());
        lemma_at_part(input, p, nnulls(gap), 0, 1);
        lemma_skip_null(input, p, lim);
        assert(no_field_at(fields, idx));
        lemma_find_index_none(fields, idx as u64, 0);
        assert(nnulls(gap).subrange(1, gap as int) =~= nnulls((gap - 1) as nat));
        lemma_at_part(input, p, nnulls(gap), 1, gap as int);
        lemma_skip_nulls::<S>(fields, s, input, p + 1, lim, idx + 1, (gap - 1) as nat, len);
    }
}

/// The number of a field in the array form.
pub open spec fn number(fields: Seq<FieldSpec>, k: int) -> nat {
    fields[k].index->Some_0 as nat
}

/// Decoding the array slots of the first `k` fields fills the first `k`
/// slots.
pub proof fn lemma_array_prefix<V: FieldValues, S: FieldSet>(
    fields: Seq<FieldSpec>,
    values: V,
    target: S::V,
    input: Seq<u8>,
    lim: Limits,
    p0: nat,
    o: Seq<u8>,
    k: nat,
    len: nat,
)
    requires
        numbered_in_order(fields),
        0 < fields.len(),
        k <= fields.len(),
        number(fields, fields.len() - 1) < len < 0x1_0000_0000_0000_0000,
        array_slots_encode(fields, values, 0, k, o),
        at(input, p0, o),
        lim.max_nesting > 0,
        slots_roundtrip::<V, S>(fields, values, target, input, lim),
    ensures
        array_fields::<S>(fields, S::spec_empty(), input, p0, lim, 0, len) == array_fields::<S>(
            fields,
            fill::<S>(S::spec_empty(), target, k),
            input,
            p0 + o.len(),
            lim,
            slots_before(fields, k, 0),
            len,
        ),
    decreases k,
{
    if k > 0 {
        let km = (k - 1) as nat;
        let first = slots_before(fields, km, 0);
        let gap = (number(fields, km as int) - first) as nat;
        let j = choose|j: int|
            0 <= j && j + gap <= o.len() && array_slots_encode(fields, values, 0, km, #[trigger] o.take(j))
                && o.subrange(j, j + gap) == nnulls(gap) && values.spec_value_encodes(km, o.skip(j + gap));
        assert(o.subrange(0, j) =~= o.take(j));
        lemma_at_part(input, p0, o, 0, j);
        lemma_array_prefix::<V, S>(fields, values, target, input, lim, p0, o.take(j), km, len);
        let s = fill::<S>(S::spec_empty(), target, km);
        let p = p0 + j;
        assert(number(fields, km as int) <= number(fields, fields.len() - 1));
        if km > 0 {
            assert(number(fields, km - 1) < number(fields, km as int));
        }
        lemma_at_part(input, p0, o, j, j + gap);
        assert forall|m: nat| first <= m < first + gap implies #[trigger] no_field_at(fields, m) by {
            assert forall|jj: int| 0 <= jj < fields.len() implies #[trigger] fields[jj].index != Some(m as u64) by {
                if jj < km {
                    assert(number(fields, jj) <= number(fields, km - 1));
                } else if jj > km {
                    assert(number(fields, km as int) < number(fields, jj));
                }
            }
        }
        lemma_skip_nulls::<S>(fields, s, input, p as nat, lim, first, gap, len);
        let idx = number(fields, km as int);
        let ov = o.skip(j + gap);
        assert(o.subrange(j + gap, o.len() as int) =~= ov);
        lemma_at_part(input, p0, o, j + gap, o.len() as int);
        assert forall|jj: int| 0 <= jj < km implies #[trigger] fields[jj].index != Some(idx as u64) by {
            assert(number(fields, jj) < number(fields, km as int));
        }
        lemma_find_index(fields, idx as u64, 0, km);
        assert(slot_roundtrips::<V, S>(fields, values, target, input, lim, km));
        assert(values.spec_value_encodes(km, ov));
        let q = (p + gap) as nat;
        assert(S::spec_decode_slot(s, km, fields[km as int].name@, input, q, lim) == (Ok::<S::V, ErrorView>(S::spec_with(s, target, km)), q + ov.len()));
        assert(dispatch_outcome::<S>(fields, s, idx as u64, input, q, lim) == (Ok::<S::V, ErrorView>(S::spec_with(s, target, km)), q + ov.len()));
    }
}

/// The array form of a structure whose fields are all numbered, in
/// increasing order, decodes back into the slots of `target`, when each
/// field's value does and `target` is what filling all slots gives.
pub proof fn lemma_struct_array_roundtrip<V: FieldValues, S: FieldSet>(
    fields: Seq<FieldSpec>,
    values: V,
    target: S::V,
    out: Seq<u8>,
    input: Seq<u8>,
    pos: nat,
    lim: Limits,
)
    requires
        0 < fields.len(),
        numbered_in_order(fields),
        struct_encodes(fields, values, out),
        at(input, pos, out),
        lim.max_nesting > 0,
        array_len(fields) <= lim.max_len_array,
        slots_roundtrip::<V, S>(fields, values, target, input, lim),
        fill::<S>(S::spec_empty(), target, fields.len()) == target,
    ensures
        struct_outcome::<S>(fields, input, pos, lim) == (Ok::<Option<S::V>, ErrorView>(Some(target)), pos + out.len()),
{
    let n = fields.len();
    assert(forall|i: int| 0 <= i < fields.len() ==> #[trigger] fields[i].index is Some);
    let len = array_len(fields);
    let h = head64(4, len);
    let hl = h.len() as int;
    lemma_head_len(4, len);
    assert(out.subrange(0, hl) =~= h);
    lemma_at_part(input, pos, out, 0, hl);
    lemma_head_at(input, pos, 4, len, true);
    let rest = out.skip(hl);
    assert(out.subrange(hl, out.len() as int) =~= rest);
    lemma_at_part(input, pos, out, hl, out.len() as int);
    lemma_array_prefix::<V, S>(fields, values, target, input, lim, (pos + hl) as nat, rest, n, len);
}

/// No two fields share a name, and no two numbered fields share a number.
pub open spec fn keys_distinct(fields: Seq<FieldSpec>) -> bool {
    &&& forall|i: int, j: int| 0 <= i < j < fields.len() ==> #[trigger] fields[i].name@ != #[trigger] fields[j].name@
    &&& forall|i: int, j: int|
        0 <= i < j < fields.len() && #[trigger] fields[i].index is Some && #[trigger] fields[j].index is Some
            ==> fields[i].index != fields[j].index
}

/// The name of every field without a number is within the text limit.
pub open spec fn names_fit(fields: Seq<FieldSpec>, lim: Limits) -> bool {
    forall|i: int| 0 <= i < fields.len() && #[trigger] fields[i].index is None
        ==> encode_utf8(fields[i].name@).len() <= lim.max_len_text
}

/// Decoding an entry whose key is field `k`'s key and whose value is an
/// encoding of value `k` fills slot `k`.
pub proof fn lemma_entry<V: FieldValues, S: FieldSet>(
    fields: Seq<FieldSpec>,
    values: V,
    target: S::V,
    input: Seq<u8>,
    lim: Limits,
    s: S::V,
    p: nat,
    key: Seq<u8>,
    ov: Seq<u8>,
    k: nat,
)
    requires
        k < fields.len(),
        key == field_key(fields[k as int]),
        keys_distinct(fields),
        names_fit(fields, lim),
        at(input, p, key + ov),
        values.spec_value_encodes(k, ov),
        lim.max_nesting > 0,
        slots_roundtrip::<V, S>(fields, values, target, input, lim),
    ensures
        entry_outcome::<S>(fields, s, input, p, lim) == (Ok::<S::V, ErrorView>(S::spec_with(s, target, k)), p + key.len() + ov.len()),
{
    let whole = key + ov;
    let kl = key.len() as int;
    assert(whole.subrange(0, kl) =~= key);
    lemma_at_part(input, p, whole, 0, kl);
    assert(whole.subrange(kl, whole.len() as int) =~= ov);
    lemma_at_part(input, p, whole, kl, whole.len() as int);
    assert(slot_roundtrips::<V, S>(fields, values, target, input, lim, k));
    let q = (p + kl) as nat;
    assert(S::spec_decode_slot(s, k, fields[k as int].name@, input, q, lim) == (Ok::<S::V, ErrorView>(S::spec_with(s, target, k)), q + ov.len()));
    match fields[k as int].index {
        Some(m) => {
            lemma_head_at(input, p, 0, m as nat, true);
            lemma_unsigned_after_head(input, p, 0, m as nat);
            assert forall|j: int| 0 <= j < k implies #[trigger] fields[j].index != Some(m) by {
                if fields[j].index is Some {
                    assert(fields[k as int].index is Some);
                }
            }
            lemma_find_index(fields, m, 0, k);
        },
        None => {
            let name = fields[k as int].name@;
            let bytes = encode_utf8(name);
            let h = head64(3, bytes.len());
            let hl = h.len() as int;
            lemma_head_len(3, bytes.len());
            assert(key.subrange(0, hl) =~= h);
            lemma_at_part(input, p, key, 0, hl);
            lemma_head_at(input, p, 3, bytes.len(), true);
            assert(key.subrange(hl, kl) =~= bytes);
            lemma_at_part(input, p, key, hl, kl);
            encode_utf8_valid_utf8(name);
            encode_utf8_decode_utf8(name);
            assert(cbor_text(input, p, lim).0 == Ok::<Seq<char>, crate::cbor_io::CborFault>(name));
            assert forall|j: int| 0 <= j < k implies #[trigger] fields[j].name@ != name by {}
            lemma_find_name(fields, name, 0, k);
        },
    }
}

/// Decoding the entries of the first `k` fields fills the first `k` slots.
pub proof fn lemma_object_prefix<V: FieldValues, S: FieldSet>(
    fields: Seq<FieldSpec>,
    values: V,
    target: S::V,
    input: Seq<u8>,
    lim: Limits,
    q0: nat,
    o: Seq<u8>,
    k: nat,
    n: nat,
)
    requires
        k <= n,
        n == fields.len(),
        keys_distinct(fields),
        names_fit(fields, lim),
        object_entries_encode(fields, values, k, o),
        at(input, q0, o),
        lim.max_nesting > 0,
        slots_roundtrip::<V, S>(fields, values, target, input, lim),
    ensures
        object_fields::<S>(fields, S::spec_empty(), input, q0, lim, 0, n) == object_fields::<S>(
            fields,
            fill::<S>(S::spec_empty(), target, k),
            input,
            q0 + o.len(),
            lim,
            k,
            n,
        ),
    decreases k,
{
    if k > 0 {
        let km = (k - 1) as nat;
        let key = field_key(fields[km as int]);
        let j = choose|j: int|
            0 <= j && j + key.len() <= o.len() && object_entries_encode(fields, values, km, #[trigger] o.take(j))
                && o.subrange(j, j + key.len()) == key && values.spec_value_encodes(km, o.skip(j + key.len()));
        assert(o.subrange(0, j) =~= o.take(j));
        lemma_at_part(input, q0, o, 0, j);
        lemma_object_prefix::<V, S>(fields, values, target, input, lim, q0, o.take(j), km, n);
        let ov = o.skip(j + key.len());
        assert(o.subrange(j, o.len() as int) =~= key + ov);
        lemma_at_part(input, q0, o, j, o.len() as int);
        let s = fill::<S>(S::spec_empty(), target, km);
        lemma_entry::<V, S>(fields, values, target, input, lim, s, (q0 + j) as nat, key, ov, km);
    }
}

/// The object form of a structure that has a field without a number
/// decodes back into the slots of `target`, when each field's value does,
/// the keys are distinct, and `target` is what filling all slots gives.
pub proof fn lemma_struct_object_roundtrip<V: FieldValues, S: FieldSet>(
    fields: Seq<FieldSpec>,
    values: V,
    target: S::V,
    out: Seq<u8>,
    input: Seq<u8>,
    pos: nat,
    lim: Limits,
)
    requires
        !(forall|i: int| 0 <= i < fields.len() ==> #[trigger] fields[i].index is Some),
        fields.len() < 0x1_0000_0000_0000_0000,
        keys_distinct(fields),
        names_fit(fields, lim),
        struct_encodes(fields, values, out),
        at(input, pos, out),
        lim.max_nesting > 0,
        slots_roundtrip::<V, S>(fields, values, target, input, lim),
        fill::<S>(S::spec_empty(), target, fields.len()) == target,
    ensures
        struct_outcome::<S>(fields, input, pos, lim) == (Ok::<Option<S::V>, ErrorView>(Some(target)), pos + out.len()),
{
    let n = fields.len();
    let h = head64(5, n);
    let hl = h.len() as int;
    lemma_head_len(5, n);
    assert(out.subrange(0, hl) =~= h);
    lemma_at_part(input, pos, out, 0, hl);
    lemma_head_at(input, pos, 5, n, true);
    lemma_unsigned_after_head(input, pos, 5, n);
    let rest = out.skip(hl);
    assert(out.subrange(hl, out.len() as int) =~= rest);
    lemma_at_part(input, pos, out, hl, out.len() as int);
    lemma_object_prefix::<V, S>(fields, values, target, input, lim, (pos + hl) as nat, rest, n, n);
}

/// The encoding of the fields is decoded back by its form: an array when
/// every field has a number (numbers increasing, at least one field, within
/// the array limit), else an object (distinct keys, names within the text
/// limit).
pub open spec fn layout_fits(fields: Seq<FieldSpec>, lim: Limits) -> bool {
    &&& lim.max_nesting > 0
    &&& if forall|i: int| 0 <= i < fields.len() ==> #[trigger] fields[i].index is Some {
        &&& 0 < fields.len()
        &&& numbered_in_order(fields)
        &&& array_len(fields) <= lim.max_len_array
    } else {
        &&& fields.len() < 0x1_0000_0000_0000_0000
        &&& keys_distinct(fields)
        &&& names_fit(fields, lim)
    }
}

/// A structure's encoding decodes back into the slots of `target`, in
/// either form, when each field's value does and `target` is what filling
/// all slots gives.
pub proof fn lemma_struct_roundtrip<V: FieldValues, S: FieldSet>(
    fields: Seq<FieldSpec>,
    values: V,
    target: S::V,
    out: Seq<u8>,
    input: Seq<u8>,
    pos: nat,
    lim: Limits,
)
    requires
        layout_fits(fields, lim),
        struct_encodes(fields, values, out),
        at(input, pos, out),
        slots_roundtrip::<V, S>(fields, values, target, input, lim),
        fill::<S>(S::spec_empty(), target, fields.len()) == target,
    ensures
        struct_outcome::<S>(fields, input, pos, lim) == (Ok::<Option<S::V>, ErrorView>(Some(target)), pos + out.len()),
{
    if forall|i: int| 0 <= i < fields.len() ==> #[trigger] fields[i].index is Some {
        lemma_struct_array_roundtrip::<V, S>(fields, values, target, out, input, pos, lim);
    } else {
        lemma_struct_object_roundtrip::<V, S>(fields, values, target, out, input, pos, lim);
    }
}

/// A type of field values whose encoding, decoded as `A` into the field's
/// slot, gives `slot_view`: `A` itself, whose values decode back, or an
/// option of `A`, whose absent value is `null`.
pub trait SlotValue<A: Decodable>: Encodable {
    /// What the slot holds after decoding the value's encoding.
    spec fn slot_view(&self) -> Option<A::V>;

    /// The value's encoding decodes back under the limits `lim`.
    spec fn slot_fits(&self, lim: Limits) -> bool;

    /// Decoding the value's encoding as `A` gives `slot_view` and stops where
    /// the encoding ends.
    proof fn lemma_slot(&self, out: Seq<u8>, input: Seq<u8>, pos: nat, lim: Limits)
        requires
            Self::encoding_modeled(),
            A::decoding_modeled(),
            self.spec_encodes(out),
            at(input, pos, out),
            self.slot_fits(lim),
        ensures
            A::spec_decode(input, pos, lim) == (Ok::<Option<A::V>, ErrorView>(self.slot_view()), pos + out.len()),
    ;
}

/// A required field: its value is decoded back.
impl<A: RoundTrip> SlotValue<A> for A {
    open spec fn slot_view(&self) -> Option<A::V> {
        Some(self.deep_view())
    }

    open spec fn slot_fits(&self, lim: Limits) -> bool {
        self.spec_fits(lim)
    }

    proof fn lemma_slot(&self, out: Seq<u8>, input: Seq<u8>, pos: nat, lim: Limits) {
        self.lemma_roundtrip(out, input, pos, lim);
    }
}

/// An optional field: a present value is decoded back, an absent one is
/// `null`, which leaves the slot empty.
impl<A: RoundTrip> SlotValue<A> for Option<A> {
    open spec fn slot_view(&self) -> Option<A::V> {
        match self {
            Some(x) => Some(x.deep_view()),
            None => None,
        }
    }

    open spec fn slot_fits(&self, lim: Limits) -> bool {
        match self {
            Some(x) => x.spec_fits(lim),
            None => A::spec_null() is None && lim.max_nesting > 0,
        }
    }

    proof fn lemma_slot(&self, out: Seq<u8>, input: Seq<u8>, pos: nat, lim: Limits) {
        match self {
            Some(x) => x.lemma_roundtrip(out, input, pos, lim),
            None => A::lemma_null(input, pos, lim),
        }
    }
}

/// A structure of one field decodes back: its slot holds what the field's
/// value gives.
pub proof fn lemma_struct1_roundtrip<A: Decodable, X: SlotValue<A>>(
    fields: Seq<FieldSpec>,
    x: X,
    out: Seq<u8>,
    input: Seq<u8>,
    pos: nat,
    lim: Limits,
)
    requires
        X::encoding_modeled(),
        A::decoding_modeled(),
        fields.len() == 1,
        layout_fits(fields, lim),
        struct_encodes(fields, (&x,), out),
        at(input, pos, out),
        x.slot_fits(lim),
    ensures
        struct_outcome::<(Option<A>,)>(fields, input, pos, lim) == (
            Ok::<Option<(Option<A::V>,)>, ErrorView>(Some((x.slot_view(),))),
            pos + out.len(),
        ),
{
    let values = (&x,);
    let target = (x.slot_view(),);
    assert forall|i: nat| i < fields.len() implies #[trigger] slot_roundtrips::<(&X,), (Option<A>,)>(fields, values, target, input, lim, i) by {
        assert forall|p: nat, o: Seq<u8>, s: (Option<A::V>,)|
            #![trigger values.spec_value_encodes(i, o), <(Option<A>,) as FieldSet>::spec_decode_slot(s, i, fields[i as int].name@, input, p, lim)]
            values.spec_value_encodes(i, o) && at(input, p, o) implies <(Option<A>,) as FieldSet>::spec_decode_slot(
                s, i, fields[i as int].name@, input, p, lim,
            ) == (Ok::<(Option<A::V>,), ErrorView>(<(Option<A>,) as FieldSet>::spec_with(s, target, i)), p + o.len()) by {
            x.lemma_slot(o, input, p, lim);
        }
    }
    reveal_with_fuel(fill, 2);
    lemma_struct_roundtrip::<(&X,), (Option<A>,)>(fields, values, target, out, input, pos, lim);
}

/// A structure of two fields decodes back: each slot holds what its field's
/// value gives.
pub proof fn lemma_struct2_roundtrip<A: Decodable, B: Decodable, X: SlotValue<A>, Y: SlotValue<B>>(
    fields: Seq<FieldSpec>,
    x: X,
    y: Y,
    out: Seq<u8>,
    input: Seq<u8>,
    pos: nat,
    lim: Limits,
)
    requires
        X::encoding_modeled(),
        Y::encoding_modeled(),
        A::decoding_modeled(),
        B::decoding_modeled(),
        fields.len() == 2,
        layout_fits(fields, lim),
        struct_encodes(fields, (&x, &y), out),
        at(input, pos, out),
        x.slot_fits(lim),
        y.slot_fits(lim),
    ensures
        struct_outcome::<(Option<A>, Option<B>)>(fields, input, pos, lim) == (
            Ok::<Option<(Option<A::V>, Option<B::V>)>, ErrorView>(Some((x.slot_view(), y.slot_view()))),
            pos + out.len(),
        ),
{
    let values = (&x, &y);
    let target = (x.slot_view(), y.slot_view());
    assert forall|i: nat| i < fields.len() implies #[trigger] slot_roundtrips::<(&X, &Y), (Option<A>, Option<B>)>(fields, values, target, input, lim, i) by {
        assert forall|p: nat, o: Seq<u8>, s: (Option<A::V>, Option<B::V>)|
            #![trigger values.spec_value_encodes(i, o), <(Option<A>, Option<B>) as FieldSet>::spec_decode_slot(s, i, fields[i as int].name@, input, p, lim)]
            values.spec_value_encodes(i, o) && at(input, p, o) implies <(Option<A>, Option<B>) as FieldSet>::spec_decode_slot(
                s, i, fields[i as int].name@, input, p, lim,
            ) == (Ok::<(Option<A::V>, Option<B::V>), ErrorView>(<(Option<A>, Option<B>) as FieldSet>::spec_with(s, target, i)), p + o.len()) by {
            if i == 0 {
                x.lemma_slot(o, input, p, lim);
            } else {
                y.lemma_slot(o, input, p, lim);
            }
        }
    }
    reveal_with_fuel(fill, 3);
    lemma_struct_roundtrip::<(&X, &Y), (Option<A>, Option<B>)>(fields, values, target, out, input, pos, lim);
}

/// A structure of three fields decodes back: each slot holds what its
/// field's value gives.
pub proof fn lemma_struct3_roundtrip<A: Decodable, B: Decodable, C: Decodable, X: SlotValue<A>, Y: SlotValue<B>, Z: SlotValue<C>>(
    fields: Seq<FieldSpec>,
    x: X,
    y: Y,
    z: Z,
    out: Seq<u8>,
    input: Seq<u8>,
    pos: nat,
    lim: Limits,
)
    requires
        X::encoding_modeled(),
        Y::encoding_modeled(),
        Z::encoding_modeled(),
        A::decoding_modeled(),
        B::decoding_modeled(),
        C::decoding_modeled(),
        fields.len() == 3,
        layout_fits(fields, lim),
        struct_encodes(fields, (&x, &y, &z), out),
        at(input, pos, out),
        x.slot_fits(lim),
        y.slot_fits(lim),
        z.slot_fits(lim),
    ensures
        struct_outcome::<(Option<A>, Option<B>, Option<C>)>(fields, input, pos, lim) == (
            Ok::<Option<(Option<A::V>, Option<B::V>, Option<C::V>)>, ErrorView>(Some((x.slot_view(), y.slot_view(), z.slot_view()))),
            pos + out.len(),
        ),
{
    let values = (&x, &y, &z);
    let target = (x.slot_view(), y.slot_view(), z.slot_view());
    assert forall|i: nat| i < fields.len() implies #[trigger] slot_roundtrips::<(&X, &Y, &Z), (Option<A>, Option<B>, Option<C>)>(fields, values, target, input, lim, i) by {
        assert forall|p: nat, o: Seq<u8>, s: (Option<A::V>, Option<B::V>, Option<C::V>)|
            #![trigger values.spec_value_encodes(i, o), <(Option<A>, Option<B>, Option<C>) as FieldSet>::spec_decode_slot(s, i, fields[i as int].name@, input, p, lim)]
            values.spec_value_encodes(i, o) && at(input, p, o) implies <(Option<A>, Option<B>, Option<C>) as FieldSet>::spec_decode_slot(
                s, i, fields[i as int].name@, input, p, lim,
            ) == (Ok::<(Option<A::V>, Option<B::V>, Option<C::V>), ErrorView>(<(Option<A>, Option<B>, Option<C>) as FieldSet>::spec_with(s, target, i)), p + o.len()) by {
            if i == 0 {
                x.lemma_slot(o, input, p, lim);
            } else if i == 1 {
                y.lemma_slot(o, input, p, lim);
            } else {
                z.lemma_slot(o, input, p, lim);
            }
        }
    }
    reveal_with_fuel(fill, 4);
    lemma_struct_roundtrip::<(&X, &Y, &Z), (Option<A>, Option<B>, Option<C>)>(fields, values, target, out, input, pos, lim);
}

} // verus!
