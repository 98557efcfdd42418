//! Encoding and decoding of structures whose fields have numbers, names or
//! both: as an array with each numbered field at its number (`null` in the
//! gaps), or as an object from field names to values. A decoder accepts
//! both forms, skips what it does not know, and leaves absent fields empty.
use crate::cbor_io::{put_array, put_null, put_object, put_text, put_u64, written, CborEncoder, cbor_array, cbor_skip, cbor_text, cbor_unsigned, decoder_input, decoder_limits, decoder_pos, read_array, read_skip, read_text, read_unsigned, same_source, str_equal, CborDecoder, CborFault, Limits};
use crate::errors::{DecodeError, ErrorView};
use crate::traits::{appended, elem_outcome, extends, lemma_extends_trans, lemma_wrote, opt_view, Decodable, Decode, Encodable};
use crate::wire::{head64, nnulls, text_item};
use cbor::EncodeError;
use vstd::prelude::*;

verus! {

/// How a field of a structure is found in its encoding.
pub struct FieldSpec {
    /// The key of the field in the object form.
    pub name: &'static str,
    /// The position of the field in the array form, if it has one.
    pub index: Option<u64>,
}

/// The outcome of a step that updates the field slots.
pub open spec fn step_view<V>(r: Result<(), DecodeError>, v: V) -> Result<V, ErrorView> {
    match r {
        Ok(_) => Ok(v),
        Err(e) => Err(e@),
    }
}

/// The slots that collect the decoded fields of a structure, one `Option`
/// per field, `None` until the field is met.
pub trait FieldSet: Sized + DeepView {
    /// Whether the slot decoders are described by their specs.
    spec fn slots_modeled() -> bool;

    /// All slots empty.
    spec fn spec_empty() -> <Self as DeepView>::V;

    /// Decoding the value of field `i` with the name `name` into its slot: the
    /// value or `None` for `null`, or the value's error wrapped with the name.
    spec fn spec_decode_slot(slots: <Self as DeepView>::V, i: nat, name: Seq<char>, input: Seq<u8>, pos: nat, lim: Limits) -> (Result<<Self as DeepView>::V, ErrorView>, nat);

    /// Decoding the array element at index `idx` into slot `i`: the value, or
    /// the element's error wrapped with its index (`null` is an error).
    spec fn spec_decode_elem_slot(slots: <Self as DeepView>::V, i: nat, idx: usize, input: Seq<u8>, pos: nat, lim: Limits) -> (Result<<Self as DeepView>::V, ErrorView>, nat);

    /// The slots with slot `i` taken from `from` (the last slot when `i` is
    /// past it).
    spec fn spec_with(slots: <Self as DeepView>::V, from: <Self as DeepView>::V, i: nat) -> <Self as DeepView>::V;

    /// All slots empty.
    fn empty() -> (s: Self)
        ensures
            s.deep_view() == Self::spec_empty(),
    ;

    /// Decodes the value of field `i`, named `name`, into its slot (into the
    /// last slot when `i` is past it; with no slots, decodes nothing).
    fn decode_slot(&mut self, i: usize, name: &'static str, d: &mut CborDecoder) -> (r: Result<(), DecodeError>)
        ensures
            same_source(*old(d), *final(d)),
            Self::slots_modeled() ==> (step_view(r, final(self).deep_view()), decoder_pos(*final(d)))
                == Self::spec_decode_slot(old(self).deep_view(), i as nat, name@, decoder_input(*old(d)), decoder_pos(*old(d)), decoder_limits(*old(d))),
    ;

    /// Decodes the array element at index `idx` into slot `i` (into the last
    /// slot when `i` is past it; with no slots, decodes nothing).
    fn decode_elem_slot(&mut self, i: usize, idx: usize, d: &mut CborDecoder) -> (r: Result<(), DecodeError>)
        ensures
            same_source(*old(d), *final(d)),
            Self::slots_modeled() ==> (step_view(r, final(self).deep_view()), decoder_pos(*final(d)))
                == Self::spec_decode_elem_slot(old(self).deep_view(), i as nat, idx, decoder_input(*old(d)), decoder_pos(*old(d)), decoder_limits(*old(d))),
    ;
}

/// The slots with the first `k` slots taken from `from`.
pub open spec fn fill<S: FieldSet>(slots: S::V, from: S::V, k: nat) -> S::V
    decreases k,
{
    if k == 0 {
        slots
    } else {
        S::spec_with(fill::<S>(slots, from, (k - 1) as nat), from, (k - 1) as nat)
    }
}

/// What decoding a field's value gives for its slot.
pub open spec fn slot_outcome<V>(o: Result<Option<V>, ErrorView>, name: Seq<char>) -> Result<Option<V>, ErrorView> {
    match o {
        Ok(v) => Ok(v),
        Err(e) => Err(ErrorView::BadFieldValue(name, Box::new(e))),
    }
}

/// What decoding an array element gives for its slot.
pub open spec fn elem_slot_outcome<V>(o: Result<Option<V>, ErrorView>, idx: usize) -> Result<Option<V>, ErrorView> {
    match elem_outcome(o, idx) {
        Ok(v) => Ok(Some(v)),
        Err(e) => Err(e),
    }
}

/// Decodes a field's value for its slot.
pub(crate) fn field_value<A: Decodable>(name: &'static str, d: &mut CborDecoder) -> (r: Result<Option<A>, DecodeError>)
    ensures
        same_source(*old(d), *final(d)),
        A::decoding_modeled() ==> ({
            let (o, p) = A::spec_decode(decoder_input(*old(d)), decoder_pos(*old(d)), decoder_limits(*old(d)));
            opt_view(r) == slot_outcome(o, name@) && decoder_pos(*final(d)) == p
        }),
{
    match A::decode_opt(d) {
        Ok(v) => Ok(v),
        Err(e) => Err(DecodeError::BadFieldValue(name, Box::new(e))),
    }
}

/// Decodes an array element for its slot.
pub(crate) fn elem_value<A: Decodable>(idx: usize, d: &mut CborDecoder) -> (r: Result<Option<A>, DecodeError>)
    ensures
        same_source(*old(d), *final(d)),
        A::decoding_modeled() ==> ({
            let (o, p) = A::spec_decode(decoder_input(*old(d)), decoder_pos(*old(d)), decoder_limits(*old(d)));
            opt_view(r) == elem_slot_outcome(o, idx) && decoder_pos(*final(d)) == p
        }),
{
    match A::decode_elem(d, idx) {
        Ok(v) => Ok(Some(v)),
        Err(e) => Err(e),
    }
}

/// The first field, from `i` on, whose number is `idx`.
pub open spec fn find_index_from(fields: Seq<FieldSpec>, idx: u64, i: nat) -> Option<nat>
    decreases fields.len() - i,
{
    if i >= fields.len() {
        None
    } else if fields[i as int].index == Some(idx) {
        Some(i)
    } else {
        find_index_from(fields, idx, i + 1)
    }
}

/// The first field, from `i` on, whose name is `name`.
pub open spec fn find_name_from(fields: Seq<FieldSpec>, name: Seq<char>, i: nat) -> Option<nat>
    decreases fields.len() - i,
{
    if i >= fields.len() {
        None
    } else if fields[i as int].name@ == name {
        Some(i)
    } else {
        find_name_from(fields, name, i + 1)
    }
}

/// The number lookup finds the first field from `i` on with number `idx`,
/// and finds none exactly when no field from `i` on has it.
pub proof fn lemma_find_index_from(fields: Seq<FieldSpec>, idx: u64, i: nat)
    ensures
        match find_index_from(fields, idx, i) {
            Some(k) => i <= k < fields.len() && fields[k as int].index == Some(idx) && forall|j: int| i <= j < k ==> (#[trigger] fields[j]).index != Some(idx),
            None => forall|j: int| i <= j < fields.len() ==> (#[trigger] fields[j]).index != Some(idx),
        },
    decreases fields.len() - i,
{
    if i < fields.len() {
        lemma_find_index_from(fields, idx, i + 1);
    }
}

/// The name lookup finds the first field from `i` on named `name`, and
/// finds none exactly when no field from `i` on has that name.
pub proof fn lemma_find_name_from(fields: Seq<FieldSpec>, name: Seq<char>, i: nat)
    ensures
        match find_name_from(fields, name, i) {
            Some(k) => i <= k < fields.len() && fields[k as int].name@ == name && forall|j: int| i <= j < k ==> (#[trigger] fields[j]).name@ != name,
            None => forall|j: int| i <= j < fields.len() ==> (#[trigger] fields[j]).name@ != name,
        },
    decreases fields.len() - i,
{
    if i < fields.len() {
        lemma_find_name_from(fields, name, i + 1);
    }
}

/// The position of the first field with number `idx`.
pub fn find_index(fields: &[FieldSpec], idx: u64) -> (r: Option<usize>)
    ensures
        r matches Some(i) ==> i < fields@.len() && find_index_from(fields@, idx, 0) == Some(i as nat),
        r is None ==> find_index_from(fields@, idx, 0) is None,
        r matches Some(i) ==> fields@[i as int].index == Some(idx) && forall|j: int| 0 <= j < i ==> (#[trigger] fields@[j]).index != Some(idx),
        r is None ==> forall|j: int| 0 <= j < fields@.len() ==> (#[trigger] fields@[j]).index != Some(idx),
{
    let mut i: usize = 0;
    while i < fields.len()
        invariant
            i <= fields@.len(),
            find_index_from(fields@, idx, 0) == find_index_from(fields@, idx, i as nat),
        decreases fields.len() - i,
    {
        match fields[i].index {
            Some(n) => {
                if n == idx {
                    proof { lemma_find_index_from(fields@, idx, 0); }
                    return Some(i);
                }
            },
            None => {},
        }
        i = i + 1;
    }
    proof { lemma_find_index_from(fields@, idx, 0); }
    None
}

/// The position of the first field named `name`.
pub fn find_name(fields: &[FieldSpec], name: &str) -> (r: Option<usize>)
    ensures
        r matches Some(i) ==> i < fields@.len() && find_name_from(fields@, name@, 0) == Some(i as nat),
        r is None ==> find_name_from(fields@, name@, 0) is None,
        r matches Some(i) ==> fields@[i as int].name@ == name@ && forall|j: int| 0 <= j < i ==> (#[trigger] fields@[j]).name@ != name@,
        r is None ==> forall|j: int| 0 <= j < fields@.len() ==> (#[trigger] fields@[j]).name@ != name@,
{
    let mut i: usize = 0;
    while i < fields.len()
        invariant
            i <= fields@.len(),
            find_name_from(fields@, name@, 0) == find_name_from(fields@, name@, i as nat),
        decreases fields.len() - i,
    {
        if str_equal(fields[i].name, name) {
            proof { lemma_find_name_from(fields@, name@, 0); }
            return Some(i);
        }
        i = i + 1;
    }
    proof { lemma_find_name_from(fields@, name@, 0); }
    None
}

/// Skipping an item that no field wants: the slots as they were, or
/// `SkippingError`.
pub open spec fn skip_outcome<V>(slots: V, input: Seq<u8>, pos: nat, lim: Limits) -> (Result<V, ErrorView>, nat) {
    let (r, p) = cbor_skip(input, pos, lim);
    (match r {
        Ok(_) => Ok(slots),
        Err(_) => Err(ErrorView::SkippingError),
    }, p)
}

/// Decoding the item for field number `idx`: into the first field with
/// that number, else skipped.
pub open spec fn dispatch_outcome<S: FieldSet>(fields: Seq<FieldSpec>, slots: S::V, idx: u64, input: Seq<u8>, pos: nat, lim: Limits) -> (Result<S::V, ErrorView>, nat) {
    match find_index_from(fields, idx, 0) {
        Some(i) => S::spec_decode_slot(slots, i, fields[i as int].name@, input, pos, lim),
        None => skip_outcome(slots, input, pos, lim),
    }
}

/// Skips one item, reporting a failure as `SkippingError`.
pub fn skip_item(d: &mut CborDecoder) -> (r: Result<(), DecodeError>)
    ensures
        same_source(*old(d), *final(d)),
        ({
            let (s, p) = cbor_skip(decoder_input(*old(d)), decoder_pos(*old(d)), decoder_limits(*old(d)));
            (match r { Ok(_) => s is Ok, Err(e) => s is Err && e@ == ErrorView::SkippingError })
                && decoder_pos(*final(d)) == p
        }),
{
    match read_skip(d) {
        Ok(()) => Ok(()),
        Err(f) => Err(DecodeError::SkippingError(f.error)),
    }
}

/// Decodes the item for field number `idx`.
fn dispatch<S: FieldSet>(slots: &mut S, fields: &[FieldSpec], idx: u64, d: &mut CborDecoder) -> (r: Result<(), DecodeError>)
    ensures
        same_source(*old(d), *final(d)),
        S::slots_modeled() ==> (step_view(r, final(slots).deep_view()), decoder_pos(*final(d)))
            == dispatch_outcome::<S>(fields@, old(slots).deep_view(), idx, decoder_input(*old(d)), decoder_pos(*old(d)), decoder_limits(*old(d))),
{
    match find_index(fields, idx) {
        Some(i) => slots.decode_slot(i, fields[i].name, d),
        None => skip_item(d),
    }
}

/// Decoding the fields of the array form from element `idx` on.
pub open spec fn array_fields<S: FieldSet>(fields: Seq<FieldSpec>, slots: S::V, input: Seq<u8>, pos: nat, lim: Limits, idx: nat, len: nat) -> (Result<S::V, ErrorView>, nat)
    decreases len - idx,
{
    if idx >= len {
        (Ok(slots), pos)
    } else {
        let (r, p) = dispatch_outcome::<S>(fields, slots, idx as u64, input, pos, lim);
        match r {
            Ok(s) => array_fields::<S>(fields, s, input, p, lim, idx + 1, len),
            Err(e) => (Err(e), p),
        }
    }
}

/// Decoding one key and value of the object form: a text key selects the
/// field with that name (or the value is skipped), an integer key the
/// field with that number.
pub open spec fn entry_outcome<S: FieldSet>(fields: Seq<FieldSpec>, slots: S::V, input: Seq<u8>, pos: nat, lim: Limits) -> (Result<S::V, ErrorView>, nat) {
    let (t, p) = cbor_text(input, pos, lim);
    match t {
        Ok(name) => match find_name_from(fields, name, 0) {
            Some(i) => S::spec_decode_slot(slots, i, fields[i as int].name@, input, p, lim),
            None => skip_outcome(slots, input, p, lim),
        },
        Err(CborFault::UInt(info)) => {
            let (u, q) = cbor_unsigned(input, p, info);
            match u {
                Ok(idx) => dispatch_outcome::<S>(fields, slots, idx, input, q, lim),
                Err(_) => (Err(ErrorView::WrongType("array or object expected (e3)"@)), q),
            }
        },
        Err(_) => (Err(ErrorView::WrongType("array or object expected (e4)"@)), p),
    }
}

/// Decoding the entries of the object form from entry `k` on.
pub open spec fn object_fields<S: FieldSet>(fields: Seq<FieldSpec>, slots: S::V, input: Seq<u8>, pos: nat, lim: Limits, k: nat, n: nat) -> (Result<S::V, ErrorView>, nat)
    decreases n - k,
{
    if k >= n {
        (Ok(slots), pos)
    } else {
        let (r, p) = entry_outcome::<S>(fields, slots, input, pos, lim);
        match r {
            Ok(s) => object_fields::<S>(fields, s, input, p, lim, k + 1, n),
            Err(e) => (Err(e), p),
        }
    }
}

/// The slots as a decoding result.
pub open spec fn some_slots<V>(o: (Result<V, ErrorView>, nat)) -> (Result<Option<V>, ErrorView>, nat) {
    (match o.0 {
        Ok(s) => Ok(Some(s)),
        Err(e) => Err(e),
    }, o.1)
}

/// What decoding a structure gives: `None` for `null`; from an array, each
/// element into the first field with its number, other elements skipped;
/// from an object with at most 30 entries in its first byte, each entry as
/// `entry_outcome` says; `WrongType` for anything else.
pub open spec fn struct_outcome<S: FieldSet>(fields: Seq<FieldSpec>, input: Seq<u8>, pos: nat, lim: Limits) -> (Result<Option<S::V>, ErrorView>, nat) {
    let (r, p) = cbor_array(input, pos, lim);
    match r {
        Ok(len) => some_slots(array_fields::<S>(fields, S::spec_empty(), input, p, lim, 0, len as nat)),
        Err(CborFault::Null) => (Ok(None), p),
        Err(CborFault::Object(info)) => if info <= 30 {
            let (u, q) = cbor_unsigned(input, p, info);
            match u {
                Ok(n) => some_slots(object_fields::<S>(fields, S::spec_empty(), input, q, lim, 0, n as nat)),
                Err(_) => (Err(ErrorView::WrongType("array or object expected (e1)"@)), q),
            }
        } else {
            (Err(ErrorView::WrongType("array or object expected (e2)"@)), p)
        },
        Err(_) => (Err(ErrorView::WrongType("array or object expected (e2)"@)), p),
    }
}

/// Decodes the fields of a structure, in either form, into their slots;
/// `None` for `null`.
pub fn decode_struct<S: FieldSet>(d: &mut CborDecoder, fields: &[FieldSpec]) -> (r: Result<Option<S>, DecodeError>)
    ensures
        same_source(*old(d), *final(d)),
        S::slots_modeled() ==> (opt_view(r), decoder_pos(*final(d)))
            == struct_outcome::<S>(fields@, decoder_input(*old(d)), decoder_pos(*old(d)), decoder_limits(*old(d))),
{
    let ghost input = decoder_input(*d);
    let ghost lim = decoder_limits(*d);
    let ghost start = decoder_pos(*d);
    let mut slots = S::empty();
    match read_array(d) {
        Ok(len) => {
            let ghost p0 = decoder_pos(*d);
            let mut idx: usize = 0;
            while idx < len
                invariant
                    idx <= len,
                                decoder_input(*d) == input,
                    decoder_limits(*d) == lim,
                    input == decoder_input(*old(d)),
                    lim == decoder_limits(*old(d)),
                    start == decoder_pos(*old(d)),
                    cbor_array(input, start, lim) == (Ok::<usize, CborFault>(len), p0),
                    S::slots_modeled() ==> array_fields::<S>(fields@, S::spec_empty(), input, p0, lim, 0, len as nat)
                        == array_fields::<S>(fields@, slots.deep_view(), input, decoder_pos(*d), lim, idx as nat, len as nat),
                decreases len - idx,
            {
                match dispatch(&mut slots, fields, idx as u64, d) {
                    Ok(()) => {},
                    Err(e) => {
                        return Err(e);
                    },
                }
                idx = idx + 1;
            }
            Ok(Some(slots))
        },
        Err(f) => match f.fault {
            CborFault::Null => Ok(None),
            CborFault::Object(info) => {
                if info > 30 {
                    return Err(DecodeError::WrongType("array or object expected (e2)", f.error));
                }
                let ghost p0 = decoder_pos(*d);
                let n = match read_unsigned(d, info) {
                    Ok(n) => n,
                    Err(g) => {
                        return Err(DecodeError::WrongType("array or object expected (e1)", g.error));
                    },
                };
                let ghost q0 = decoder_pos(*d);
                let mut k: u64 = 0;
                while k < n
                    invariant
                        k <= n,
                                        decoder_input(*d) == input,
                        decoder_limits(*d) == lim,
                        input == decoder_input(*old(d)),
                        lim == decoder_limits(*old(d)),
                        start == decoder_pos(*old(d)),
                        cbor_array(input, start, lim) == (Err::<usize, CborFault>(CborFault::Object(info)), p0),
                        info <= 30,
                        cbor_unsigned(input, p0, info) == (Ok::<u64, CborFault>(n), q0),
                        S::slots_modeled() ==> object_fields::<S>(fields@, S::spec_empty(), input, q0, lim, 0, n as nat)
                            == object_fields::<S>(fields@, slots.deep_view(), input, decoder_pos(*d), lim, k as nat, n as nat),
                    decreases n - k,
                {
                    let step = match read_text(d) {
                        Ok(name) => match find_name(fields, name.as_str()) {
                            Some(i) => slots.decode_slot(i, fields[i].name, d),
                            None => skip_item(d),
                        },
                        Err(g) => match g.fault {
                            CborFault::UInt(inf) => match read_unsigned(d, inf) {
                                Ok(idx) => dispatch(&mut slots, fields, idx, d),
                                Err(h) => Err(DecodeError::WrongType("array or object expected (e3)", h.error)),
                            },
                            _ => Err(DecodeError::WrongType("array or object expected (e4)", g.error)),
                        },
                    };
                    match step {
                        Ok(()) => {},
                        Err(e) => {
                            return Err(e);
                        },
                    }
                    k = k + 1;
                }
                Ok(Some(slots))
            },
            _ => Err(DecodeError::WrongType("array or object expected (e2)", f.error)),
        },
    }
}

/// Requires a field that is not optional: its value, or `AbsentField` with
/// its name when it was not met.
pub fn require_field<A>(slot: Option<A>, name: &'static str) -> (r: Result<A, DecodeError>)
    ensures
        match slot {
            Some(v) => r matches Ok(x) && x == v,
            None => r matches Err(e) && e@ == ErrorView::AbsentField(name@),
        },
{
    match slot {
        Some(v) => Ok(v),
        None => Err(DecodeError::AbsentField(name)),
    }
}

/// The values of the fields of a structure, in field order, for encoding.
pub trait FieldValues {
    /// Whether the encodings of the values are described by their specs.
    spec fn values_modeled() -> bool;

    /// `out` is an encoding of value `i`.
    spec fn spec_value_encodes(&self, i: nat, out: Seq<u8>) -> bool;

    /// Appends an encoding of value `i` (of the last value when `i` is past
    /// it; with no values, appends nothing).
    fn encode_value(&self, i: usize, e: &mut CborEncoder) -> (r: Result<(), EncodeError>)
        ensures
            r is Ok,
            extends(*old(e), *final(e)),
            Self::values_modeled() ==> self.spec_value_encodes(i as nat, appended(*old(e), *final(e))),
    ;
}

/// No values.
impl FieldValues for () {
    open spec fn values_modeled() -> bool { true }

    open spec fn spec_value_encodes(&self, i: nat, out: Seq<u8>) -> bool { out.len() == 0 }

    fn encode_value(&self, i: usize, e: &mut CborEncoder) -> (r: Result<(), EncodeError>) {
        proof {
            assert(written(*e) + Seq::<u8>::empty() =~= written(*e));
            lemma_wrote(*e, *e, Seq::empty());
        }
        Ok(())
    }
}

impl<'a, A: Encodable> FieldValues for (&'a A,) {
    open spec fn values_modeled() -> bool { A::encoding_modeled() }

    open spec fn spec_value_encodes(&self, i: nat, out: Seq<u8>) -> bool {
        (*self.0).spec_encodes(out)
    }

    fn encode_value(&self, i: usize, e: &mut CborEncoder) -> (r: Result<(), EncodeError>) {
        self.0.encode(e)
    }
}

impl<'a, A: Encodable, B: Encodable> FieldValues for (&'a A, &'a B) {
    open spec fn values_modeled() -> bool { A::encoding_modeled() && B::encoding_modeled() }

    open spec fn spec_value_encodes(&self, i: nat, out: Seq<u8>) -> bool {
        if i == 0 { (*self.0).spec_encodes(out) } else { (*self.1).spec_encodes(out) }
    }

    fn encode_value(&self, i: usize, e: &mut CborEncoder) -> (r: Result<(), EncodeError>) {
        if i == 0 { self.0.encode(e) } else { self.1.encode(e) }
    }
}

impl<'a, A: Encodable, B: Encodable, C: Encodable> FieldValues for (&'a A, &'a B, &'a C) {
    open spec fn values_modeled() -> bool { A::encoding_modeled() && B::encoding_modeled() && C::encoding_modeled() }

    open spec fn spec_value_encodes(&self, i: nat, out: Seq<u8>) -> bool {
        if i == 0 { (*self.0).spec_encodes(out) } else if i == 1 { (*self.1).spec_encodes(out) } else { (*self.2).spec_encodes(out) }
    }

    fn encode_value(&self, i: usize, e: &mut CborEncoder) -> (r: Result<(), EncodeError>) {
        if i == 0 { self.0.encode(e) } else if i == 1 { self.1.encode(e) } else { self.2.encode(e) }
    }
}

/// Every field has a number, and the numbers increase strictly in field
/// order; the last is below `usize::MAX`.
pub open spec fn numbered_in_order(fields: Seq<FieldSpec>) -> bool {
    &&& forall|i: int| 0 <= i < fields.len() ==> #[trigger] fields[i].index is Some
    &&& forall|i: int, j: int| 0 <= i < j < fields.len()
        ==> fields[i].index->Some_0 < #[trigger] fields[j].index->Some_0
    &&& forall|i: int| 0 <= i < fields.len() ==> #[trigger] fields[i].index->Some_0 < usize::MAX
}

/// The slot after field `k - 1` in the array form (`first` before the
/// first field).
pub open spec fn slots_before(fields: Seq<FieldSpec>, k: nat, first: nat) -> nat {
    if k == 0 { first } else { (fields[k - 1].index->Some_0 + 1) as nat }
}

/// `out` is the array slots of the first `k` fields, the slots before
/// `first` excluded: `null` in each gap, then the field's value.
pub open spec fn array_slots_encode<V: FieldValues>(fields: Seq<FieldSpec>, values: V, first: nat, k: nat, out: Seq<u8>) -> bool
    decreases k,
{
    if k == 0 {
        out.len() == 0
    } else {
        let gap = (fields[k - 1].index->Some_0 - slots_before(fields, (k - 1) as nat, first)) as nat;
        exists|j: int|
            0 <= j && j + gap <= out.len() && array_slots_encode(fields, values, first, (k - 1) as nat, #[trigger] out.take(j))
                && out.subrange(j, j + gap) == nnulls(gap)
                && values.spec_value_encodes((k - 1) as nat, out.skip(j + gap))
    }
}

/// The key of a field in the object form: its number when it has one,
/// else its name.
pub open spec fn field_key(f: FieldSpec) -> Seq<u8> {
    match f.index {
        Some(n) => head64(0, n as nat),
        None => text_item(f.name@),
    }
}

/// `out` is the object entries of the first `k` fields: each field's key,
/// then its value.
pub open spec fn object_entries_encode<V: FieldValues>(fields: Seq<FieldSpec>, values: V, k: nat, out: Seq<u8>) -> bool
    decreases k,
{
    if k == 0 {
        out.len() == 0
    } else {
        let key = field_key(fields[k - 1]);
        exists|j: int|
            0 <= j && j + key.len() <= out.len() && object_entries_encode(fields, values, (k - 1) as nat, #[trigger] out.take(j))
                && out.subrange(j, j + key.len()) == key
                && values.spec_value_encodes((k - 1) as nat, out.skip(j + key.len()))
    }
}

/// The length of the array form: one slot more than the last field number
/// (1 when there are no fields, which leaves the slot unwritten).
pub open spec fn array_len(fields: Seq<FieldSpec>) -> nat {
    if fields.len() == 0 { 1 } else { slots_before(fields, fields.len(), 0) }
}

/// `out` is the encoding of a structure: when every field is numbered, an
/// array of one slot more than the last number; otherwise an object of the
/// fields by name.
pub open spec fn struct_encodes<V: FieldValues>(fields: Seq<FieldSpec>, values: V, out: Seq<u8>) -> bool {
    if forall|i: int| 0 <= i < fields.len() ==> #[trigger] fields[i].index is Some {
        let h = head64(4, array_len(fields));
        h.len() <= out.len() && out.take(h.len() as int) == h
            && array_slots_encode(fields, values, 0, fields.len(), out.skip(h.len() as int))
    } else {
        let h = head64(5, fields.len());
        h.len() <= out.len() && out.take(h.len() as int) == h
            && object_entries_encode(fields, values, fields.len(), out.skip(h.len() as int))
    }
}

/// Appends `count` times `null`.
pub fn write_nulls(e: &mut CborEncoder, count: u64)
    ensures
        written(*final(e)) == written(*old(e)) + nnulls(count as nat),
{
    let mut i: u64 = 0;
    assert(written(*e) =~= written(*old(e)) + nnulls(0));
    while i < count
        invariant
            i <= count,
            written(*e) == written(*old(e)) + nnulls(i as nat),
        decreases count - i,
    {
        let _ = put_null(e);
        i = i + 1;
        assert(written(*e) =~= written(*old(e)) + nnulls(i as nat));
    }
}

/// Whether every field has a number.
fn all_numbered(fields: &[FieldSpec]) -> (r: bool)
    ensures
        r == forall|i: int| 0 <= i < fields@.len() ==> #[trigger] fields@[i].index is Some,
{
    let mut i: usize = 0;
    while i < fields.len()
        invariant
            i <= fields@.len(),
            forall|j: int| 0 <= j < i ==> #[trigger] fields@[j].index is Some,
        decreases fields.len() - i,
    {
        if fields[i].index.is_none() {
            return false;
        }
        i = i + 1;
    }
    true
}

/// Appends the array slots of all fields from slot `first` on: `null` in
/// each slot no field takes, each field's value in the slot of its number.
pub fn write_slots<V: FieldValues>(values: &V, fields: &[FieldSpec], first: u64, e: &mut CborEncoder)
    requires
        numbered_in_order(fields@),
        fields@.len() > 0 ==> first <= fields@[0].index->Some_0,
    ensures
        extends(*old(e), *final(e)),
        V::values_modeled() ==> array_slots_encode(fields@, *values, first as nat, fields@.len(), appended(*old(e), *final(e))),
{
    let ghost e1 = *e;
    assert(written(e1).subrange(0, written(e1).len() as int) =~= written(e1));
    assert(appended(e1, e1) =~= Seq::empty());
    let n = fields.len();
    let mut next: u64 = first;
    let mut k: usize = 0;
    while k < n
        invariant
            k <= n,
            n == fields@.len(),
            numbered_in_order(fields@),
            n > 0 ==> first <= fields@[0].index->Some_0,
            next == slots_before(fields@, k as nat, first as nat),
            extends(e1, *e),
            e1 == *old(e),
            V::values_modeled() ==> array_slots_encode(fields@, *values, first as nat, k as nat, appended(e1, *e)),
        decreases n - k,
    {
        let index = match fields[k].index {
            Some(x) => x,
            None => next,
        };
        if k > 0 {
            assert(fields@[k - 1].index->Some_0 < fields@[k as int].index->Some_0);
        }
        let ghost before = *e;
        let gap = index - next;
        write_nulls(e, gap);
        let ghost mid = *e;
        let _ = values.encode_value(k, e);
        proof {
            lemma_wrote(before, mid, nnulls(gap as nat));
            lemma_extends_trans(before, mid, *e);
            lemma_extends_trans(e1, before, *e);
            if V::values_modeled() {
                let prev = appended(e1, before);
                let out = appended(e1, *e);
                let j = prev.len() as int;
                crate::wire::lemma_nnulls_len(gap as nat);
                assert(out =~= prev + nnulls(gap as nat) + appended(mid, *e));
                assert(out.take(j) =~= prev);
                assert(out.subrange(j, j + gap) =~= nnulls(gap as nat));
                assert(out.skip(j + gap) =~= appended(mid, *e));
            }
        }
        next = index + 1;
        k = k + 1;
    }
}

/// Appends the encoding of a structure whose fields are described by
/// `fields` and whose values are `values`: as an array when every field
/// has a number, with `null` in the slots no field takes, else as an object
/// keyed by the field numbers where there are, else by the field names.
pub fn encode_struct<V: FieldValues>(values: &V, fields: &[FieldSpec], e: &mut CborEncoder) -> (r: Result<(), EncodeError>)
    requires
        (forall|i: int| 0 <= i < fields@.len() ==> #[trigger] fields@[i].index is Some) ==> numbered_in_order(fields@),
    ensures
        r is Ok,
        extends(*old(e), *final(e)),
        V::values_modeled() ==> struct_encodes(fields@, *values, appended(*old(e), *final(e))),
{
    let ghost e0 = *e;
    let n = fields.len();
    if all_numbered(fields) {
        let slots: usize = if n == 0 {
            1
        } else {
            match fields[n - 1].index {
                Some(last) => (last + 1) as usize,
                None => 0,
            }
        };
        let ghost h = head64(4, slots as nat);
        let _ = put_array(e, slots);
        proof {
            lemma_wrote(e0, *e, h);
        }
        let ghost e1 = *e;
        assert(written(e1).subrange(0, written(e1).len() as int) =~= written(e1));
        assert(appended(e1, e1) =~= Seq::empty());
        write_slots(values, fields, 0, e);
        proof {
            lemma_extends_trans(e0, e1, *e);
            let out = appended(e0, *e);
            assert(appended(e0, e1) =~= h);
            assert(out.take(h.len() as int) =~= h);
            assert(out.skip(h.len() as int) =~= appended(e1, *e));
        }
        Ok(())
    } else {
        let ghost h = head64(5, n as nat);
        let _ = put_object(e, n);
        proof {
            lemma_wrote(e0, *e, h);
        }
        let ghost e1 = *e;
        assert(written(e1).subrange(0, written(e1).len() as int) =~= written(e1));
        assert(appended(e1, e1) =~= Seq::empty());
        let mut k: usize = 0;
        while k < n
            invariant
                k <= n,
                n == fields@.len(),
                    extends(e1, *e),
                written(e1) == written(e0) + h,
                V::values_modeled() ==> object_entries_encode(fields@, *values, k as nat, appended(e1, *e)),
            decreases n - k,
        {
            let ghost before = *e;
            let ghost key = field_key(fields@[k as int]);
            let _ = match fields[k].index {
                Some(n) => put_u64(e, n),
                None => put_text(e, fields[k].name),
            };
            let ghost mid = *e;
            let _ = values.encode_value(k, e);
            proof {
                lemma_wrote(before, mid, key);
                lemma_extends_trans(before, mid, *e);
                lemma_extends_trans(e1, before, *e);
                if V::values_modeled() {
                    let prev = appended(e1, before);
                    let out = appended(e1, *e);
                    let j = prev.len() as int;
                    assert(out =~= prev + key + appended(mid, *e));
                    assert(out.take(j) =~= prev);
                    assert(out.subrange(j, j + key.len()) =~= key);
                    assert(out.skip(j + key.len()) =~= appended(mid, *e));
                }
            }
            k = k + 1;
        }
        proof {
            lemma_extends_trans(e0, e1, *e);
            let out = appended(e0, *e);
            assert(appended(e0, e1) =~= h);
            assert(out.take(h.len() as int) =~= h);
            assert(out.skip(h.len() as int) =~= appended(e1, *e));
        }
        Ok(())
    }
}

/// No slots: every element is skipped.
impl FieldSet for () {
    open spec fn slots_modeled() -> bool { true }

    open spec fn spec_empty() -> () { () }

    open spec fn spec_decode_slot(slots: (), i: nat, name: Seq<char>, input: Seq<u8>, pos: nat, lim: Limits) -> (Result<(), ErrorView>, nat) {
        (Ok(()), pos)
    }

    open spec fn spec_decode_elem_slot(slots: (), i: nat, idx: usize, input: Seq<u8>, pos: nat, lim: Limits) -> (Result<(), ErrorView>, nat) {
        (Ok(()), pos)
    }

    open spec fn spec_with(slots: (), from: (), i: nat) -> () { () }

    fn empty() -> (s: ()) { () }

    fn decode_slot(&mut self, i: usize, name: &'static str, d: &mut CborDecoder) -> (r: Result<(), DecodeError>) {
        Ok(())
    }

    fn decode_elem_slot(&mut self, i: usize, idx: usize, d: &mut CborDecoder) -> (r: Result<(), DecodeError>) {
        Ok(())
    }
}

/// One slot, for a structure of one field.
impl<A: Decodable> FieldSet for (Option<A>,) {
    open spec fn slots_modeled() -> bool { A::decoding_modeled() }

    open spec fn spec_empty() -> (Option<A::V>,) { (None,) }

    open spec fn spec_decode_slot(slots: (Option<A::V>,), i: nat, name: Seq<char>, input: Seq<u8>, pos: nat, lim: Limits) -> (Result<(Option<A::V>,), ErrorView>, nat) {
        let (o, p) = A::spec_decode(input, pos, lim);
        (match slot_outcome(o, name) {
            Ok(v) => Ok((v,)),
            Err(e) => Err(e),
        }, p)
    }

    open spec fn spec_decode_elem_slot(slots: (Option<A::V>,), i: nat, idx: usize, input: Seq<u8>, pos: nat, lim: Limits) -> (Result<(Option<A::V>,), ErrorView>, nat) {
        let (o, p) = A::spec_decode(input, pos, lim);
        (match elem_slot_outcome(o, idx) {
            Ok(v) => Ok((v,)),
            Err(e) => Err(e),
        }, p)
    }

    open spec fn spec_with(slots: (Option<A::V>,), from: (Option<A::V>,), i: nat) -> (Option<A::V>,) { from }

    fn empty() -> (s: (Option<A>,)) { (None,) }

    fn decode_slot(&mut self, i: usize, name: &'static str, d: &mut CborDecoder) -> (r: Result<(), DecodeError>) {
        match field_value::<A>(name, d) {
            Ok(v) => {
                self.0 = v;
                Ok(())
            },
            Err(e) => Err(e),
        }
    }

    fn decode_elem_slot(&mut self, i: usize, idx: usize, d: &mut CborDecoder) -> (r: Result<(), DecodeError>) {
        match elem_value::<A>(idx, d) {
            Ok(v) => {
                self.0 = v;
                Ok(())
            },
            Err(e) => Err(e),
        }
    }
}

/// Two slots, one per field.
impl<A: Decodable, B: Decodable> FieldSet for (Option<A>, Option<B>) {
    open spec fn slots_modeled() -> bool { A::decoding_modeled() && B::decoding_modeled() }

    open spec fn spec_empty() -> (Option<A::V>, Option<B::V>) { (None, None) }

    open spec fn spec_decode_slot(slots: (Option<A::V>, Option<B::V>), i: nat, name: Seq<char>, input: Seq<u8>, pos: nat, lim: Limits) -> (Result<(Option<A::V>, Option<B::V>), ErrorView>, nat) {
        if i == 0 {
            let (o, p) = A::spec_decode(input, pos, lim);
            (match slot_outcome(o, name) {
                Ok(v) => Ok((v, slots.1)),
                Err(e) => Err(e),
            }, p)
        } else {
            let (o, p) = B::spec_decode(input, pos, lim);
            (match slot_outcome(o, name) {
                Ok(v) => Ok((slots.0, v)),
                Err(e) => Err(e),
            }, p)
        }
    }

    open spec fn spec_decode_elem_slot(slots: (Option<A::V>, Option<B::V>), i: nat, idx: usize, input: Seq<u8>, pos: nat, lim: Limits) -> (Result<(Option<A::V>, Option<B::V>), ErrorView>, nat) {
        if i == 0 {
            let (o, p) = A::spec_decode(input, pos, lim);
            (match elem_slot_outcome(o, idx) {
                Ok(v) => Ok((v, slots.1)),
                Err(e) => Err(e),
            }, p)
        } else {
            let (o, p) = B::spec_decode(input, pos, lim);
            (match elem_slot_outcome(o, idx) {
                Ok(v) => Ok((slots.0, v)),
                Err(e) => Err(e),
            }, p)
        }
    }

    open spec fn spec_with(slots: (Option<A::V>, Option<B::V>), from: (Option<A::V>, Option<B::V>), i: nat) -> (Option<A::V>, Option<B::V>) {
        if i == 0 { (from.0, slots.1) } else { (slots.0, from.1) }
    }

    fn empty() -> (s: (Option<A>, Option<B>)) { (None, None) }

    fn decode_slot(&mut self, i: usize, name: &'static str, d: &mut CborDecoder) -> (r: Result<(), DecodeError>) {
        if i == 0 {
            match field_value::<A>(name, d) {
                Ok(v) => {
                    self.0 = v;
                    Ok(())
                },
                Err(e) => Err(e),
            }
        } else {
            match field_value::<B>(name, d) {
                Ok(v) => {
                    self.1 = v;
                    Ok(())
                },
                Err(e) => Err(e),
            }
        }
    }

    fn decode_elem_slot(&mut self, i: usize, idx: usize, d: &mut CborDecoder) -> (r: Result<(), DecodeError>) {
        if i == 0 {
            match elem_value::<A>(idx, d) {
                Ok(v) => {
                    self.0 = v;
                    Ok(())
                },
                Err(e) => Err(e),
            }
        } else {
            match elem_value::<B>(idx, d) {
                Ok(v) => {
                    self.1 = v;
                    Ok(())
                },
                Err(e) => Err(e),
            }
        }
    }
}

/// Three slots, one per field.
impl<A: Decodable, B: Decodable, C: Decodable> FieldSet for (Option<A>, Option<B>, Option<C>) {
    open spec fn slots_modeled() -> bool { A::decoding_modeled() && B::decoding_modeled() && C::decoding_modeled() }

    open spec fn spec_empty() -> (Option<A::V>, Option<B::V>, Option<C::V>) { (None, None, None) }

    open spec fn spec_decode_slot(slots: (Option<A::V>, Option<B::V>, Option<C::V>), i: nat, name: Seq<char>, input: Seq<u8>, pos: nat, lim: Limits) -> (Result<(Option<A::V>, Option<B::V>, Option<C::V>), ErrorView>, nat) {
        if i == 0 {
            let (o, p) = A::spec_decode(input, pos, lim);
            (match slot_outcome(o, name) {
                Ok(v) => Ok((v, slots.1, slots.2)),
                Err(e) => Err(e),
            }, p)
        } else if i == 1 {
            let (o, p) = B::spec_decode(input, pos, lim);
            (match slot_outcome(o, name) {
                Ok(v) => Ok((slots.0, v, slots.2)),
                Err(e) => Err(e),
            }, p)
        } else {
            let (o, p) = C::spec_decode(input, pos, lim);
            (match slot_outcome(o, name) {
                Ok(v) => Ok((slots.0, slots.1, v)),
                Err(e) => Err(e),
            }, p)
        }
    }

    open spec fn spec_decode_elem_slot(slots: (Option<A::V>, Option<B::V>, Option<C::V>), i: nat, idx: usize, input: Seq<u8>, pos: nat, lim: Limits) -> (Result<(Option<A::V>, Option<B::V>, Option<C::V>), ErrorView>, nat) {
        if i == 0 {
            let (o, p) = A::spec_decode(input, pos, lim);
            (match elem_slot_outcome(o, idx) {
                Ok(v) => Ok((v, slots.1, slots.2)),
                Err(e) => Err(e),
            }, p)
        } else if i == 1 {
            let (o, p) = B::spec_decode(input, pos, lim);
            (match elem_slot_outcome(o, idx) {
                Ok(v) => Ok((slots.0, v, slots.2)),
                Err(e) => Err(e),
            }, p)
        } else {
            let (o, p) = C::spec_decode(input, pos, lim);
            (match elem_slot_outcome(o, idx) {
                Ok(v) => Ok((slots.0, slots.1, v)),
                Err(e) => Err(e),
            }, p)
        }
    }

    open spec fn spec_with(slots: (Option<A::V>, Option<B::V>, Option<C::V>), from: (Option<A::V>, Option<B::V>, Option<C::V>), i: nat) -> (Option<A::V>, Option<B::V>, Option<C::V>) {
        if i == 0 {
            (from.0, slots.1, slots.2)
        } else if i == 1 {
            (slots.0, from.1, slots.2)
        } else {
            (slots.0, slots.1, from.2)
        }
    }

    fn empty() -> (s: (Option<A>, Option<B>, Option<C>)) { (None, None, None) }

    fn decode_slot(&mut self, i: usize, name: &'static str, d: &mut CborDecoder) -> (r: Result<(), DecodeError>) {
        if i == 0 {
            match field_value::<A>(name, d) {
                Ok(v) => {
                    self.0 = v;
                    Ok(())
                },
                Err(e) => Err(e),
            }
        } else if i == 1 {
            match field_value::<B>(name, d) {
                Ok(v) => {
                    self.1 = v;
                    Ok(())
                },
                Err(e) => Err(e),
            }
        } else {
            match field_value::<C>(name, d) {
                Ok(v) => {
                    self.2 = v;
                    Ok(())
                },
                Err(e) => Err(e),
            }
        }
    }

    fn decode_elem_slot(&mut self, i: usize, idx: usize, d: &mut CborDecoder) -> (r: Result<(), DecodeError>) {
        if i == 0 {
            match elem_value::<A>(idx, d) {
                Ok(v) => {
                    self.0 = v;
                    Ok(())
                },
                Err(e) => Err(e),
            }
        } else if i == 1 {
            match elem_value::<B>(idx, d) {
                Ok(v) => {
                    self.1 = v;
                    Ok(())
                },
                Err(e) => Err(e),
            }
        } else {
            match elem_value::<C>(idx, d) {
                Ok(v) => {
                    self.2 = v;
                    Ok(())
                },
                Err(e) => Err(e),
            }
        }
    }
}

} // verus!
