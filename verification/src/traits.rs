//! The traits of values that can be encoded to and decoded from CBOR.
use crate::cbor_io::{decoder_input, decoder_limits, decoder_pos, same_source, written, CborDecoder, CborEncoder, Limits};
use crate::errors::{DecodeError, ErrorView};
use cbor::EncodeError;
use std::io::Cursor;
use vstd::prelude::*;

verus! {

/// The writers values are encoded into: an in-memory byte vector, whose
/// contents the contracts of the encoder speak of.
pub trait Output {}

impl Output for Vec<u8> {}

/// The readers values are decoded from: a cursor over an in-memory byte
/// vector, whose bytes and position the contracts of the decoder speak of.
pub trait Input {}

impl Input for Cursor<Vec<u8>> {}

/// The bytes written by an encoder between two of its states.
pub open spec fn appended(before: CborEncoder, after: CborEncoder) -> Seq<u8> {
    written(after).skip(written(before).len() as int)
}

/// An encoder's later state extends its earlier one.
pub open spec fn extends(before: CborEncoder, after: CborEncoder) -> bool {
    written(before).len() <= written(after).len()
        && written(after).subrange(0, written(before).len() as int) == written(before)
}

/// Appending `bytes` extends an encoder by exactly those bytes.
pub proof fn lemma_wrote(before: CborEncoder, after: CborEncoder, bytes: Seq<u8>)
    requires
        written(after) == written(before) + bytes,
    ensures
        extends(before, after),
        appended(before, after) == bytes,
{
    assert(written(after).subrange(0, written(before).len() as int) =~= written(before));
    assert(appended(before, after) =~= bytes);
}

/// Extension is transitive, and what is appended over two steps is what each
/// step appended, one after the other.
pub proof fn lemma_extends_trans(a: CborEncoder, b: CborEncoder, c: CborEncoder)
    requires
        extends(a, b),
        extends(b, c),
    ensures
        extends(a, c),
        appended(a, c) == appended(a, b) + appended(b, c),
{
    assert(written(c).subrange(0, written(a).len() as int) =~= written(b).subrange(0, written(a).len() as int));
    assert(appended(a, c) =~= appended(a, b) + appended(b, c));
}

/// A value that can be encoded.
pub trait Encodable {
    /// Whether `spec_encodes` describes `encode` for this type. The types of
    /// this library say so, unless a map's key type has an equality that is
    /// not modeled; a type that does not say so is described by nothing.
    open spec fn encoding_modeled() -> bool {
        false
    }

    /// `out` is an encoding of this value.
    open spec fn spec_encodes(&self, out: Seq<u8>) -> bool {
        false
    }

    /// Appends an encoding of this value to the encoder.
    fn encode(&self, e: &mut CborEncoder) -> (r: Result<(), EncodeError>)
        ensures
            r is Ok,
            extends(*old(e), *final(e)),
            Self::encoding_modeled() ==> self.spec_encodes(appended(*old(e), *final(e))),
    ;
}

/// A decoding result with the value taken by its deep view and the error by
/// its view.
pub open spec fn opt_view<T: DeepView>(r: Result<Option<T>, DecodeError>) -> Result<Option<T::V>, ErrorView> {
    match r {
        Ok(Some(x)) => Ok(Some(x.deep_view())),
        Ok(None) => Ok(None),
        Err(e) => Err(e@),
    }
}

/// A decoding result of a required value, viewed the same way.
pub open spec fn res_view<T: DeepView>(r: Result<T, DecodeError>) -> Result<T::V, ErrorView> {
    match r {
        Ok(x) => Ok(x.deep_view()),
        Err(e) => Err(e@),
    }
}

/// A value that can be decoded, or found to be `null`.
pub trait Decodable: Sized + DeepView {
    /// Whether `spec_decode` describes `decode_opt` for this type. The types
    /// of this library say so, unless a map's key type has an equality that
    /// is not modeled; a type that does not say so is described by nothing.
    open spec fn decoding_modeled() -> bool {
        false
    }

    /// What `decode_opt` gives from `input` at `pos` under the limits `lim`,
    /// and where it stops: a value, `None` for `null`, or an error.
    open spec fn spec_decode(input: Seq<u8>, pos: nat, lim: Limits) -> (Result<Option<<Self as DeepView>::V>, ErrorView>, nat) {
        arbitrary()
    }

    /// Decodes an object or `null`.
    ///
    /// This returns an `Option` so that any value may become optional;
    /// whether a value is `null` cannot be known in advance.
    fn decode_opt(d: &mut CborDecoder) -> (r: Result<Option<Self>, DecodeError>)
        ensures
            same_source(*old(d), *final(d)),
            Self::decoding_modeled() ==> (opt_view(r), decoder_pos(*final(d))) == Self::spec_decode(
                decoder_input(*old(d)),
                decoder_pos(*old(d)),
                decoder_limits(*old(d)),
            ),
    ;
}

/// What decoding an array element gives: a value, or the element's error
/// wrapped with its index (`null` is an error here).
pub open spec fn elem_outcome<V>(r: Result<Option<V>, ErrorView>, n: usize) -> Result<V, ErrorView> {
    match r {
        Ok(Some(x)) => Ok(x),
        Ok(None) => Err(ErrorView::BadArrayElement(n, Box::new(ErrorView::UnexpectedNull))),
        Err(e) => Err(ErrorView::BadArrayElement(n, Box::new(e))),
    }
}

/// What decoding a field gives: a value, or the field's error wrapped with
/// its name (`null` is an error here).
pub open spec fn field_outcome<V>(r: Result<Option<V>, ErrorView>, name: Seq<char>) -> Result<V, ErrorView> {
    match r {
        Ok(Some(x)) => Ok(x),
        Ok(None) => Err(ErrorView::BadFieldValue(name, Box::new(ErrorView::UnexpectedNull))),
        Err(e) => Err(ErrorView::BadFieldValue(name, Box::new(e))),
    }
}

/// What the top-level `decode` gives: a value, `UnexpectedNull` for `null`,
/// or the error.
pub open spec fn top_outcome<V>(r: Result<Option<V>, ErrorView>) -> Result<V, ErrorView> {
    match r {
        Ok(Some(x)) => Ok(x),
        Ok(None) => Err(ErrorView::UnexpectedNull),
        Err(e) => Err(e),
    }
}

/// The result for a required array element from the outcome of decoding
/// it: the value, or the error (`UnexpectedNull` for `null`) wrapped with
/// the element's index `n`.
pub fn elem_result<T: DeepView>(o: Result<Option<T>, DecodeError>, n: usize) -> (r: Result<T, DecodeError>)
    ensures
        res_view(r) == elem_outcome(opt_view(o), n),
        match o {
            Ok(Some(x)) => r == Ok::<T, DecodeError>(x),
            Ok(None) => r matches Err(DecodeError::BadArrayElement(m, b)) && m == n && *b == DecodeError::UnexpectedNull,
            Err(e) => r matches Err(DecodeError::BadArrayElement(m, b)) && m == n && *b == e,
        },
{
    match o {
        Ok(Some(x)) => Ok(x),
        Ok(None) => {
            let null = DecodeError::UnexpectedNull;
            assert(null@ == ErrorView::UnexpectedNull);
            Err(DecodeError::BadArrayElement(n, Box::new(null)))
        },
        Err(e) => Err(DecodeError::BadArrayElement(n, Box::new(e))),
    }
}

/// The result for a required field from the outcome of decoding it: the
/// value, or the error (`UnexpectedNull` for `null`) wrapped with the
/// field's `name`.
pub fn field_result<T: DeepView>(o: Result<Option<T>, DecodeError>, name: &'static str) -> (r: Result<T, DecodeError>)
    ensures
        res_view(r) == field_outcome(opt_view(o), name@),
        match o {
            Ok(Some(x)) => r == Ok::<T, DecodeError>(x),
            Ok(None) => r matches Err(DecodeError::BadFieldValue(f, b)) && f == name && *b == DecodeError::UnexpectedNull,
            Err(e) => r matches Err(DecodeError::BadFieldValue(f, b)) && f == name && *b == e,
        },
{
    match o {
        Ok(Some(x)) => Ok(x),
        Ok(None) => {
            let null = DecodeError::UnexpectedNull;
            assert(null@ == ErrorView::UnexpectedNull);
            Err(DecodeError::BadFieldValue(name, Box::new(null)))
        },
        Err(e) => Err(DecodeError::BadFieldValue(name, Box::new(e))),
    }
}

/// The top-level result from the outcome of decoding a value: the value,
/// `UnexpectedNull` for `null`, or the error as it is.
pub fn top_result<T: DeepView>(o: Result<Option<T>, DecodeError>) -> (r: Result<T, DecodeError>)
    ensures
        res_view(r) == top_outcome(opt_view(o)),
        match o {
            Ok(Some(x)) => r == Ok::<T, DecodeError>(x),
            Ok(None) => r matches Err(DecodeError::UnexpectedNull),
            Err(e) => r == Err::<T, DecodeError>(e),
        },
{
    match o {
        Ok(Some(x)) => Ok(x),
        Ok(None) => Err(DecodeError::UnexpectedNull),
        Err(e) => Err(e),
    }
}

/// Decoding of required values inside arrays and objects.
pub trait Decode: Decodable {
    /// Decodes a non-null array element and propagates its error with the
    /// element's index `n`, which is used only for the error: the result is
    /// `elem_result` of what `decode_opt` gives.
    ///
    /// Propagating the error of `decode_opt` as it is would let an
    /// `UnexpectedNull` in the middle of an array look like a null array;
    /// this is safe.
    fn decode_elem(d: &mut CborDecoder, n: usize) -> (r: Result<Self, DecodeError>)
        ensures
            same_source(*old(d), *final(d)),
            r matches Err(e) ==> e matches DecodeError::BadArrayElement(m, _) && m == n,
            Self::decoding_modeled() ==> ({
                let (o, p) = Self::spec_decode(decoder_input(*old(d)), decoder_pos(*old(d)), decoder_limits(*old(d)));
                res_view(r) == elem_outcome(o, n) && decoder_pos(*final(d)) == p
            }),
    {
        elem_result(Self::decode_opt(d), n)
    }

    /// Decodes a non-null field and propagates its error with the field's
    /// `name`, which is used only for the error: the result is
    /// `field_result` of what `decode_opt` gives.
    fn decode_field(d: &mut CborDecoder, name: &'static str) -> (r: Result<Self, DecodeError>)
        ensures
            same_source(*old(d), *final(d)),
            r matches Err(e) ==> e matches DecodeError::BadFieldValue(f, _) && f == name,
            Self::decoding_modeled() ==> ({
                let (o, p) = Self::spec_decode(decoder_input(*old(d)), decoder_pos(*old(d)), decoder_limits(*old(d)));
                res_view(r) == field_outcome(o, name@) && decoder_pos(*final(d)) == p
            }),
    {
        field_result(Self::decode_opt(d), name)
    }
}

impl<T: Decodable> Decode for T {}

/// Decodes an object and requires that it is not null: the result is
/// `top_result` of what `decode_opt` gives.
///
/// Use only as the top-level decode function; for items inside arrays and
/// objects use `Decode::decode_elem` and `Decode::decode_field`.
pub fn decode<T: Decodable>(d: &mut CborDecoder) -> (r: Result<T, DecodeError>)
    ensures
        same_source(*old(d), *final(d)),
        T::decoding_modeled() ==> ({
            let (o, p) = T::spec_decode(decoder_input(*old(d)), decoder_pos(*old(d)), decoder_limits(*old(d)));
            res_view(r) == top_outcome(o) && decoder_pos(*final(d)) == p
        }),
{
    top_result(T::decode_opt(d))
}

} // verus!
