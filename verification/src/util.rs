//! Encoding into a byte vector and decoding from a byte slice.
use crate::cbor_io::{decoder_position, default_limits, encoder_output, new_decoder, new_encoder, written};
use crate::errors::{DecodeError, ErrorView};
use crate::traits::{appended, decode, res_view, top_outcome, Decodable, Encodable};
use vstd::prelude::*;

verus! {

/// Encodes a value into a new byte vector.
pub fn to_buf<E: Encodable>(val: &E) -> (buf: Vec<u8>)
    ensures
        E::encoding_modeled() ==> val.spec_encodes(buf@),
{
    let mut enc = new_encoder();
    let ghost e0 = enc;
    // Encoding into a vector cannot fail.
    let _ = val.encode(&mut enc);
    proof {
        assert(appended(e0, enc) =~= written(enc));
    }
    encoder_output(enc)
}

/// What decoding a whole byte slice gives: the top-level outcome, or
/// `WrongValue("trailing data")` when the value ends before the slice does.
pub open spec fn slice_outcome<D: Decodable>(src: Seq<u8>) -> Result<D::V, ErrorView> {
    let (o, p) = D::spec_decode(src, 0, default_limits());
    match top_outcome(o) {
        Ok(v) => if p != src.len() {
            Err(ErrorView::WrongValue("trailing data"@))
        } else {
            Ok(v)
        },
        Err(e) => Err(e),
    }
}

/// The result for a whole slice of `len` bytes from the top-level result
/// and the position where decoding stopped: a value that ends before the
/// slice does is `WrongValue("trailing data")`; an error stays as it is.
pub fn slice_result<D>(val: Result<D, DecodeError>, pos: u64, len: usize) -> (r: Result<D, DecodeError>)
    ensures
        match val {
            Ok(v) => if pos == len {
                r == Ok::<D, DecodeError>(v)
            } else {
                r matches Err(e) && e@ == ErrorView::WrongValue("trailing data"@)
            },
            Err(e) => r == Err::<D, DecodeError>(e),
        },
{
    match val {
        Ok(v) => {
            if pos != len as u64 {
                return Err(DecodeError::WrongValue("trailing data"));
            }
            Ok(v)
        },
        Err(e) => Err(e),
    }
}

/// Decodes a value that must take the whole slice, with the default decoder
/// configuration: the result is `slice_result` of what `decode` gives and
/// where it stopped.
pub fn from_slice<D: Decodable>(src: &[u8]) -> (r: Result<D, DecodeError>)
    ensures
        D::decoding_modeled() ==> res_view(r) == slice_outcome::<D>(src@),
{
    let mut dec = new_decoder(vstd::slice::slice_to_vec(src));
    let val = decode::<D>(&mut dec);
    let pos = decoder_position(dec);
    slice_result(val, pos, src.len())
}

} // verus!
