//! Regular expressions, encoded as the text of their pattern.
use crate::cbor_io::{put_text, CborDecoder, CborEncoder, Limits};
use crate::errors::{DecodeError, ErrorView};
use crate::laws::RoundTrip;
use crate::traits::{lemma_wrote, Decodable, Encodable};
use crate::wire::text_item;
use vstd::utf8::encode_utf8;
use cbor::EncodeError;
use regex::Regex;
use vstd::prelude::*;

verus! {

#[verifier::external_type_specification]
#[verifier::external_body]
pub struct ExRegex(regex::Regex);

#[verifier::external_type_specification]
#[verifier::external_body]
pub struct ExRegexError(regex::Error);

/// Whether `regex::Regex::new` accepts the pattern: it is a valid regular
/// expression whose compiled form stays within the default size limit.
pub uninterp spec fn regex_compiles(pattern: Seq<char>) -> bool;

/// `regex::Regex::new`: compiles the pattern, or fails with the reason.
#[verifier::external_body]
fn compile_regex(pattern: &str) -> (r: Result<Regex, regex::Error>)
    ensures
        r is Ok <==> regex_compiles(pattern@),
{
    Regex::new(pattern)
}

/// A compiled regular expression together with the pattern it was compiled
/// from; it is encoded as the pattern's text.
#[derive(Debug)]
pub struct Pattern {
    source: String,
    regex: Regex,
}

impl DeepView for Pattern {
    type V = Seq<char>;

    closed spec fn deep_view(&self) -> Seq<char> {
        self.source@
    }
}

impl Pattern {
    /// The pattern is one that compiles.
    #[verifier::type_invariant]
    closed spec fn compiles(self) -> bool {
        regex_compiles(self.source@)
    }

    /// Compiles a pattern: the regular expression, or why it is not one.
    pub fn new(source: String) -> (r: Result<Pattern, regex::Error>)
        ensures
            r is Ok <==> regex_compiles(source@),
            r matches Ok(p) ==> p.deep_view() == source@,
    {
        match compile_regex(source.as_str()) {
            Ok(regex) => Ok(Pattern { source, regex }),
            Err(e) => Err(e),
        }
    }

    /// The pattern's text, which compiles.
    pub fn as_str(&self) -> (s: &str)
        ensures
            s@ == self.deep_view(),
            regex_compiles(s@),
    {
        proof {
            use_type_invariant(self);
        }
        self.source.as_str()
    }

    /// The compiled regular expression the pattern holds.
    pub closed spec fn compiled_regex(&self) -> Regex {
        self.regex
    }

    /// The compiled regular expression: the one the pattern was made with.
    pub fn regex(&self) -> (r: &Regex)
        ensures
            *r == self.compiled_regex(),
    {
        &self.regex
    }
}

/// What decoding a pattern gives from what decoding its text gives: a text
/// that does not compile is `WrongValue("invalid regexp")`.
pub open spec fn pattern_outcome(o: Result<Option<Seq<char>>, ErrorView>) -> Result<Option<Seq<char>>, ErrorView> {
    match o {
        Ok(Some(s)) => if regex_compiles(s) {
            Ok(Some(s))
        } else {
            Err(ErrorView::WrongValue("invalid regexp"@))
        },
        Ok(None) => Ok(None),
        Err(e) => Err(e),
    }
}

/// The pattern made from a decoded text and the result of compiling it.
pub fn pattern_from(source: String, compiled: Result<Regex, regex::Error>) -> (r: Result<Pattern, DecodeError>)
    requires
        compiled is Ok <==> regex_compiles(source@),
    ensures
        compiled is Ok <==> r is Ok,
        r matches Ok(p) ==> p.deep_view() == source@,
        r matches Ok(p) ==> compiled matches Ok(re) && p.compiled_regex() == re,
        r matches Err(e) ==> e@ == ErrorView::WrongValue("invalid regexp"@),
{
    match compiled {
        Ok(regex) => Ok(Pattern { source, regex }),
        Err(_) => Err(DecodeError::WrongValue("invalid regexp")),
    }
}

impl Encodable for Pattern {
    open spec fn encoding_modeled() -> bool {
        true
    }

    open spec fn spec_encodes(&self, out: Seq<u8>) -> bool {
        out == text_item(self.deep_view())
    }

    fn encode(&self, e: &mut CborEncoder) -> (r: Result<(), EncodeError>) {
        let r = put_text(e, self.source.as_str());
        proof {
            lemma_wrote(*old(e), *e, text_item(self.source@));
        }
        r
    }
}

impl Decodable for Pattern {
    open spec fn decoding_modeled() -> bool {
        true
    }

    open spec fn spec_decode(input: Seq<u8>, pos: nat, lim: Limits) -> (Result<Option<Seq<char>>, ErrorView>, nat) {
        let (o, p) = String::spec_decode(input, pos, lim);
        (pattern_outcome(o), p)
    }

    fn decode_opt(d: &mut CborDecoder) -> (r: Result<Option<Pattern>, DecodeError>) {
        match String::decode_opt(d) {
            Ok(Some(s)) => {
                let compiled = compile_regex(s.as_str());
                match pattern_from(s, compiled) {
                    Ok(p) => Ok(Some(p)),
                    Err(e) => Err(e),
                }
            },
            Ok(None) => Ok(None),
            Err(e) => Err(e),
        }
    }
}

/// A pattern is decoded back from its text: the text compiles again.
impl RoundTrip for Pattern {
    open spec fn spec_null() -> Option<Seq<char>> {
        None
    }

    open spec fn spec_fits(&self, lim: Limits) -> bool {
        &&& lim.max_nesting > 0
        &&& encode_utf8(self.deep_view()).len() <= lim.max_len_text
        &&& regex_compiles(self.deep_view())
    }

    proof fn lemma_roundtrip(&self, out: Seq<u8>, input: Seq<u8>, pos: nat, lim: Limits) {
        self.source.lemma_roundtrip(out, input, pos, lim);
    }

    proof fn lemma_null(input: Seq<u8>, pos: nat, lim: Limits) {
        String::lemma_null(input, pos, lim);
    }
}

} // verus!
