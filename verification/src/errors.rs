//! The error of decoding a value.
use cbor::DecodeError as CborError;
use vstd::prelude::*;

verus! {

/// Why a value could not be decoded.
#[derive(Debug)]
pub enum DecodeError {
    /// A field that is not optional is missing.
    AbsentField(&'static str),
    /// An array had another length than the type has elements.
    WrongArrayLength(usize),
    /// A key occurs twice in an object.
    DuplicateKey,
    /// `null` where a value is required.
    UnexpectedNull,
    /// The item is not of the expected type; what was expected, and the
    /// decoder's error.
    WrongType(&'static str, CborError),
    /// The item has the expected type but not an acceptable value.
    WrongValue(&'static str),
    /// The value of the named field could not be decoded.
    BadFieldValue(&'static str, Box<DecodeError>),
    /// The array element at this index could not be decoded.
    BadArrayElement(usize, Box<DecodeError>),
    /// An item could not be skipped.
    SkippingError(CborError),
}

/// A decoding error with its texts taken by their characters and the
/// decoder's own errors left out.
pub enum ErrorView {
    AbsentField(Seq<char>),
    WrongArrayLength(usize),
    DuplicateKey,
    UnexpectedNull,
    WrongType(Seq<char>),
    WrongValue(Seq<char>),
    BadFieldValue(Seq<char>, Box<ErrorView>),
    BadArrayElement(usize, Box<ErrorView>),
    SkippingError,
}

impl View for DecodeError {
    type V = ErrorView;

    open spec fn view(&self) -> ErrorView
        decreases self,
    {
        match self {
            DecodeError::AbsentField(f) => ErrorView::AbsentField(f@),
            DecodeError::WrongArrayLength(n) => ErrorView::WrongArrayLength(*n),
            DecodeError::DuplicateKey => ErrorView::DuplicateKey,
            DecodeError::UnexpectedNull => ErrorView::UnexpectedNull,
            DecodeError::WrongType(exp, _) => ErrorView::WrongType(exp@),
            DecodeError::WrongValue(exp) => ErrorView::WrongValue(exp@),
            DecodeError::BadFieldValue(f, e) => ErrorView::BadFieldValue(f@, Box::new((**e).view())),
            DecodeError::BadArrayElement(n, e) => ErrorView::BadArrayElement(*n, Box::new((**e).view())),
            DecodeError::SkippingError(_) => ErrorView::SkippingError,
        }
    }
}

/// The short description of an error: what kind of error it is, or for a
/// wrong type or value what was expected.
pub open spec fn description_text(e: ErrorView) -> Seq<char> {
    match e {
        ErrorView::AbsentField(_) => "absent field"@,
        ErrorView::WrongArrayLength(_) => "wrong array length"@,
        ErrorView::DuplicateKey => "some key is duplicated"@,
        ErrorView::UnexpectedNull => "unexpected null"@,
        ErrorView::WrongType(exp) => exp,
        ErrorView::WrongValue(exp) => exp,
        ErrorView::BadFieldValue(_, _) => "bad field value"@,
        ErrorView::BadArrayElement(_, _) => "bad array element"@,
        ErrorView::SkippingError => "error when skipping value"@,
    }
}

/// The decimal digits of `n`.
pub open spec fn decimal(n: nat) -> Seq<char>
    decreases n,
{
    if n < 10 {
        seq![(48 + n) as char]
    } else {
        decimal(n / 10).push((48 + n % 10) as char)
    }
}

/// The debug form of a string: quoted, with the characters that need it
/// escaped.
pub uninterp spec fn str_debug(s: Seq<char>) -> Seq<char>;

/// Every character of `s` is printable ASCII other than a double quote or a
/// backslash: none needs escaping in the debug form.
pub open spec fn plain_text(s: Seq<char>) -> bool {
    forall|i: int| 0 <= i < s.len() ==> 0x20 <= (#[trigger] s[i]) as u32 <= 0x7e && s[i] != '"' && s[i] != '\\'
}

/// The debug form of a string: for a plain text the text in double quotes,
/// else as `str_debug` escapes it.
pub open spec fn debug_text(s: Seq<char>) -> Seq<char> {
    if plain_text(s) {
        seq!['"'] + s + seq!['"']
    } else {
        str_debug(s)
    }
}

/// The message of an error, where `c` is the text of the decoder's own
/// error at the end of the chain (when there is one).
pub open spec fn message_text(e: ErrorView, c: Seq<char>) -> Seq<char>
    decreases e,
{
    match e {
        ErrorView::AbsentField(f) => "absent field "@ + debug_text(f),
        ErrorView::WrongArrayLength(n) => "wrong array length "@ + decimal(n as nat),
        ErrorView::DuplicateKey => "some key is duplicated"@,
        ErrorView::UnexpectedNull => "null is not expected"@,
        ErrorView::WrongType(exp) => exp + ": "@ + c,
        ErrorView::WrongValue(exp) => exp,
        ErrorView::BadFieldValue(f, inner) => "Bad value for "@ + debug_text(f) + ": "@ + message_text(*inner, c),
        ErrorView::BadArrayElement(n, inner) => "Bad array element "@ + decimal(n as nat) + ": "@ + message_text(*inner, c),
        ErrorView::SkippingError => "Error when skipping value: "@ + c,
    }
}

/// What caused an error: the decoder's own error, or the error of a field
/// or array element.
pub enum Cause<'a> {
    Decoder(&'a CborError),
    Nested(&'a DecodeError),
}

/// `format!("{:?}", s)`: the debug form of a string. A string whose
/// characters are all printable ASCII other than `"` and `\` comes out as it
/// is, between double quotes.
#[verifier::external_body]
fn debug_quoted(s: &str) -> (r: String)
    ensures
        r@ == str_debug(s@),
        plain_text(s@) ==> r@ == seq!['"'] + s@ + seq!['"'],
{
    format!("{:?}", s)
}

/// The digit character of a number below ten.
fn digit_text(d: usize) -> (r: &'static str)
    requires
        d < 10,
    ensures
        r@ == seq![(48 + d) as char],
{
    proof {
        reveal_strlit("0");
        reveal_strlit("1");
        reveal_strlit("2");
        reveal_strlit("3");
        reveal_strlit("4");
        reveal_strlit("5");
        reveal_strlit("6");
        reveal_strlit("7");
        reveal_strlit("8");
        reveal_strlit("9");
    }
    match d {
        0 => "0",
        1 => "1",
        2 => "2",
        3 => "3",
        4 => "4",
        5 => "5",
        6 => "6",
        7 => "7",
        8 => "8",
        _ => "9",
    }
}

/// The decimal digits of a number.
fn decimal_text(n: usize) -> (r: String)
    ensures
        r@ == decimal(n as nat),
    decreases n,
{
    if n < 10 {
        String::from_str(digit_text(n))
    } else {
        let mut r = decimal_text(n / 10);
        r.append(digit_text(n % 10));
        r
    }
}

/// `cbor::DecodeError::to_string`: the decoder's text for its error, which
/// depends on the error's content.
#[verifier::external_body]
fn decoder_error_text(e: &CborError) -> (r: String) {
    e.to_string()
}

impl DecodeError {
    /// The short description of the error.
    pub fn description(&self) -> (r: &'static str)
        ensures
            r@ == description_text(self@),
    {
        match self {
            DecodeError::AbsentField(_) => "absent field",
            DecodeError::WrongArrayLength(_) => "wrong array length",
            DecodeError::DuplicateKey => "some key is duplicated",
            DecodeError::UnexpectedNull => "unexpected null",
            DecodeError::WrongType(exp, _) => exp,
            DecodeError::WrongValue(exp) => exp,
            DecodeError::BadFieldValue(_, _) => "bad field value",
            DecodeError::BadArrayElement(_, _) => "bad array element",
            DecodeError::SkippingError(_) => "error when skipping value",
        }
    }

    /// What caused the error, if anything did.
    pub fn cause(&self) -> (r: Option<Cause<'_>>)
        ensures
            match self {
                DecodeError::WrongType(_, e) => r matches Some(Cause::Decoder(c)) && c == e,
                DecodeError::SkippingError(e) => r matches Some(Cause::Decoder(c)) && c == e,
                DecodeError::BadFieldValue(_, e) => r matches Some(Cause::Nested(n)) && *n == **e,
                DecodeError::BadArrayElement(_, e) => r matches Some(Cause::Nested(n)) && *n == **e,
                _ => r is None,
            },
    {
        match self {
            DecodeError::WrongType(_, e) => Some(Cause::Decoder(e)),
            DecodeError::SkippingError(e) => Some(Cause::Decoder(e)),
            DecodeError::BadFieldValue(_, e) => Some(Cause::Nested(&**e)),
            DecodeError::BadArrayElement(_, e) => Some(Cause::Nested(&**e)),
            _ => None,
        }
    }

    /// The message of the error: what it is and, for a field or an array
    /// element, why. The decoder's own error, where the chain ends in one,
    /// is given in the decoder's words, which this contract leaves open.
    pub fn message(&self) -> (r: String)
        ensures
            exists|c: Seq<char>| r@ == #[trigger] message_text(self@, c),
        decreases self,
    {
        match self {
            DecodeError::AbsentField(f) => {
                let mut r = String::from_str("absent field ");
                r.append(debug_quoted(f).as_str());
                assert(r@ == message_text(self@, Seq::empty()));
                r
            },
            DecodeError::WrongArrayLength(n) => {
                let mut r = String::from_str("wrong array length ");
                r.append(decimal_text(*n).as_str());
                assert(r@ == message_text(self@, Seq::empty()));
                r
            },
            DecodeError::DuplicateKey => {
                let r = String::from_str("some key is duplicated");
                assert(r@ == message_text(self@, Seq::empty()));
                r
            },
            DecodeError::UnexpectedNull => {
                let r = String::from_str("null is not expected");
                assert(r@ == message_text(self@, Seq::empty()));
                r
            },
            DecodeError::WrongType(exp, e) => {
                let mut r = String::from_str(exp);
                r.append(": ");
                let c = decoder_error_text(e);
                r.append(c.as_str());
                assert(r@ == message_text(self@, c@));
                r
            },
            DecodeError::WrongValue(exp) => {
                let r = String::from_str(exp);
                assert(r@ == message_text(self@, Seq::empty()));
                r
            },
            DecodeError::BadFieldValue(f, e) => {
                let mut r = String::from_str("Bad value for ");
                r.append(debug_quoted(f).as_str());
                r.append(": ");
                let m = e.message();
                let ghost c = choose|c: Seq<char>| m@ == #[trigger] message_text((**e)@, c);
                r.append(m.as_str());
                assert(r@ == message_text(self@, c));
                r
            },
            DecodeError::BadArrayElement(n, e) => {
                let mut r = String::from_str("Bad array element ");
                r.append(decimal_text(*n).as_str());
                r.append(": ");
                let m = e.message();
                let ghost c = choose|c: Seq<char>| m@ == #[trigger] message_text((**e)@, c);
                r.append(m.as_str());
                assert(r@ == message_text(self@, c));
                r
            },
            DecodeError::SkippingError(e) => {
                let mut r = String::from_str("Error when skipping value: ");
                let c = decoder_error_text(e);
                r.append(c.as_str());
                assert(r@ == message_text(self@, c@));
                r
            },
        }
    }
}

} // verus!
