use probor::cbor_io::{CborDecoder, CborEncoder};
use probor::structs::{decode_struct, encode_struct, require_field, FieldSpec};
use probor::{decode, from_slice, to_buf, Config, Decodable, DecodeError, Decoder, DeepView, Encodable, EncodeError, Encoder};
use std::io::Cursor;

#[derive(PartialEq, Eq, Debug)]
struct Page {
    url: String,
    title: String,
    snippet: Option<String>,
}

const PAGE_FIELDS: [FieldSpec; 3] = [
    FieldSpec { name: "url", index: Some(0) },
    FieldSpec { name: "title", index: Some(1) },
    FieldSpec { name: "snippet", index: Some(2) },
];

impl DeepView for Page {
    type V = ();

    fn deep_view(&self) -> Self::V {}
}

impl Encodable for Page {
    fn encode(&self, e: &mut CborEncoder) -> Result<(), EncodeError> {
        encode_struct(&(&self.url, &self.title, &self.snippet), &PAGE_FIELDS, e)
    }
}

impl Decodable for Page {
    fn decode_opt(d: &mut CborDecoder) -> Result<Option<Self>, DecodeError> {
        let slots = decode_struct::<(Option<String>, Option<String>, Option<String>)>(d, &PAGE_FIELDS)?;
        match slots {
            None => Ok(None),
            Some((url, title, snippet)) => Ok(Some(Page {
                url: require_field(url, "url")?,
                title: require_field(title, "title")?,
                snippet,
            })),
        }
    }
}

#[derive(PartialEq, Eq, Debug)]
struct SearchResults {
    total_results: u64,
    results: Vec<Page>,
}

const RESULTS_FIELDS: [FieldSpec; 2] = [
    FieldSpec { name: "total_results", index: Some(0) },
    FieldSpec { name: "results", index: Some(1) },
];

impl DeepView for SearchResults {
    type V = ();

    fn deep_view(&self) -> Self::V {}
}

impl Encodable for SearchResults {
    fn encode(&self, e: &mut CborEncoder) -> Result<(), EncodeError> {
        encode_struct(&(&self.total_results, &self.results), &RESULTS_FIELDS, e)
    }
}

impl Decodable for SearchResults {
    fn decode_opt(d: &mut CborDecoder) -> Result<Option<Self>, DecodeError> {
        match decode_struct::<(Option<u64>, Option<Vec<Page>>)>(d, &RESULTS_FIELDS)? {
            None => Ok(None),
            Some((total_results, results)) => Ok(Some(SearchResults {
                total_results: require_field(total_results, "total_results")?,
                results: require_field(results, "results")?,
            })),
        }
    }
}

struct VersionInfo {
    version: u8,
}

const VERSION_FIELDS: [FieldSpec; 1] = [FieldSpec { name: "version", index: None }];

impl DeepView for VersionInfo {
    type V = ();

    fn deep_view(&self) -> Self::V {}
}

impl Encodable for VersionInfo {
    fn encode(&self, e: &mut CborEncoder) -> Result<(), EncodeError> {
        encode_struct(&(&self.version,), &VERSION_FIELDS, e)
    }
}

impl Decodable for VersionInfo {
    fn decode_opt(d: &mut CborDecoder) -> Result<Option<Self>, DecodeError> {
        match decode_struct::<(Option<u8>,)>(d, &VERSION_FIELDS)? {
            None => Ok(None),
            Some((version,)) => Ok(Some(VersionInfo { version: require_field(version, "version")? })),
        }
    }
}

/// A structure of three optional numbered fields.
#[derive(Debug, PartialEq)]
struct Three {
    one: Option<u8>,
    two: Option<u8>,
    three: Option<u8>,
}

const THREE_FIELDS: [FieldSpec; 3] = [
    FieldSpec { name: "one", index: Some(0) },
    FieldSpec { name: "two", index: Some(1) },
    FieldSpec { name: "three", index: Some(2) },
];

impl DeepView for Three {
    type V = ();

    fn deep_view(&self) -> Self::V {}
}

impl Encodable for Three {
    fn encode(&self, e: &mut CborEncoder) -> Result<(), EncodeError> {
        encode_struct(&(&self.one, &self.two, &self.three), &THREE_FIELDS, e)
    }
}

impl Decodable for Three {
    fn decode_opt(d: &mut CborDecoder) -> Result<Option<Self>, DecodeError> {
        match decode_struct::<(Option<u8>, Option<u8>, Option<u8>)>(d, &THREE_FIELDS)? {
            None => Ok(None),
            Some((one, two, three)) => Ok(Some(Three { one, two, three })),
        }
    }
}

struct TwoThree {
    two: Option<u8>,
    three: Option<u8>,
}

const TWO_THREE_FIELDS: [FieldSpec; 2] = [
    FieldSpec { name: "two", index: Some(1) },
    FieldSpec { name: "three", index: Some(2) },
];

impl DeepView for TwoThree {
    type V = ();

    fn deep_view(&self) -> Self::V {}
}

impl Encodable for TwoThree {
    fn encode(&self, e: &mut CborEncoder) -> Result<(), EncodeError> {
        encode_struct(&(&self.two, &self.three), &TWO_THREE_FIELDS, e)
    }
}

impl Decodable for TwoThree {
    fn decode_opt(d: &mut CborDecoder) -> Result<Option<Self>, DecodeError> {
        match decode_struct::<(Option<u8>, Option<u8>)>(d, &TWO_THREE_FIELDS)? {
            None => Ok(None),
            Some((two, three)) => Ok(Some(TwoThree { two, three })),
        }
    }
}

struct OneThree {
    one: Option<u8>,
    three: Option<u8>,
}

const ONE_THREE_FIELDS: [FieldSpec; 2] = [
    FieldSpec { name: "one", index: Some(0) },
    FieldSpec { name: "three", index: Some(2) },
];

impl DeepView for OneThree {
    type V = ();

    fn deep_view(&self) -> Self::V {}
}

impl Encodable for OneThree {
    fn encode(&self, e: &mut CborEncoder) -> Result<(), EncodeError> {
        encode_struct(&(&self.one, &self.three), &ONE_THREE_FIELDS, e)
    }
}

impl Decodable for OneThree {
    fn decode_opt(d: &mut CborDecoder) -> Result<Option<Self>, DecodeError> {
        match decode_struct::<(Option<u8>, Option<u8>)>(d, &ONE_THREE_FIELDS)? {
            None => Ok(None),
            Some((one, three)) => Ok(Some(OneThree { one, three })),
        }
    }
}

struct OneTwo {
    one: Option<u8>,
    two: Option<u8>,
}

const ONE_TWO_FIELDS: [FieldSpec; 2] = [
    FieldSpec { name: "one", index: Some(0) },
    FieldSpec { name: "two", index: Some(1) },
];

impl DeepView for OneTwo {
    type V = ();

    fn deep_view(&self) -> Self::V {}
}

impl Encodable for OneTwo {
    fn encode(&self, e: &mut CborEncoder) -> Result<(), EncodeError> {
        encode_struct(&(&self.one, &self.two), &ONE_TWO_FIELDS, e)
    }
}

impl Decodable for OneTwo {
    fn decode_opt(d: &mut CborDecoder) -> Result<Option<Self>, DecodeError> {
        match decode_struct::<(Option<u8>, Option<u8>)>(d, &ONE_TWO_FIELDS)? {
            None => Ok(None),
            Some((one, two)) => Ok(Some(OneTwo { one, two })),
        }
    }
}

struct Named {
    one: u8,
    two: u8,
    three: u8,
}

const NAMED_FIELDS: [FieldSpec; 3] = [
    FieldSpec { name: "one", index: None },
    FieldSpec { name: "two", index: None },
    FieldSpec { name: "three", index: None },
];

impl DeepView for Named {
    type V = ();

    fn deep_view(&self) -> Self::V {}
}

impl Encodable for Named {
    fn encode(&self, e: &mut CborEncoder) -> Result<(), EncodeError> {
        encode_struct(&(&self.one, &self.two, &self.three), &NAMED_FIELDS, e)
    }
}

impl Decodable for Named {
    fn decode_opt(d: &mut CborDecoder) -> Result<Option<Self>, DecodeError> {
        match decode_struct::<(Option<u8>, Option<u8>, Option<u8>)>(d, &NAMED_FIELDS)? {
            None => Ok(None),
            Some((one, two, three)) => Ok(Some(Named {
                one: require_field(one, "one")?,
                two: require_field(two, "two")?,
                three: require_field(three, "three")?,
            })),
        }
    }
}

fn roundtrip<A: Encodable, B: Decodable>(v: A) -> B {
    let v = to_buf(&v);
    from_slice(&v).unwrap()
}

fn decoder(bytes: &[u8]) -> Decoder<Cursor<Vec<u8>>> {
    Decoder::new(Config::default(), Cursor::new(bytes.to_vec()))
}

const SEARCH_BYTES: &[u8] = b"\x82\x18\x70\x82\
    \x83\x77http://url1.example.com\x6bOne example\xf6\
    \x83\x77http://url2.example.com\x6bTwo example\x6bExample Two";

fn search_results() -> SearchResults {
    SearchResults {
        total_results: 112,
        results: vec![
            Page {
                url: "http://url1.example.com".to_string(),
                title: "One example".to_string(),
                snippet: None,
            },
            Page {
                url: "http://url2.example.com".to_string(),
                title: "Two example".to_string(),
                snippet: Some("Example Two".to_string()),
            },
        ],
    }
}

#[test]
fn test_encode() {
    let mut enc = Encoder::new(Vec::new());
    search_results().encode(&mut enc).unwrap();
    let val = &enc.into_writer()[..];
    assert_eq!(val.len(), SEARCH_BYTES.len());
    assert_eq!(&val, &SEARCH_BYTES);
}

#[test]
fn test_decode() {
    let mut dec = decoder(SEARCH_BYTES);
    let val = decode(&mut dec).unwrap();
    assert_eq!(dec.into_reader().position() as usize, SEARCH_BYTES.len());
    assert_eq!(search_results(), val);
}

#[test]
fn one_field() {
    let v = VersionInfo { version: 1 };
    let mut e = Encoder::new(Vec::new());
    v.encode(&mut e).unwrap();
    let vec = e.into_writer();
    assert_eq!(&vec[..], b"\xa1\x67version\x01");
    let ver: VersionInfo = decode(&mut decoder(&vec)).unwrap();
    assert_eq!(ver.version, 1);
}

#[test]
fn big_to_small() {
    let t = Three { one: Some(10), two: Some(20), three: Some(30) };
    let mut e = Encoder::new(Vec::new());
    t.encode(&mut e).unwrap();
    let vec = e.into_writer();
    assert_eq!(&vec[..], b"\x83\x0a\x14\x18\x1e");
    let v: Three = decode(&mut decoder(&vec)).unwrap();
    assert_eq!(v.one, Some(10));
    assert_eq!(v.two, Some(20));
    assert_eq!(v.three, Some(30));
    let v: TwoThree = decode(&mut decoder(&vec)).unwrap();
    assert_eq!(v.two, Some(20));
    assert_eq!(v.three, Some(30));
    let v: OneTwo = decode(&mut decoder(&vec)).unwrap();
    assert_eq!(v.one, Some(10));
    assert_eq!(v.two, Some(20));
    let v: OneThree = decode(&mut decoder(&vec)).unwrap();
    assert_eq!(v.one, Some(10));
    assert_eq!(v.three, Some(30));
}

#[test]
fn small_to_big() {
    assert_eq!(
        roundtrip::<_, Three>(OneTwo { one: Some(11), two: Some(22) }),
        Three { one: Some(11), two: Some(22), three: None }
    );
    assert_eq!(
        roundtrip::<_, Three>(TwoThree { two: Some(32), three: Some(33) }),
        Three { one: None, two: Some(32), three: Some(33) }
    );
    assert_eq!(
        roundtrip::<_, Three>(OneThree { one: Some(41), three: Some(43) }),
        Three { one: Some(41), two: None, three: Some(43) }
    );
}

#[test]
fn named_to_small() {
    let t = Named { one: 11, two: 21, three: 31 };
    let mut e = Encoder::new(Vec::new());
    t.encode(&mut e).unwrap();
    let vec = e.into_writer();
    assert_eq!(&vec[..], b"\xa3\x63one\x0b\x63two\x15\x65three\x18\x1f");
    let v: Three = decode(&mut decoder(&vec)).unwrap();
    assert_eq!(v.one, Some(11));
    assert_eq!(v.two, Some(21));
    assert_eq!(v.three, Some(31));
    let v: TwoThree = decode(&mut decoder(&vec)).unwrap();
    assert_eq!(v.two, Some(21));
    assert_eq!(v.three, Some(31));
    let v: OneTwo = decode(&mut decoder(&vec)).unwrap();
    assert_eq!(v.one, Some(11));
    assert_eq!(v.two, Some(21));
    let v: OneThree = decode(&mut decoder(&vec)).unwrap();
    assert_eq!(v.one, Some(11));
    assert_eq!(v.three, Some(31));
}

#[test]
fn named_round_trips() {
    let v: Three = roundtrip(Three { one: Some(1), two: None, three: Some(3) });
    assert_eq!(v, Three { one: Some(1), two: None, three: Some(3) });
    let bytes = to_buf(&Named { one: 1, two: 2, three: 3 });
    let n: Named = from_slice(&bytes).unwrap();
    assert_eq!((n.one, n.two, n.three), (1, 2, 3));
    let p: SearchResults = roundtrip(search_results());
    assert_eq!(p, search_results());
}

/// A structure of five fields, the middle one named only.
#[derive(Debug, PartialEq)]
struct Wide {
    a: u8,
    b: String,
    c: Option<u16>,
    d: bool,
    e: i32,
}

const WIDE_FIELDS: [FieldSpec; 5] = [
    FieldSpec { name: "a", index: Some(0) },
    FieldSpec { name: "b", index: Some(1) },
    FieldSpec { name: "c", index: Some(2) },
    FieldSpec { name: "d", index: Some(3) },
    FieldSpec { name: "e", index: Some(4) },
];

impl DeepView for Wide {
    type V = ();

    fn deep_view(&self) -> Self::V {}
}

impl Encodable for Wide {
    fn encode(&self, e: &mut CborEncoder) -> Result<(), EncodeError> {
        encode_struct(&(&self.a, &self.b, &self.c, &self.d, &self.e), &WIDE_FIELDS, e)
    }
}

impl Decodable for Wide {
    fn decode_opt(d: &mut CborDecoder) -> Result<Option<Self>, DecodeError> {
        match decode_struct::<(Option<u8>, Option<String>, Option<u16>, Option<bool>, Option<i32>)>(d, &WIDE_FIELDS)? {
            None => Ok(None),
            Some((a, b, c, d, e)) => Ok(Some(Wide {
                a: require_field(a, "a")?,
                b: require_field(b, "b")?,
                c,
                d: require_field(d, "d")?,
                e: require_field(e, "e")?,
            })),
        }
    }
}

#[test]
fn five_fields() {
    let w = Wide { a: 1, b: "x".to_string(), c: None, d: true, e: -2 };
    let bytes = to_buf(&w);
    assert_eq!(&bytes[..], b"\x85\x01\x61x\xf6\xf5\x21");
    let back: Wide = from_slice(&bytes).unwrap();
    assert_eq!(back, w);
    let named: Wide = from_slice(b"\xa4\x61e\x05\x61d\xf4\x61b\x62yz\x61a\x07").unwrap();
    assert_eq!(named, Wide { a: 7, b: "yz".to_string(), c: None, d: false, e: 5 });
    let missing = from_slice::<Wide>(b"\x84\x01\x61x\xf6\xf5").unwrap_err();
    assert!(matches!(missing, DecodeError::AbsentField("e")));
}
