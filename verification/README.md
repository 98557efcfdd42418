# probor

Typed CBOR encoding and decoding of Rust values, on top of the `cbor` crate
(`cbor-codec`), with contracts checked by Verus.

Integers, booleans, strings, options, boxes, vectors, tuples, hash maps and
regular expressions are encoded and decoded by the library. Structures are
encoded as an array with each field at its number, or as an object keyed by
field names; their decoders accept both forms, skip what they do not know
and leave absent fields empty. Enumerations are encoded as an array whose
first element is the variant's number.

Layout:

- `src/cbor_io.rs`: the trusted boundary with the `cbor` crate.
- `src/wire.rs`: the byte layout of the items the encoder writes.
- `src/traits.rs`, `src/impls.rs`, `src/sequences.rs`, `src/tuples.rs`,
  `src/maps.rs`, `src/regex_serde.rs`: the traits and their implementations.
- `src/structs.rs`, `src/enums.rs`: building blocks for structures and
  enumerations.
- `src/errors.rs`: the decoding error.
- `src/util.rs`: `to_buf` and `from_slice`.
- `src/laws.rs`, `src/struct_laws.rs`, `src/enum_laws.rs`: the proved laws
  (what is encoded decodes back).
- `app/main.rs`: a small program that encodes and decodes search results.
