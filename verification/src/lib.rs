//! Typed CBOR encoding and decoding of Rust values, with contracts.
pub mod cbor_io;
pub mod compound_laws;
pub mod enum_laws;
pub mod enums;
pub mod errors;
pub mod impls;
pub mod laws;
pub mod maps;
pub mod regex_serde;
pub mod scalar_laws;
pub mod sequences;
pub mod struct_laws;
pub mod structs;
pub mod traits;
pub mod tuples;
pub mod util;
pub mod wide_laws;
pub mod wide_slots;
pub mod wire;

pub use cbor::{Config, Decoder, Encoder, EncodeError};
pub use errors::DecodeError;
pub use traits::{decode, Decodable, Decode, Encodable, Input, Output};
pub use util::{from_slice, to_buf};
pub use vstd::view::DeepView;
