//! A decoder for one tag-length-value element of a BER/DER-style binary
//! encoding: the identifier octets (tag class, constructed flag and a
//! possibly multi-byte tag number), the length octets (short and long form),
//! and exactly that many content bytes.
//!
//! Each decoding step is a pure function of its input bytes, and each
//! carries a contract that pins its result to a specification-level decoder
//! over the byte sequence.

pub mod element;
pub mod error;
pub mod identifier;
pub mod length;

pub use element::parse_data_element;
pub use element::DataElement;
pub use error::DecodeError;
pub use identifier::parse_identifier;
pub use identifier::TagClass;
pub use length::parse_length;
