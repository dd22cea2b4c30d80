//! Decoding of one complete tag-length-value element: identifier field,
//! length field, then exactly that many content bytes.

use vstd::prelude::*;
use vstd::slice::slice_subrange;
use vstd::slice::slice_to_vec;

use crate::error::DecodeError;
use crate::identifier::lemma_identifier_consumed;
use crate::identifier::parse_identifier;
use crate::identifier::spec_identifier;
use crate::identifier::TagClass;
use crate::length::parse_length;
use crate::length::spec_length;

verus! {

/// One decoded element. The record is fully determined by one decode call
/// and never mutated afterwards; `content` holds exactly as many bytes as
/// the length field declared.
#[derive(Debug)]
pub struct DataElement {
    /// The tag's class, from the top two bits of the initial octet.
    pub tag_class: TagClass,
    /// Whether the content is itself composed of nested elements. Recorded
    /// only; the decoder never recurses into the content.
    pub constructed: bool,
    /// The tag number, from the low five bits of the initial octet or from
    /// the base-128 continuation octets.
    pub tag_number: u32,
    /// The content bytes, verbatim and uninterpreted.
    pub content: Vec<u8>,
}

/// What a whole element at the front of `input` decodes to: tag class,
/// constructed flag, tag number, content bytes and octets consumed, or the
/// error that the first failing field produces.
pub open spec fn spec_element(input: Seq<u8>) -> Result<
    (TagClass, bool, nat, Seq<u8>, nat),
    DecodeError,
> {
    match spec_identifier(input) {
        None => Err(DecodeError::MalformedIdentifier),
        Some(id) => {
            let rest = input.subrange(id.3 as int, input.len() as int);
            match spec_length(rest) {
                None => Err(DecodeError::LengthOverflow),
                Some(ln) => {
                    if rest.len() < ln.1 + ln.0 {
                        Err(DecodeError::ContentTruncated)
                    } else {
                        Ok(
                            (id.0, id.1, id.2, rest.subrange(ln.1 as int, (ln.1 + ln.0) as int), (
                            id.3 + ln.1 + ln.0) as nat),
                        )
                    }
                },
            }
        },
    }
}

/// Decode one element at the front of `input`.
///
/// On success the result carries the assembled record and the count of
/// octets consumed; `input[consumed..]` is the unconsumed remainder, left
/// for callers that decode further sibling elements. The failures are those
/// of the identifier and length fields, and `ContentTruncated` when fewer
/// content bytes remain than the length field declared.
pub fn parse_data_element(input: &[u8]) -> (r: Result<(DataElement, usize), DecodeError>)
    ensures
        match r {
            Ok(v) => spec_element(input@) == Ok::<(TagClass, bool, nat, Seq<u8>, nat), DecodeError>(
                (v.0.tag_class, v.0.constructed, v.0.tag_number as nat, v.0.content@, v.1 as nat),
            ) && v.1 <= input@.len(),
            Err(e) => spec_element(input@) == Err::<
                (TagClass, bool, nat, Seq<u8>, nat),
                DecodeError,
            >(e),
        },
{
    let id = match parse_identifier(input) {
        Ok(v) => v,
        Err(e) => { return Err(e) },
    };
    let rest = slice_subrange(input, id.3, input.len());
    let ln = match parse_length(rest) {
        Ok(v) => v,
        Err(e) => { return Err(e) },
    };
    let avail = rest.len() - ln.1;
    if ln.0 > avail as u64 {
        return Err(DecodeError::ContentTruncated);
    }
    let clen = ln.0 as usize;
    let content_slice = slice_subrange(rest, ln.1, ln.1 + clen);
    let content = slice_to_vec(content_slice);
    let element = DataElement {
        tag_class: id.0,
        constructed: id.1,
        tag_number: id.2,
        content,
    };
    Ok((element, id.3 + ln.1 + clen))
}

/// Law: when the identifier and length fields both decode but the declared
/// content length exceeds what remains of the buffer, the element never
/// decodes and the failure is `ContentTruncated`; no bytes outside the
/// buffer are ever read.
pub proof fn lemma_content_truncated(input: Seq<u8>)
    requires
        spec_identifier(input) is Some,
        spec_length(
            input.subrange(spec_identifier(input)->Some_0.3 as int, input.len() as int),
        ) is Some,
        ({
            let id = spec_identifier(input)->Some_0;
            let rest = input.subrange(id.3 as int, input.len() as int);
            let ln = spec_length(rest)->Some_0;
            rest.len() < ln.1 + ln.0
        }),
    ensures
        spec_element(input) == Err::<(TagClass, bool, nat, Seq<u8>, nat), DecodeError>(
            DecodeError::ContentTruncated,
        ),
{
}

/// Law: a decoded element's content holds exactly the number of bytes that
/// its length field declared.
pub proof fn lemma_content_matches_length(input: Seq<u8>)
    requires
        spec_element(input) is Ok,
    ensures
        ({
            let id = spec_identifier(input)->Some_0;
            let rest = input.subrange(id.3 as int, input.len() as int);
            let ln = spec_length(rest)->Some_0;
            spec_element(input)->Ok_0.3.len() == ln.0
        }),
{
    lemma_identifier_consumed(input);
}

/// Law: decoding is deterministic — the outcome, record or error, is a
/// function of the byte buffer alone, so equal buffers always decode to
/// equal outcomes.
pub proof fn lemma_decode_deterministic(buf1: Seq<u8>, buf2: Seq<u8>)
    requires
        buf1 == buf2,
    ensures
        spec_element(buf1) == spec_element(buf2),
{
}

} // verus!
