//! Decoding of the identifier field: tag class, constructed flag and tag
//! number, with the multi-byte base-128 high-tag-number form.

use vstd::prelude::*;

use crate::error::DecodeError;

verus! {

/// The class of a tag, taken from the top two bits of the initial octet.
#[derive(Clone, Copy, Debug, PartialEq, Eq, Structural)]
pub enum TagClass {
    Universal,
    Application,
    Context,
    Private,
}

/// How many continuation octets of the high-tag-number form the decoder
/// accepts at most. Four octets of seven bits each keep the tag number
/// within `u32`.
pub const MAX_TAG_OCTETS: usize = 4;

/// The tag class encoded in bits 7 and 6 of the initial octet.
pub open spec fn spec_tag_class(b: u8) -> TagClass {
    if b & 0xC0 == 0x00 {
        TagClass::Universal
    } else if b & 0xC0 == 0x40 {
        TagClass::Application
    } else if b & 0xC0 == 0x80 {
        TagClass::Context
    } else {
        TagClass::Private
    }
}

/// The constructed flag encoded in bit 5 of the initial octet.
pub open spec fn spec_constructed(b: u8) -> bool {
    b & 0x20 == 0x20
}

/// The index of the terminating continuation octet (the first one with its
/// high bit clear), scanning from `start`, or `None` when no terminator
/// stands within the supported budget or within the buffer.
pub open spec fn spec_term_index(input: Seq<u8>, start: int) -> Option<int>
    decreases MAX_TAG_OCTETS + 1 - start,
{
    if start < 1 || start > MAX_TAG_OCTETS {
        None
    } else if start >= input.len() {
        None
    } else if input[start] & 0x80 != 0x80 {
        Some(start)
    } else {
        spec_term_index(input, start + 1)
    }
}

/// The tag number carried by continuation octets 1 through `last`: seven
/// bits from each octet, most significant first.
pub open spec fn spec_tag_value(input: Seq<u8>, last: int) -> nat
    decreases last,
{
    if last <= 0 {
        0
    } else {
        spec_tag_value(input, last - 1) * 128 + ((input[last] & 0x7f) as nat)
    }
}

/// `128 ^ k`, the number of tag values expressible in `k` continuation
/// octets.
pub open spec fn pow128(k: nat) -> nat
    decreases k,
{
    if k == 0 {
        1
    } else {
        128 * pow128((k - 1) as nat)
    }
}

/// A tag number assembled from `k` continuation octets stays below
/// `128 ^ k`.
pub proof fn lemma_tag_value_bound(input: Seq<u8>, k: int)
    requires
        0 <= k,
    ensures
        spec_tag_value(input, k) < pow128(k as nat),
    decreases k,
{
    if k > 0 {
        lemma_tag_value_bound(input, k - 1);
        let b = input[k];
        assert(b & 0x7f < 0x80) by (bit_vector);
    }
}

/// What the identifier field of `input` decodes to: tag class, constructed
/// flag, tag number and octets consumed, or `None` when the field is
/// malformed or truncated.
pub open spec fn spec_identifier(input: Seq<u8>) -> Option<(TagClass, bool, nat, nat)> {
    if input.len() == 0 {
        None
    } else {
        let b0 = input[0];
        if b0 & 0x1f != 0x1f {
            Some((spec_tag_class(b0), spec_constructed(b0), (b0 & 0x1f) as nat, 1nat))
        } else {
            match spec_term_index(input, 1) {
                Some(i) => Some(
                    (spec_tag_class(b0), spec_constructed(b0), spec_tag_value(input, i), (i
                        + 1) as nat),
                ),
                None => None,
            }
        }
    }
}

/// A terminating octet found by the scan lies within the buffer and within
/// the supported budget.
pub proof fn lemma_term_index_props(input: Seq<u8>, start: int)
    requires
        1 <= start,
    ensures
        spec_term_index(input, start) is Some ==> {
            let i = spec_term_index(input, start)->Some_0;
            start <= i < input.len() && i <= MAX_TAG_OCTETS && input[i] & 0x80 != 0x80
        },
    decreases MAX_TAG_OCTETS + 1 - start,
{
    if 1 <= start <= MAX_TAG_OCTETS && start < input.len() && input[start] & 0x80 == 0x80 {
        lemma_term_index_props(input, start + 1);
    }
}

/// An identifier field that decodes consumes at least one octet and never
/// more than the buffer holds.
pub proof fn lemma_identifier_consumed(input: Seq<u8>)
    ensures
        spec_identifier(input) is Some ==> 1 <= spec_identifier(input)->Some_0.3 <= input.len(),
{
    if input.len() > 0 && input[0] & 0x1f == 0x1f {
        lemma_term_index_props(input, 1);
    }
}

/// Law: a single initial octet in the low-tag-number form decodes to its own
/// low five bits as the tag number, with exactly one octet consumed.
pub proof fn lemma_low_tag_identifier(input: Seq<u8>)
    requires
        input.len() >= 1,
        input[0] & 0x1f != 0x1f,
    ensures
        spec_identifier(input) == Some(
            (spec_tag_class(input[0]), spec_constructed(input[0]), (input[0] & 0x1f) as nat, 1nat),
        ),
{
}

/// Decode the identifier field at the front of `input`.
///
/// On success the result carries the tag class, the constructed flag, the
/// tag number and the count of octets consumed. The only failure is
/// `MalformedIdentifier`: the buffer is empty, ends inside the continuation
/// sequence, or the sequence has no terminating octet within the supported
/// budget.
pub fn parse_identifier(input: &[u8]) -> (r: Result<(TagClass, bool, u32, usize), DecodeError>)
    ensures
        match r {
            Ok(v) => spec_identifier(input@) == Some((v.0, v.1, v.2 as nat, v.3 as nat)) && 1 <= v.3
                <= input@.len(),
            Err(e) => spec_identifier(input@) is None && e == DecodeError::MalformedIdentifier,
        },
{
    if input.len() == 0 {
        return Err(DecodeError::MalformedIdentifier);
    }
    let b0 = input[0];
    let tag_class = if b0 & 0xC0 == 0x00 {
        TagClass::Universal
    } else if b0 & 0xC0 == 0x40 {
        TagClass::Application
    } else if b0 & 0xC0 == 0x80 {
        TagClass::Context
    } else {
        TagClass::Private
    };
    let constructed = b0 & 0x20 == 0x20;
    if b0 & 0x1f != 0x1f {
        return Ok((tag_class, constructed, (b0 & 0x1f) as u32, 1));
    }
    let mut i: usize = 1;
    while i <= MAX_TAG_OCTETS
        invariant
            1 <= i <= MAX_TAG_OCTETS + 1,
            input@.len() >= 1,
            b0 == input@[0],
            b0 & 0x1f == 0x1f,
            tag_class == spec_tag_class(b0),
            constructed == spec_constructed(b0),
            spec_term_index(input@, 1) == spec_term_index(input@, i as int),
        decreases MAX_TAG_OCTETS + 1 - i,
    {
        if i >= input.len() {
            return Err(DecodeError::MalformedIdentifier);
        }
        if input[i] & 0x80 != 0x80 {
            let mut tag: u32 = 0;
            let mut j: usize = 1;
            while j <= i
                invariant
                    1 <= j <= i + 1,
                    i <= MAX_TAG_OCTETS,
                    i < input@.len(),
                    tag == spec_tag_value(input@, j - 1),
                decreases i + 1 - j,
            {
                let b = input[j];
                proof {
                    lemma_tag_value_bound(input@, j - 1);
                    assert(pow128(0) == 1);
                    assert(pow128(1) == 128);
                    assert(pow128(2) == 16384);
                    assert(pow128(3) == 2097152);
                    assert(b & 0x7f < 0x80) by (bit_vector);
                }
                tag = tag * 0x80 + (b & 0x7f) as u32;
                j = j + 1;
            }
            return Ok((tag_class, constructed, tag, i + 1));
        }
        i = i + 1;
    }
    Err(DecodeError::MalformedIdentifier)
}

} // verus!
