//! Decoding of the length field: the single-octet short form and the
//! multi-octet big-endian long form.

use vstd::prelude::*;

use crate::error::DecodeError;

verus! {

/// How many length octets of the long form the decoder accepts at most.
/// Eight big-endian octets keep the length within `u64`.
pub const MAX_LENGTH_OCTETS: usize = 8;

/// The value carried by length octets 1 through `last`, big-endian.
pub open spec fn spec_be_value(input: Seq<u8>, last: int) -> nat
    decreases last,
{
    if last <= 0 {
        0
    } else {
        spec_be_value(input, last - 1) * 256 + (input[last] as nat)
    }
}

/// `256 ^ k`, the number of length values expressible in `k` octets.
pub open spec fn pow256(k: nat) -> nat
    decreases k,
{
    if k == 0 {
        1
    } else {
        256 * pow256((k - 1) as nat)
    }
}

/// A length assembled from `k` big-endian octets stays below `256 ^ k`.
pub proof fn lemma_be_value_bound(input: Seq<u8>, k: int)
    requires
        0 <= k,
    ensures
        spec_be_value(input, k) < pow256(k as nat),
    decreases k,
{
    if k > 0 {
        lemma_be_value_bound(input, k - 1);
    }
}

/// What the length field of `input` decodes to: content length and octets
/// consumed, or `None` when the field is unsupported or truncated.
///
/// A long-form octet count of zero is the indefinite-length marker of this
/// family of encodings; this decoder deliberately reads it as a definite
/// length of zero, a documented compatibility quirk rather than support for
/// the indefinite form.
pub open spec fn spec_length(input: Seq<u8>) -> Option<(nat, nat)> {
    if input.len() == 0 {
        None
    } else {
        let b0 = input[0];
        if b0 & 0x80 != 0x80 {
            Some(((b0 & 0x7f) as nat, 1nat))
        } else {
            let ll = (b0 & 0x7f) as int;
            if ll > MAX_LENGTH_OCTETS {
                None
            } else if ll == 0 {
                Some((0nat, 1nat))
            } else if input.len() < ll + 1 {
                None
            } else {
                Some((spec_be_value(input, ll), (ll + 1) as nat))
            }
        }
    }
}

/// Law: a long-form length field whose declared octet count exceeds the
/// supported width never decodes; it is rejected rather than silently
/// truncated.
pub proof fn lemma_length_overflow(input: Seq<u8>)
    requires
        input.len() >= 1,
        input[0] & 0x80 == 0x80,
        (input[0] & 0x7f) as int > MAX_LENGTH_OCTETS,
    ensures
        spec_length(input) is None,
{
}

/// Decode the length field at the front of `input`.
///
/// On success the result carries the content length and the count of octets
/// consumed. The only failure is `LengthOverflow`: the buffer is empty, the
/// long form declares more octets than the supported width, or the buffer
/// ends inside the length octets.
pub fn parse_length(input: &[u8]) -> (r: Result<(u64, usize), DecodeError>)
    ensures
        match r {
            Ok(v) => spec_length(input@) == Some((v.0 as nat, v.1 as nat)) && 1 <= v.1
                <= input@.len(),
            Err(e) => spec_length(input@) is None && e == DecodeError::LengthOverflow,
        },
{
    if input.len() == 0 {
        return Err(DecodeError::LengthOverflow);
    }
    let b0 = input[0];
    if b0 & 0x80 != 0x80 {
        return Ok((((b0 & 0x7f) as u64), 1));
    }
    let ll = (b0 & 0x7f) as usize;
    if ll > MAX_LENGTH_OCTETS {
        return Err(DecodeError::LengthOverflow);
    }
    if ll == 0 {
        return Ok((0, 1));
    }
    if input.len() < ll + 1 {
        return Err(DecodeError::LengthOverflow);
    }
    let mut length: u64 = 0;
    let mut i: usize = 1;
    while i <= ll
        invariant
            1 <= i <= ll + 1,
            1 <= ll <= MAX_LENGTH_OCTETS,
            input@.len() >= ll + 1,
            length == spec_be_value(input@, i - 1),
        decreases ll + 1 - i,
    {
        proof {
            lemma_be_value_bound(input@, i - 1);
            assert(pow256(0) == 1);
            assert(pow256(1) == 256);
            assert(pow256(2) == 65536);
            assert(pow256(3) == 16777216);
            assert(pow256(4) == 4294967296);
            assert(pow256(5) == 1099511627776);
            assert(pow256(6) == 281474976710656);
            assert(pow256(7) == 72057594037927936);
        }
        length = length * 0x100 + (input[i] as u64);
        i = i + 1;
    }
    Ok((length, ll + 1))
}

} // verus!
