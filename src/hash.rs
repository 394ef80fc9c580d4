//! Canonicalisation of content hashes: 32 raw bytes, or 64 hexadecimal
//! characters that decode to 32 bytes.
use vstd::prelude::*;

verus! {

/// Length of a canonical hash in bytes.
pub const HASH_LEN: usize = 32;

/// Length of the hexadecimal form of a hash.
pub const HEX_HASH_LEN: usize = 64;

/// Whether `c` is an ASCII hexadecimal digit (either case).
pub open spec fn is_hex_digit(c: u8) -> bool {
    (0x30 <= c <= 0x39) || (0x61 <= c <= 0x66) || (0x41 <= c <= 0x46)
}

/// The value of a hexadecimal digit.
pub open spec fn hex_digit_value(c: u8) -> int
    recommends
        is_hex_digit(c),
{
    if 0x30 <= c <= 0x39 {
        c - 0x30
    } else if 0x61 <= c <= 0x66 {
        c - 0x61 + 10
    } else {
        c - 0x41 + 10
    }
}

/// Every character of `s` is a hexadecimal digit.
pub open spec fn all_hex(s: Seq<u8>) -> bool {
    forall|i: int| 0 <= i < s.len() ==> #[trigger] is_hex_digit(s[i])
}

/// The bytes that a string of hexadecimal digit pairs encodes.
pub open spec fn hex_decode(s: Seq<u8>) -> Seq<u8> {
    Seq::new(
        s.len() / 2,
        |i: int| (16 * hex_digit_value(s[2 * i]) + hex_digit_value(s[2 * i + 1])) as u8,
    )
}

/// The canonical 32-byte form of a hash given as raw bytes or as hex text;
/// `None` where the input is neither.
pub open spec fn canonical_hash(input: Seq<u8>) -> Option<Seq<u8>> {
    if input.len() == HASH_LEN {
        Some(input)
    } else if input.len() == HEX_HASH_LEN && all_hex(input) {
        Some(hex_decode(input))
    } else {
        None
    }
}

/// Decodes one hexadecimal digit; `None` for any other character.
pub fn decode_hex_digit(c: u8) -> (r: Option<u8>)
    ensures
        match r {
            Some(v) => is_hex_digit(c) && v == hex_digit_value(c) && v < 16,
            None => !is_hex_digit(c),
        },
{
    if 0x30 <= c && c <= 0x39 {
        Some(c - 0x30)
    } else if 0x61 <= c && c <= 0x66 {
        Some(c - 0x61 + 10)
    } else if 0x41 <= c && c <= 0x46 {
        Some(c - 0x41 + 10)
    } else {
        None
    }
}

/// Canonicalises a hash: 32 bytes pass through unchanged, 64 hex characters
/// are decoded pairwise, anything else is refused.
pub fn normalize(input: &[u8]) -> (r: Option<[u8; 32]>)
    ensures
        match canonical_hash(input@) {
            Some(h) => r is Some && r->0@ == h,
            None => r is None,
        },
{
    let mut out = [0u8; 32];
    if input.len() == HASH_LEN {
        let mut i: usize = 0;
        while i < HASH_LEN
            invariant
                i <= HASH_LEN,
                input@.len() == HASH_LEN,
                forall|k: int| 0 <= k < i ==> out@[k] == input@[k],
            decreases HASH_LEN - i,
        {
            out[i] = input[i];
            i = i + 1;
        }
        assert(out@ =~= input@);
        Some(out)
    } else if input.len() == HEX_HASH_LEN {
        let mut i: usize = 0;
        while i < HASH_LEN
            invariant
                i <= HASH_LEN,
                input@.len() == HEX_HASH_LEN,
                forall|k: int| 0 <= k < 2 * i ==> #[trigger] is_hex_digit(input@[k]),
                forall|k: int| 0 <= k < i ==> out@[k] == hex_decode(input@)[k],
            decreases HASH_LEN - i,
        {
            let hi = decode_hex_digit(input[2 * i]);
            let lo = decode_hex_digit(input[2 * i + 1]);
            match (hi, lo) {
                (Some(h), Some(l)) => {
                    out[i] = h * 16 + l;
                },
                _ => {
                    assert(!all_hex(input@));
                    return None;
                },
            }
            i = i + 1;
        }
        assert(all_hex(input@));
        assert(out@ =~= hex_decode(input@));
        Some(out)
    } else {
        None
    }
}

} // verus!
