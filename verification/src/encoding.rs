//! Base64, in which arguments travel through command lines.

use base64::engine::general_purpose::STANDARD;
use base64::Engine;
use vstd::prelude::*;

verus! {

/// The character of the standard alphabet for six bits.
pub open spec fn base64_char(n: int) -> char {
    if n < 26 {
        (0x41 + n) as char
    } else if n < 52 {
        (0x61 + n - 26) as char
    } else if n < 62 {
        (0x30 + n - 52) as char
    } else if n == 62 {
        '+'
    } else {
        '/'
    }
}

/// The standard Base64 of some bytes: four characters for three bytes, the last four filled
/// up with `=`.
pub open spec fn base64(bytes: Seq<u8>) -> Seq<char>
    decreases bytes.len(),
{
    if bytes.len() == 0 {
        Seq::empty()
    } else {
        let a = bytes[0] as int;
        let b = if bytes.len() > 1 {
            bytes[1] as int
        } else {
            0
        };
        let c = if bytes.len() > 2 {
            bytes[2] as int
        } else {
            0
        };
        let four = seq![
            base64_char(a / 4),
            base64_char(a % 4 * 16 + b / 16),
            if bytes.len() > 1 {
                base64_char(b % 16 * 4 + c / 64)
            } else {
                '='
            },
            if bytes.len() > 2 {
                base64_char(c % 64)
            } else {
                '='
            },
        ];
        if bytes.len() > 3 {
            four + base64(bytes.skip(3))
        } else {
            four
        }
    }
}

/// Whether the Base64 of so many bytes fits into a buffer.
pub open spec fn base64_fits(len: nat) -> bool {
    (len + 2) / 3 * 4 <= isize::MAX
}

/// Calls `Engine::encode` of the engine `STANDARD`, which encodes with the standard alphabet
/// and padding. It would panic where the buffer for the result does not fit.
#[verifier::external_body]
pub(crate) fn encode_base64(bytes: &[u8]) -> (r: String)
    requires
        base64_fits(bytes@.len()),
    ensures
        r@ == base64(bytes@),
{
    STANDARD.encode(bytes)
}

/// Base64 has four characters for every three bytes that are begun.
pub proof fn base64_length(bytes: Seq<u8>)
    ensures
        base64(bytes).len() == (bytes.len() + 2) / 3 * 4,
    decreases bytes.len(),
{
    if bytes.len() > 3 {
        base64_length(bytes.skip(3));
    }
}

} // verus!
