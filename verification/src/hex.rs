//! Conversion between byte arrays and their hexadecimal text form.

use vstd::prelude::*;

verus! {

use vstd::string::StringSliceAdditionalSpecFns;

use crate::strutil::push_char;

/// Errors from parsing hexadecimal text.
#[derive(Clone, Copy, Debug, PartialEq, Eq, Structural)]
pub enum HexError {
    /// A byte that is not an ASCII hexadecimal digit.
    NotHexDigit(u8),
    /// The input length in digits does not match the expected output: `(got, expected)`.
    InvalidLength(usize, usize),
}

/// The lower-case hexadecimal digit for a nibble.
pub open spec fn spec_hex_digit(n: u8) -> char {
    if n == 0 {
        '0'
    } else if n == 1 {
        '1'
    } else if n == 2 {
        '2'
    } else if n == 3 {
        '3'
    } else if n == 4 {
        '4'
    } else if n == 5 {
        '5'
    } else if n == 6 {
        '6'
    } else if n == 7 {
        '7'
    } else if n == 8 {
        '8'
    } else if n == 9 {
        '9'
    } else if n == 10 {
        'a'
    } else if n == 11 {
        'b'
    } else if n == 12 {
        'c'
    } else if n == 13 {
        'd'
    } else if n == 14 {
        'e'
    } else {
        'f'
    }
}

fn hex_digit(n: u8) -> (c: char)
    requires
        n < 16,
    ensures
        c == spec_hex_digit(n),
{
    if n == 0 {
        '0'
    } else if n == 1 {
        '1'
    } else if n == 2 {
        '2'
    } else if n == 3 {
        '3'
    } else if n == 4 {
        '4'
    } else if n == 5 {
        '5'
    } else if n == 6 {
        '6'
    } else if n == 7 {
        '7'
    } else if n == 8 {
        '8'
    } else if n == 9 {
        '9'
    } else if n == 10 {
        'a'
    } else if n == 11 {
        'b'
    } else if n == 12 {
        'c'
    } else if n == 13 {
        'd'
    } else if n == 14 {
        'e'
    } else {
        'f'
    }
}

/// The hexadecimal text of a byte sequence: two lower-case digits per byte,
/// high nibble first.
pub open spec fn spec_hex_of(bytes: Seq<u8>) -> Seq<char> {
    Seq::new(
        bytes.len() * 2,
        |i: int|
            if i % 2 == 0 {
                spec_hex_digit(bytes[i / 2] / 16)
            } else {
                spec_hex_digit(bytes[i / 2] % 16)
            },
    )
}

/// A byte slice together with its hexadecimal rendering.
#[derive(Clone, Copy, Debug)]
pub struct AsHex<'a>(pub &'a [u8]);

impl AsHex<'_> {
    /// Length of the hexadecimal rendering: two digits per byte.
    pub fn display_len(self) -> (n: usize)
        requires
            self.0@.len() * 2 <= usize::MAX,
        ensures
            n == self.0@.len() * 2,
    {
        self.0.len() * 2
    }

    /// The hexadecimal rendering as an owned string.
    pub fn to_hex_string(self) -> (s: String)
        ensures
            s@ == spec_hex_of(self.0@),
    {
        let mut s = String::new();
        let len = self.0.len();
        let mut i: usize = 0;
        while i < len
            invariant
                len == self.0@.len(),
                i <= len,
                s@ =~= spec_hex_of(self.0@.take(i as int)),
            decreases len - i,
        {
            let b = self.0[i];
            push_char(&mut s, hex_digit(b / 16));
            push_char(&mut s, hex_digit(b % 16));
            i += 1;
            proof {
                assert(s@ =~= spec_hex_of(self.0@.take(i as int)));
            }
        }
        proof {
            assert(self.0@.take(len as int) =~= self.0@);
        }
        s
    }
}

/// Hexadecimal text of a digest, lower case, two digits per byte.
pub fn digest_to_hex(digest: &[u8]) -> (s: String)
    ensures
        s@ == spec_hex_of(digest@),
{
    bin_to_hex(digest)
}

/// Convert a byte slice to a string of hexadecimal digits.
pub fn bin_to_hex(digest: &[u8]) -> (s: String)
    ensures
        s@ == spec_hex_of(digest@),
{
    AsHex(digest).to_hex_string()
}

/// Whether a byte is an ASCII hexadecimal digit.
pub open spec fn spec_is_hex_digit(b: u8) -> bool {
    (48 <= b && b <= 57) || (97 <= b && b <= 102) || (65 <= b && b <= 70)
}

/// The nibble value of an ASCII hexadecimal digit.
pub open spec fn spec_nibble_value(b: u8) -> u8
    recommends
        spec_is_hex_digit(b),
{
    if 48 <= b && b <= 57 {
        (b - 48) as u8
    } else if 97 <= b && b <= 102 {
        (b - 97 + 10) as u8
    } else {
        (b - 65 + 10) as u8
    }
}

/// The byte encoded by a pair of hexadecimal digits, high nibble first.
pub open spec fn spec_hex_byte(h: u8, l: u8) -> u8
    recommends
        spec_is_hex_digit(h),
        spec_is_hex_digit(l),
{
    (spec_nibble_value(h) * 16 + spec_nibble_value(l)) as u8
}

/// Convert an ASCII character into a hexadecimal nibble.
pub fn hex_nibble_to_byte(b: u8) -> (r: Result<u8, HexError>)
    ensures
        spec_is_hex_digit(b) ==> r == Ok::<u8, HexError>(spec_nibble_value(b)),
        !spec_is_hex_digit(b) ==> r == Err::<u8, HexError>(HexError::NotHexDigit(b)),
{
    if 48 <= b && b <= 57 {
        Ok(b - 48)
    } else if 97 <= b && b <= 102 {
        Ok(b - 97 + 10)
    } else if 65 <= b && b <= 70 {
        Ok(b - 65 + 10)
    } else {
        Err(HexError::NotHexDigit(b))
    }
}

/// Whether a digit sequence decodes exactly to a byte sequence of the given
/// length: even, matching length, all hexadecimal digits.
pub open spec fn spec_hex_decodes(digits: Seq<u8>, out_len: int) -> bool {
    &&& digits.len() == out_len * 2
    &&& forall|j: int| 0 <= j < digits.len() ==> spec_is_hex_digit(#[trigger] digits[j])
}

/// The bytes encoded by a sequence of hexadecimal digits.
pub open spec fn spec_hex_decoded(digits: Seq<u8>) -> Seq<u8> {
    Seq::new(digits.len() / 2, |i: int| spec_hex_byte(digits[i * 2], digits[i * 2 + 1]))
}

/// Parse hexadecimal digits into an already sized byte buffer.
///
/// The text must hold exactly two digits per output byte; on success the
/// buffer holds the decoded bytes.
pub fn hex_to_bin_exact(hex: &str, out: &mut Vec<u8>) -> (r: Result<(), HexError>)
    requires
        old(out)@.len() * 2 <= usize::MAX,
    ensures
        final(out)@.len() == old(out)@.len(),
        r matches Ok(_) <==> spec_hex_decodes(hex.spec_bytes(), old(out)@.len() as int),
        r matches Ok(_) ==> final(out)@ == spec_hex_decoded(hex.spec_bytes()),
        hex.spec_bytes().len() != old(out)@.len() * 2 ==> r == Err::<(), HexError>(
            HexError::InvalidLength(hex.spec_bytes().len() as usize, (old(out)@.len() * 2) as usize),
        ) && final(out)@ == old(out)@,
        r matches Err(e) ==> hex.spec_bytes().len() != old(out)@.len() * 2 || exists|j: int|
            {
                &&& 0 <= j < hex.spec_bytes().len()
                &&& !spec_is_hex_digit(hex.spec_bytes()[j])
                &&& e == HexError::NotHexDigit(hex.spec_bytes()[j])
                &&& forall|k: int| 0 <= k < j ==> spec_is_hex_digit(#[trigger] hex.spec_bytes()[k])
            },
{
    let bytes = hex.as_bytes();
    let n = out.len();

    if bytes.len() != n * 2 {
        return Err(HexError::InvalidLength(bytes.len(), n * 2));
    }

    let mut i: usize = 0;
    while i < n
        invariant
            n == out@.len(),
            n == old(out)@.len(),
            n * 2 <= usize::MAX,
            bytes@ == hex.spec_bytes(),
            bytes@.len() == n * 2,
            i <= n,
            forall|k: int| 0 <= k < i * 2 ==> spec_is_hex_digit(#[trigger] bytes@[k]),
            forall|k: int| 0 <= k < i ==> out@[k] == spec_hex_byte(bytes@[k * 2], bytes@[k * 2 + 1]),
        decreases n - i,
    {
        let h = match hex_nibble_to_byte(bytes[i * 2]) {
            Ok(v) => v,
            Err(e) => {
                return Err(e);
            },
        };
        let l = match hex_nibble_to_byte(bytes[i * 2 + 1]) {
            Ok(v) => v,
            Err(e) => {
                return Err(e);
            },
        };
        out[i] = h * 16 + l;
        i += 1;
    }
    proof {
        assert(out@ =~= spec_hex_decoded(hex.spec_bytes()));
    }
    Ok(())
}

/// Convert a string of hexadecimal digits to a byte vector.
///
/// Any non-digit is an error, and only full bytes are allowed, so the input
/// must consist of an even number of digits.
pub fn hex_to_bin(hex: &str) -> (r: Result<Vec<u8>, HexError>)
    ensures
        r matches Ok(v) ==> {
            &&& spec_hex_decodes(hex.spec_bytes(), hex.spec_bytes().len() as int / 2)
            &&& v@ == spec_hex_decoded(hex.spec_bytes())
        },
        r matches Err(_) ==> !spec_hex_decodes(hex.spec_bytes(), hex.spec_bytes().len() as int / 2),
{
    let len = hex.as_bytes().len();
    let mut out: Vec<u8> = vec![0u8; len / 2];
    hex_to_bin_exact(hex, &mut out)?;
    Ok(out)
}

/// Parse the hexadecimal form of a 32-byte digest.
pub fn hex_to_digest(hex: &str) -> (r: Result<[u8; 32], HexError>)
    ensures
        r matches Ok(v) ==> {
            &&& spec_hex_decodes(hex.spec_bytes(), 32)
            &&& v@ == spec_hex_decoded(hex.spec_bytes())
        },
        r matches Err(_) ==> !spec_hex_decodes(hex.spec_bytes(), 32),
{
    let mut digest: Vec<u8> = vec![0u8; 32];
    hex_to_bin_exact(hex, &mut digest)?;
    Ok(vec_to_digest(digest))
}

/// Relies on the standard `TryFrom<Vec<u8>>` impl for byte arrays: with the
/// length equal to 32 the conversion succeeds and keeps the bytes.
#[verifier::external_body]
fn vec_to_digest(v: Vec<u8>) -> (r: [u8; 32])
    requires
        v@.len() == 32,
    ensures
        r@ == v@,
{
    match <[u8; 32] as TryFrom<Vec<u8>>>::try_from(v) {
        Ok(a) => a,
        Err(_) => [0u8; 32],
    }
}

} // verus!
