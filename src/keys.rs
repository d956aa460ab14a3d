//! Key material: the secp256k1 operations the store relies on, and the
//! parsing of a public key written in hex.
use vstd::prelude::*;
use vstd::string::*;

verus! {

/// Length in bytes of a private key.
pub const PRIVATE_KEY_LEN: usize = 32;

/// Length in bytes of a compressed public key.
pub const PUBLIC_KEY_LEN: usize = 33;

/// The compressed public key of a secret, or `None` where the bytes are no
/// valid secp256k1 secret.
pub uninterp spec fn public_key_of(secret: Seq<u8>) -> Option<Seq<u8>>;

/// Whether the bytes encode a point of the secp256k1 curve.
pub uninterp spec fn is_curve_point(bytes: Seq<u8>) -> bool;

/// Relies on secp256k1's `SecretKey::from_slice` (exactly 32 bytes, a scalar
/// below the curve order) and `PublicKey::from_secret_key` with ckb-sdk's
/// shared context; `serialize` gives the 33-byte compressed form.
#[verifier::external_body]
#[allow(deprecated)]
pub(crate) fn derive_public_key(secret: &Vec<u8>) -> (r: Option<Vec<u8>>)
    ensures
        match r {
            Some(k) => public_key_of(secret@) == Some(k@) && k@.len() == PUBLIC_KEY_LEN,
            None => public_key_of(secret@) is None,
        },
        secret@.len() != PRIVATE_KEY_LEN ==> r is None,
{
    match secp256k1::SecretKey::from_slice(secret) {
        Ok(sk) => Some(
            secp256k1::PublicKey::from_secret_key(&ckb_sdk::SECP256K1, &sk).serialize().to_vec(),
        ),
        Err(_) => None,
    }
}

/// Relies on secp256k1's `PublicKey::from_slice`: it accepts 33 or 65 bytes
/// that encode a curve point.
#[verifier::external_body]
pub(crate) fn check_curve_point(bytes: &Vec<u8>) -> (r: bool)
    ensures
        r == is_curve_point(bytes@),
        r ==> bytes@.len() == PUBLIC_KEY_LEN || bytes@.len() == 65,
{
    secp256k1::PublicKey::from_slice(bytes).is_ok()
}

pub open spec fn is_hex_digit(c: char) -> bool {
    ('0' <= c && c <= '9') || ('a' <= c && c <= 'f') || ('A' <= c && c <= 'F')
}

pub open spec fn hex_digit_value(c: char) -> int {
    if '0' <= c && c <= '9' {
        c as int - '0' as int
    } else if 'a' <= c && c <= 'f' {
        c as int - 'a' as int + 10
    } else {
        c as int - 'A' as int + 10
    }
}

/// The text is a whole number of bytes written as hex digits.
pub open spec fn is_hex(s: Seq<char>) -> bool {
    s.len() % 2 == 0 && forall|i: int| 0 <= i < s.len() ==> is_hex_digit(#[trigger] s[i])
}

/// The bytes that hex text spells, two digits each, high digit first.
pub open spec fn hex_bytes(s: Seq<char>) -> Seq<u8> {
    Seq::new(
        s.len() / 2,
        |i: int| (16 * hex_digit_value(s[2 * i]) + hex_digit_value(s[2 * i + 1])) as u8,
    )
}

/// What a public key written in hex parses to: hex text of a compressed
/// secp256k1 point.
pub open spec fn parsed_public_key(s: Seq<char>) -> Option<Seq<u8>> {
    if is_hex(s) && s.len() == 2 * PUBLIC_KEY_LEN && is_curve_point(hex_bytes(s)) {
        Some(hex_bytes(s))
    } else {
        None
    }
}

fn digit_value(c: char) -> (r: Option<u8>)
    ensures
        match r {
            Some(v) => is_hex_digit(c) && v as int == hex_digit_value(c) && v < 16,
            None => !is_hex_digit(c),
        },
{
    if '0' <= c && c <= '9' {
        Some((c as u32 - '0' as u32) as u8)
    } else if 'a' <= c && c <= 'f' {
        Some((c as u32 - 'a' as u32 + 10) as u8)
    } else if 'A' <= c && c <= 'F' {
        Some((c as u32 - 'A' as u32 + 10) as u8)
    } else {
        None
    }
}

/// Decodes hex text into bytes; `None` where it is not whole hex bytes.
pub fn decode_hex(s: &str) -> (r: Option<Vec<u8>>)
    ensures
        match r {
            Some(b) => is_hex(s@) && b@ == hex_bytes(s@),
            None => !is_hex(s@),
        },
{
    let n = s.unicode_len();
    if n % 2 != 0 {
        return None;
    }
    let mut out: Vec<u8> = Vec::new();
    let mut i: usize = 0;
    while i < n
        invariant
            n == s@.len(),
            n % 2 == 0,
            i % 2 == 0,
            i <= n,
            out@.len() == i / 2,
            forall|j: int| 0 <= j < i ==> is_hex_digit(#[trigger] s@[j]),
            forall|j: int| 0 <= j < i / 2 ==> out@[j] == hex_bytes(s@)[j],
        decreases n - i,
    {
        let hi = digit_value(s.get_char(i));
        let lo = digit_value(s.get_char(i + 1));
        match (hi, lo) {
            (Some(h), Some(l)) => {
                out.push(h * 16 + l);
                i = i + 2;
            },
            _ => {
                return None;
            },
        }
    }
    assert(out@ =~= hex_bytes(s@));
    Some(out)
}

/// Parses a compressed public key written in hex.
pub fn parse_public_key(s: &str) -> (r: Option<Vec<u8>>)
    ensures
        match r {
            Some(k) => parsed_public_key(s@) == Some(k@),
            None => parsed_public_key(s@) is None,
        },
{
    match decode_hex(s) {
        Some(bytes) => {
            if bytes.len() == PUBLIC_KEY_LEN && check_curve_point(&bytes) {
                Some(bytes)
            } else {
                None
            }
        },
        None => None,
    }
}

} // verus!
