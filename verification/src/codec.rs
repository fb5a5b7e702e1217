//! Token codec: a 6-byte identifier is shown to users as an 8-character
//! URL-safe token (base64url alphabet, no padding). Encoding is total over
//! identifiers; decoding rejects every string that is not exactly the
//! encoding of some identifier.

use vstd::prelude::*;

verus! {

use crate::Id;
use crate::text::utf8_to_string;
use vstd::utf8::{decode_utf8, encode_utf8, is_ascii_chars, valid_utf8};
use vstd::utf8::{encode_utf8_decode_utf8, encode_utf8_valid_utf8, is_ascii_chars_encode_utf8};

/// ASCII code of base64url digit `v` (a 6-bit value).
pub open spec fn b64_byte(v: u8) -> u8
    recommends
        v < 64,
{
    if v < 26 {
        (v + 'A' as u8) as u8
    } else if v < 52 {
        (v - 26 + 'a' as u8) as u8
    } else if v < 62 {
        (v - 52 + '0' as u8) as u8
    } else if v == 62 {
        '-' as u8
    } else {
        '_' as u8
    }
}

/// Whether `b` is the ASCII code of a base64url digit.
pub open spec fn is_b64_byte(b: u8) -> bool {
    ('A' as u8 <= b <= 'Z' as u8) || ('a' as u8 <= b <= 'z' as u8) || ('0' as u8 <= b <= '9' as u8)
        || b == '-' as u8 || b == '_' as u8
}

/// The 6-bit value of the base64url digit with ASCII code `b`.
pub open spec fn b64_val(b: u8) -> u8
    recommends
        is_b64_byte(b),
{
    if 'A' as u8 <= b <= 'Z' as u8 {
        (b - 'A' as u8) as u8
    } else if 'a' as u8 <= b <= 'z' as u8 {
        (b - 'a' as u8 + 26) as u8
    } else if '0' as u8 <= b <= '9' as u8 {
        (b - '0' as u8 + 52) as u8
    } else if b == '-' as u8 {
        62u8
    } else {
        63u8
    }
}

/// Whether `c` is a character of the base64url alphabet.
pub open spec fn is_b64_char(c: char) -> bool {
    (c as u32) < 128 && is_b64_byte(c as u8)
}

/// The base64url digit character of a 6-bit value.
pub open spec fn b64_char(v: u8) -> char
    recommends
        v < 64,
{
    b64_byte(v) as char
}

/// A base64url digit round-trips through its ASCII code.
proof fn lemma_digit_roundtrip(v: u8)
    requires
        v < 64,
    ensures
        is_b64_byte(b64_byte(v)),
        b64_val(b64_byte(v)) == v,
        b64_byte(v) < 128,
{
}

/// A base64url digit's ASCII code round-trips through its 6-bit value.
proof fn lemma_byte_roundtrip(b: u8)
    requires
        is_b64_byte(b),
    ensures
        b64_val(b) < 64,
        b64_byte(b64_val(b)) == b,
{
}

/// Executable ASCII code of base64url digit `v`.
fn digit(v: u8) -> (b: u8)
    requires
        v < 64,
    ensures
        b == b64_byte(v),
{
    if v < 26 {
        v + 65
    } else if v < 52 {
        v + 71
    } else if v < 62 {
        v - 4
    } else if v == 62 {
        45
    } else {
        95
    }
}

/// Executable 6-bit value of the digit with ASCII code `b`, or `None`
/// when `b` is no base64url digit.
fn digit_val(b: u8) -> (r: Option<u8>)
    ensures
        match r {
            Some(v) => is_b64_byte(b) && v == b64_val(b) && v < 64,
            None => !is_b64_byte(b),
        },
{
    if 65 <= b && b <= 90 {
        Some(b - 65)
    } else if 97 <= b && b <= 122 {
        Some(b - 97 + 26)
    } else if 48 <= b && b <= 57 {
        Some(b - 48 + 52)
    } else if b == 45 {
        Some(62)
    } else if b == 95 {
        Some(63)
    } else {
        None
    }
}

/// A valid token: exactly 8 characters, all in the base64url alphabet.
pub open spec fn token_valid(s: Seq<char>) -> bool {
    s.len() == 8 && (forall|i: int| 0 <= i < 8 ==> is_b64_char(#[trigger] s[i]))
}

/// The token that encodes a 6-byte identifier.
pub open spec fn encoded_token(id: Seq<u8>) -> Seq<char>
    recommends
        id.len() == 6,
{
    seq![
        b64_char(id[0] >> 2),
        b64_char(((id[0] & 3) << 4) | (id[1] >> 4)),
        b64_char(((id[1] & 15) << 2) | (id[2] >> 6)),
        b64_char(id[2] & 63),
        b64_char(id[3] >> 2),
        b64_char(((id[3] & 3) << 4) | (id[4] >> 4)),
        b64_char(((id[4] & 15) << 2) | (id[5] >> 6)),
        b64_char(id[5] & 63),
    ]
}

/// The identifier that a valid token encodes.
pub open spec fn decoded_id(s: Seq<char>) -> Seq<u8>
    recommends
        token_valid(s),
{
    let v0 = b64_val(s[0] as u8);
    let v1 = b64_val(s[1] as u8);
    let v2 = b64_val(s[2] as u8);
    let v3 = b64_val(s[3] as u8);
    let v4 = b64_val(s[4] as u8);
    let v5 = b64_val(s[5] as u8);
    let v6 = b64_val(s[6] as u8);
    let v7 = b64_val(s[7] as u8);
    seq![
        (v0 << 2) | (v1 >> 4),
        ((v1 & 15) << 4) | (v2 >> 2),
        ((v2 & 3) << 6) | v3,
        (v4 << 2) | (v5 >> 4),
        ((v5 & 15) << 4) | (v6 >> 2),
        ((v6 & 3) << 6) | v7,
    ]
}

/// The four 6-bit groups drawn from a 3-byte group are bounded by 64.
proof fn lemma_group_vals_bounded(x: u8, y: u8, z: u8)
    ensures
        x >> 2 < 64,
        (((x & 3) << 4) | (y >> 4)) < 64,
        (((y & 15) << 2) | (z >> 6)) < 64,
        z & 63 < 64,
{
    assert(x >> 2 < 64 && (((x & 3) << 4) | (y >> 4)) < 64 && (((y & 15) << 2) | (z >> 6)) < 64
        && z & 63 < 64) by (bit_vector);
}

/// Encode an identifier as its 8-character URL-safe token. Total: every
/// identifier has a token, and the token is exactly `encoded_token(id@)`.
pub fn encode(id: &Id) -> (r: String)
    ensures
        r@ == encoded_token(id@),
        r@.len() == 8,
{
    proof {
        lemma_group_vals_bounded(id@[0], id@[1], id@[2]);
        lemma_group_vals_bounded(id@[3], id@[4], id@[5]);
    }
    let mut bytes: Vec<u8> = Vec::new();
    bytes.push(digit(id[0] >> 2));
    bytes.push(digit(((id[0] & 3) << 4) | (id[1] >> 4)));
    bytes.push(digit(((id[1] & 15) << 2) | (id[2] >> 6)));
    bytes.push(digit(id[2] & 63));
    bytes.push(digit(id[3] >> 2));
    bytes.push(digit(((id[3] & 3) << 4) | (id[4] >> 4)));
    bytes.push(digit(((id[4] & 15) << 2) | (id[5] >> 6)));
    bytes.push(digit(id[5] & 63));
    proof {
        let chars = encoded_token(id@);
        lemma_digit_roundtrip(id@[0] >> 2);
        lemma_digit_roundtrip(((id@[0] & 3) << 4) | (id@[1] >> 4));
        lemma_digit_roundtrip(((id@[1] & 15) << 2) | (id@[2] >> 6));
        lemma_digit_roundtrip(id@[2] & 63);
        lemma_digit_roundtrip(id@[3] >> 2);
        lemma_digit_roundtrip(((id@[3] & 3) << 4) | (id@[4] >> 4));
        lemma_digit_roundtrip(((id@[4] & 15) << 2) | (id@[5] >> 6));
        lemma_digit_roundtrip(id@[5] & 63);
        assert(is_ascii_chars(chars));
        is_ascii_chars_encode_utf8(chars);
        assert(encode_utf8(chars) =~= bytes@);
        encode_utf8_valid_utf8(chars);
        encode_utf8_decode_utf8(chars);
        assert(valid_utf8(bytes@));
    }
    match utf8_to_string(bytes) {
        Some(s) => s,
        None => {
            proof {
                assert(false);
            }
            String::new()
        },
    }
}

/// Executable 6-bit value of a token character, or `None` when the
/// character is outside the alphabet.
fn char_val(c: char) -> (r: Option<u8>)
    ensures
        match r {
            Some(v) => is_b64_char(c) && v == b64_val(c as u8) && v < 64,
            None => !is_b64_char(c),
        },
{
    if c > '\u{7f}' {
        None
    } else {
        digit_val(c as u8)
    }
}

/// Decode a token back to the identifier it encodes. Returns `None` exactly
/// when the string is not 8 characters of the base64url alphabet, that is,
/// when it is not the encoding of any 6-byte identifier; never panics.
pub fn decode(token: &str) -> (r: Option<Id>)
    ensures
        match r {
            Some(id) => token_valid(token@) && id@ == decoded_id(token@),
            None => !token_valid(token@),
        },
{
    if token.unicode_len() != 8 {
        return None;
    }
    let v0 = match char_val(token.get_char(0)) {
        Some(v) => v,
        None => {
            return None;
        },
    };
    let v1 = match char_val(token.get_char(1)) {
        Some(v) => v,
        None => {
            return None;
        },
    };
    let v2 = match char_val(token.get_char(2)) {
        Some(v) => v,
        None => {
            return None;
        },
    };
    let v3 = match char_val(token.get_char(3)) {
        Some(v) => v,
        None => {
            return None;
        },
    };
    let v4 = match char_val(token.get_char(4)) {
        Some(v) => v,
        None => {
            return None;
        },
    };
    let v5 = match char_val(token.get_char(5)) {
        Some(v) => v,
        None => {
            return None;
        },
    };
    let v6 = match char_val(token.get_char(6)) {
        Some(v) => v,
        None => {
            return None;
        },
    };
    let v7 = match char_val(token.get_char(7)) {
        Some(v) => v,
        None => {
            return None;
        },
    };
    let id: Id = [
        (v0 << 2) | (v1 >> 4),
        ((v1 & 15) << 4) | (v2 >> 2),
        ((v2 & 3) << 6) | v3,
        (v4 << 2) | (v5 >> 4),
        ((v5 & 15) << 4) | (v6 >> 2),
        ((v6 & 3) << 6) | v7,
    ];
    proof {
        assert(token_valid(token@));
        assert(id@ =~= decoded_id(token@));
    }
    Some(id)
}

/// A 3-byte group survives the split into four 6-bit values and back.
proof fn lemma_group_roundtrip(x: u8, y: u8, z: u8)
    ensures
        ((x >> 2) << 2) | ((((x & 3) << 4) | (y >> 4)) >> 4) == x,
        (((((x & 3) << 4) | (y >> 4)) & 15) << 4) | ((((y & 15) << 2) | (z >> 6)) >> 2) == y,
        (((((y & 15) << 2) | (z >> 6)) & 3) << 6) | (z & 63) == z,
{
    assert(((x >> 2) << 2) | ((((x & 3) << 4) | (y >> 4)) >> 4) == x && (((((x & 3) << 4) | (y
        >> 4)) & 15) << 4) | ((((y & 15) << 2) | (z >> 6)) >> 2) == y && (((((y & 15) << 2) | (z
        >> 6)) & 3) << 6) | (z & 63) == z) by (bit_vector);
}

/// Round-trip law: the token of any 6-byte identifier is valid and decodes
/// back to exactly that identifier.
pub proof fn lemma_token_round_trip(b: Seq<u8>)
    requires
        b.len() == 6,
    ensures
        token_valid(encoded_token(b)),
        decoded_id(encoded_token(b)) == b,
{
    lemma_group_vals_bounded(b[0], b[1], b[2]);
    lemma_group_vals_bounded(b[3], b[4], b[5]);
    lemma_digit_roundtrip(b[0] >> 2);
    lemma_digit_roundtrip(((b[0] & 3) << 4) | (b[1] >> 4));
    lemma_digit_roundtrip(((b[1] & 15) << 2) | (b[2] >> 6));
    lemma_digit_roundtrip(b[2] & 63);
    lemma_digit_roundtrip(b[3] >> 2);
    lemma_digit_roundtrip(((b[3] & 3) << 4) | (b[4] >> 4));
    lemma_digit_roundtrip(((b[4] & 15) << 2) | (b[5] >> 6));
    lemma_digit_roundtrip(b[5] & 63);
    lemma_group_roundtrip(b[0], b[1], b[2]);
    lemma_group_roundtrip(b[3], b[4], b[5]);
    assert(token_valid(encoded_token(b)));
    assert(decoded_id(encoded_token(b)) =~= b);
}

/// The four 6-bit values of a group are recovered from the three bytes they
/// were packed into.
proof fn lemma_group_extract(v0: u8, v1: u8, v2: u8, v3: u8)
    requires
        v0 < 64,
        v1 < 64,
        v2 < 64,
        v3 < 64,
    ensures
        ((v0 << 2) | (v1 >> 4)) >> 2 == v0,
        ((((v0 << 2) | (v1 >> 4)) & 3) << 4) | ((((v1 & 15) << 4) | (v2 >> 2)) >> 4) == v1,
        (((((v1 & 15) << 4) | (v2 >> 2)) & 15) << 2) | ((((v2 & 3) << 6) | v3) >> 6) == v2,
        (((v2 & 3) << 6) | v3) & 63 == v3,
{
    assert((((v0 << 2) | (v1 >> 4)) >> 2 == v0) && (((((v0 << 2) | (v1 >> 4)) & 3) << 4) | ((((v1
        & 15) << 4) | (v2 >> 2)) >> 4) == v1) && ((((((v1 & 15) << 4) | (v2 >> 2)) & 15) << 2) | ((
    ((v2 & 3) << 6) | v3) >> 6) == v2) && ((((v2 & 3) << 6) | v3) & 63 == v3)) by (bit_vector)
        requires
            v0 < 64 && v1 < 64 && v2 < 64 && v3 < 64,
    ;
}

/// Canonicity: every valid token is exactly the encoding of the identifier
/// it decodes to — `decode` accepts nothing but encodings.
pub proof fn lemma_valid_token_is_encoding(s: Seq<char>)
    requires
        token_valid(s),
    ensures
        decoded_id(s).len() == 6,
        encoded_token(decoded_id(s)) == s,
{
    let v0 = b64_val(s[0] as u8);
    let v1 = b64_val(s[1] as u8);
    let v2 = b64_val(s[2] as u8);
    let v3 = b64_val(s[3] as u8);
    let v4 = b64_val(s[4] as u8);
    let v5 = b64_val(s[5] as u8);
    let v6 = b64_val(s[6] as u8);
    let v7 = b64_val(s[7] as u8);
    lemma_byte_roundtrip(s[0] as u8);
    lemma_byte_roundtrip(s[1] as u8);
    lemma_byte_roundtrip(s[2] as u8);
    lemma_byte_roundtrip(s[3] as u8);
    lemma_byte_roundtrip(s[4] as u8);
    lemma_byte_roundtrip(s[5] as u8);
    lemma_byte_roundtrip(s[6] as u8);
    lemma_byte_roundtrip(s[7] as u8);
    lemma_group_extract(v0, v1, v2, v3);
    lemma_group_extract(v4, v5, v6, v7);
    assert forall|i: int| 0 <= i < 8 implies ((s[i] as u8) as char) == s[i] by {
        vstd::utf8::char_u32_cast(s[i], s[i] as u32);
    }
    assert(encoded_token(decoded_id(s)) =~= s);
}

} // verus!
