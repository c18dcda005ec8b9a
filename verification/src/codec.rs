//! The text form of a packed identifier: 8 big-endian bytes, rendered in
//! Crockford's base-32 alphabet as a fixed 13-character token.

use vstd::prelude::*;

verus! {

/// The 8 bytes of a 64-bit value, most significant byte first.
pub open spec fn spec_be_bytes(v: u64) -> Seq<u8> {
    Seq::new(8, |i: int| (v >> ((56 - 8 * i) as u64)) as u8)
}

/// Serializes the 64-bit packed value into 8 big-endian bytes.
pub fn chunk(input: u64) -> (r: Vec<u8>)
    ensures
        r@ == spec_be_bytes(input),
{
    let mut r: Vec<u8> = Vec::new();
    r.push((input >> 56u64) as u8);
    r.push(#[verifier::truncate] ((input >> 48u64) as u8));
    r.push(#[verifier::truncate] ((input >> 40u64) as u8));
    r.push(#[verifier::truncate] ((input >> 32u64) as u8));
    r.push(#[verifier::truncate] ((input >> 24u64) as u8));
    r.push(#[verifier::truncate] ((input >> 16u64) as u8));
    r.push(#[verifier::truncate] ((input >> 8u64) as u8));
    r.push(#[verifier::truncate] (input as u8));
    proof {
        assert forall|i: int| 0 <= i < 8 implies r@[i] == spec_be_bytes(input)[i] by {
            if i == 0 {
                assert((56 - 8 * i) as u64 == 56u64);
            } else if i == 1 {
                assert((56 - 8 * i) as u64 == 48u64);
            } else if i == 2 {
                assert((56 - 8 * i) as u64 == 40u64);
            } else if i == 3 {
                assert((56 - 8 * i) as u64 == 32u64);
            } else if i == 4 {
                assert((56 - 8 * i) as u64 == 24u64);
            } else if i == 5 {
                assert((56 - 8 * i) as u64 == 16u64);
            } else if i == 6 {
                assert((56 - 8 * i) as u64 == 8u64);
            } else {
                assert((56 - 8 * i) as u64 == 0u64);
                assert(input >> 0u64 == input) by (bit_vector);
            }
        }
        assert(r@ =~= spec_be_bytes(input));
    }
    r
}

/// Crockford's base-32 alphabet: the digits, then the upper-case letters
/// with the visually ambiguous I, L, O and U left out. Character codes
/// strictly increase with the digit value, which is what keeps tokens
/// sortable.
pub open spec fn crockford_char(d: int) -> char {
    if d == 0 {
        '0'
    } else if d == 1 {
        '1'
    } else if d == 2 {
        '2'
    } else if d == 3 {
        '3'
    } else if d == 4 {
        '4'
    } else if d == 5 {
        '5'
    } else if d == 6 {
        '6'
    } else if d == 7 {
        '7'
    } else if d == 8 {
        '8'
    } else if d == 9 {
        '9'
    } else if d == 10 {
        'A'
    } else if d == 11 {
        'B'
    } else if d == 12 {
        'C'
    } else if d == 13 {
        'D'
    } else if d == 14 {
        'E'
    } else if d == 15 {
        'F'
    } else if d == 16 {
        'G'
    } else if d == 17 {
        'H'
    } else if d == 18 {
        'J'
    } else if d == 19 {
        'K'
    } else if d == 20 {
        'M'
    } else if d == 21 {
        'N'
    } else if d == 22 {
        'P'
    } else if d == 23 {
        'Q'
    } else if d == 24 {
        'R'
    } else if d == 25 {
        'S'
    } else if d == 26 {
        'T'
    } else if d == 27 {
        'V'
    } else if d == 28 {
        'W'
    } else if d == 29 {
        'X'
    } else if d == 30 {
        'Y'
    } else {
        'Z'
    }
}

/// The `i`-th 5-bit group of 8 bytes, most significant bits first, as the
/// base-32 encoder reads them: groups 0 to 11 take five bits each; group 12
/// takes the last four bits followed by one zero padding bit.
pub open spec fn byte_digit(s: Seq<u8>, i: int) -> u8 {
    if i == 0 {
        (s[0] & 0xF8) >> 3
    } else if i == 1 {
        ((s[0] & 0x07) << 2) | ((s[1] & 0xC0) >> 6)
    } else if i == 2 {
        (s[1] & 0x3E) >> 1
    } else if i == 3 {
        ((s[1] & 0x01) << 4) | ((s[2] & 0xF0) >> 4)
    } else if i == 4 {
        ((s[2] & 0x0F) << 1) | (s[3] >> 7)
    } else if i == 5 {
        (s[3] & 0x7C) >> 2
    } else if i == 6 {
        ((s[3] & 0x03) << 3) | ((s[4] & 0xE0) >> 5)
    } else if i == 7 {
        s[4] & 0x1F
    } else if i == 8 {
        (s[5] & 0xF8) >> 3
    } else if i == 9 {
        ((s[5] & 0x07) << 2) | ((s[6] & 0xC0) >> 6)
    } else if i == 10 {
        (s[6] & 0x3E) >> 1
    } else if i == 11 {
        ((s[6] & 0x01) << 4) | ((s[7] & 0xF0) >> 4)
    } else {
        (s[7] & 0x0F) << 1
    }
}

/// The 13 characters the base-32 encoder produces for 8 input bytes.
pub open spec fn spec_encode_bytes(s: Seq<u8>) -> Seq<char> {
    Seq::new(13, |i: int| crockford_char(byte_digit(s, i) as int))
}

/// The same 13 5-bit groups, read directly from the 64-bit value: group
/// `i < 12` is bits `63 - 5i` down to `59 - 5i`, and group 12 is the low
/// four bits followed by one zero bit.
pub open spec fn spec_digit(v: u64, i: int) -> u64 {
    if 0 <= i < 12 {
        (v >> ((59 - 5 * i) as u64)) & 31
    } else {
        (v & 0xF) << 1
    }
}

/// The token of a 64-bit packed value: always 13 characters, base-32
/// digits of the value most significant group first.
pub open spec fn spec_token(v: u64) -> Seq<char> {
    Seq::new(13, |i: int| crockford_char(spec_digit(v, i) as int))
}

/// The 5-bit groups read from the big-endian bytes of `v` are the 5-bit
/// groups read from `v` itself.
pub proof fn lemma_be_digits(v: u64)
    ensures
        forall|i: int| 0 <= i < 13 ==> #[trigger] byte_digit(spec_be_bytes(v), i) as u64
            == spec_digit(v, i),
{
    let s = spec_be_bytes(v);
    let b0 = s[0];
    let b1 = s[1];
    let b2 = s[2];
    let b3 = s[3];
    let b4 = s[4];
    let b5 = s[5];
    let b6 = s[6];
    let b7 = s[7];
    assert(b0 == (v >> 56) as u8);
    assert(b1 == (v >> 48) as u8);
    assert(b2 == (v >> 40) as u8);
    assert(b3 == (v >> 32) as u8);
    assert(b4 == (v >> 24) as u8);
    assert(b5 == (v >> 16) as u8);
    assert(b6 == (v >> 8) as u8);
    assert(b7 == (v >> 0) as u8);
    assert((((b0 & 0xF8) >> 3) as u64) == (v >> 59) & 31) by (bit_vector)
        requires
            b0 == (v >> 56) as u8,
    ;
    assert(((((b0 & 0x07) << 2) | ((b1 & 0xC0) >> 6)) as u64) == (v >> 54) & 31) by (bit_vector)
        requires
            b0 == (v >> 56) as u8,
            b1 == (v >> 48) as u8,
    ;
    assert((((b1 & 0x3E) >> 1) as u64) == (v >> 49) & 31) by (bit_vector)
        requires
            b1 == (v >> 48) as u8,
    ;
    assert(((((b1 & 0x01) << 4) | ((b2 & 0xF0) >> 4)) as u64) == (v >> 44) & 31) by (bit_vector)
        requires
            b1 == (v >> 48) as u8,
            b2 == (v >> 40) as u8,
    ;
    assert(((((b2 & 0x0F) << 1) | (b3 >> 7)) as u64) == (v >> 39) & 31) by (bit_vector)
        requires
            b2 == (v >> 40) as u8,
            b3 == (v >> 32) as u8,
    ;
    assert((((b3 & 0x7C) >> 2) as u64) == (v >> 34) & 31) by (bit_vector)
        requires
            b3 == (v >> 32) as u8,
    ;
    assert(((((b3 & 0x03) << 3) | ((b4 & 0xE0) >> 5)) as u64) == (v >> 29) & 31) by (bit_vector)
        requires
            b3 == (v >> 32) as u8,
            b4 == (v >> 24) as u8,
    ;
    assert(((b4 & 0x1F) as u64) == (v >> 24) & 31) by (bit_vector)
        requires
            b4 == (v >> 24) as u8,
    ;
    assert((((b5 & 0xF8) >> 3) as u64) == (v >> 19) & 31) by (bit_vector)
        requires
            b5 == (v >> 16) as u8,
    ;
    assert(((((b5 & 0x07) << 2) | ((b6 & 0xC0) >> 6)) as u64) == (v >> 14) & 31) by (bit_vector)
        requires
            b5 == (v >> 16) as u8,
            b6 == (v >> 8) as u8,
    ;
    assert((((b6 & 0x3E) >> 1) as u64) == (v >> 9) & 31) by (bit_vector)
        requires
            b6 == (v >> 8) as u8,
    ;
    assert(((((b6 & 0x01) << 4) | ((b7 & 0xF0) >> 4)) as u64) == (v >> 4) & 31) by (bit_vector)
        requires
            b6 == (v >> 8) as u8,
            b7 == (v >> 0) as u8,
    ;
    assert((((b7 & 0x0F) << 1) as u64) == (v & 0xF) << 1) by (bit_vector)
        requires
            b7 == (v >> 0) as u8,
    ;
    assert forall|i: int| 0 <= i < 13 implies #[trigger] byte_digit(s, i) as u64 == spec_digit(
        v,
        i,
    ) by {
        if i == 0 {
            assert((59 - 5 * i) as u64 == 59u64);
        } else if i == 1 {
            assert((59 - 5 * i) as u64 == 54u64);
        } else if i == 2 {
            assert((59 - 5 * i) as u64 == 49u64);
        } else if i == 3 {
            assert((59 - 5 * i) as u64 == 44u64);
        } else if i == 4 {
            assert((59 - 5 * i) as u64 == 39u64);
        } else if i == 5 {
            assert((59 - 5 * i) as u64 == 34u64);
        } else if i == 6 {
            assert((59 - 5 * i) as u64 == 29u64);
        } else if i == 7 {
            assert((59 - 5 * i) as u64 == 24u64);
        } else if i == 8 {
            assert((59 - 5 * i) as u64 == 19u64);
        } else if i == 9 {
            assert((59 - 5 * i) as u64 == 14u64);
        } else if i == 10 {
            assert((59 - 5 * i) as u64 == 9u64);
        } else if i == 11 {
            assert((59 - 5 * i) as u64 == 4u64);
        }
    }
}

/// Relies on `base32::encode` with `Alphabet::Crockford`: each 5-bit group
/// of the input bytes, most significant bits first, becomes one character
/// of the alphabet `0123456789ABCDEFGHJKMNPQRSTVWXYZ`; the last group is
/// padded with zero bits, no padding characters are appended, and the
/// characters that would encode wholly absent bytes are dropped, so 8
/// input bytes give exactly 13 characters.
#[verifier::external_body]
fn base32_crockford(bytes: &Vec<u8>) -> (r: String)
    requires
        bytes@.len() == 8,
    ensures
        r@ == spec_encode_bytes(bytes@),
{
    base32::encode(base32::Alphabet::Crockford, bytes.as_slice())
}

/// Renders the packed value as its 13-character Crockford base-32 token.
pub fn encode_token(input: u64) -> (r: String)
    ensures
        r@ == spec_token(input),
        r@.len() == 13,
{
    let bytes = chunk(input);
    let r = base32_crockford(&bytes);
    proof {
        lemma_be_digits(input);
        assert forall|i: int| 0 <= i < 13 implies spec_encode_bytes(bytes@)[i] == spec_token(
            input,
        )[i] by {
            assert(byte_digit(bytes@, i) as int == spec_digit(input, i) as int);
        }
        assert(spec_encode_bytes(bytes@) =~= spec_token(input));
    }
    r
}

/// Every token character has a code between `'0'` (48) and `'Z'` (90); in
/// particular none is a quote (34), a backslash (92) or a control
/// character, so a token needs no escaping inside a JSON string value.
pub proof fn lemma_token_charset(v: u64)
    ensures
        forall|i: int|
            0 <= i < 13 ==> 48 <= (#[trigger] spec_token(v)[i]) as u32 <= 90,
{
    assert forall|i: int| 0 <= i < 13 implies 48 <= (#[trigger] spec_token(v)[i]) as u32
        <= 90 by {
        let d = spec_digit(v, i);
        if 0 <= i < 12 {
            let s = (59 - 5 * i) as u64;
            assert((v >> s) & 31 <= 31) by (bit_vector);
        } else {
            assert((v & 0xF) << 1 <= 31) by (bit_vector);
        }
        assert(d <= 31);
        assert(spec_token(v)[i] == crockford_char(d as int));
    }
}

/// Strict lexicographic order on character sequences, by character code.
pub open spec fn lex_lt(a: Seq<char>, b: Seq<char>) -> bool
    decreases a.len(),
{
    if b.len() == 0 {
        false
    } else if a.len() == 0 {
        true
    } else if (a[0] as u32) < (b[0] as u32) {
        true
    } else if a[0] == b[0] {
        lex_lt(a.drop_first(), b.drop_first())
    } else {
        false
    }
}

/// Lexicographic order on character sequences, by character code.
pub open spec fn lex_le(a: Seq<char>, b: Seq<char>) -> bool {
    a == b || lex_lt(a, b)
}

/// Character codes in the Crockford alphabet strictly increase with the
/// digit value.
pub proof fn lemma_alphabet_monotone(d1: int, d2: int)
    requires
        0 <= d1 < d2 <= 31,
    ensures
        (crockford_char(d1) as u32) < (crockford_char(d2) as u32),
{
}

/// Tokens of the suffix digits, from group `i` on, of two values `a < b`
/// whose digit groups before `i` agree, compare strictly below one
/// another.
proof fn lemma_suffix_lt(a: u64, b: u64, i: int)
    requires
        0 <= i <= 12,
        a < b,
        i > 0 ==> (a >> ((64 - 5 * i) as u64)) == (b >> ((64 - 5 * i) as u64)),
    ensures
        lex_lt(spec_token(a).skip(i), spec_token(b).skip(i)),
    decreases 13 - i,
{
    let ta = spec_token(a);
    let tb = spec_token(b);
    let da = spec_digit(a, i);
    let db = spec_digit(b, i);
    assert(ta.skip(i)[0] == ta[i] && tb.skip(i)[0] == tb[i]);
    assert(ta[i] == crockford_char(da as int) && tb[i] == crockford_char(db as int));
    if i == 0 {
        assert((59 - 5 * i) as u64 == 59u64);
        assert((a >> 59u64) & 31 <= (b >> 59u64) & 31 && (a >> 59u64) & 31 <= 31 && (b >> 59u64)
            & 31 <= 31 && (((a >> 59u64) & 31 == (b >> 59u64) & 31) ==> a >> 59u64
            == b >> 59u64)) by (bit_vector)
            requires
                a < b,
        ;
        assert(da == (a >> 59u64) & 31 && db == (b >> 59u64) & 31);
    } else if i < 12 {
        let u: u64 = (64 - 5 * i) as u64;
        let s: u64 = (59 - 5 * i) as u64;
        assert(u == s + 5 && 4 <= s <= 54);
        assert((a >> s) & 31 <= (b >> s) & 31 && (a >> s) & 31 <= 31 && (b >> s) & 31 <= 31 && ((
        (a >> s) & 31 == (b >> s) & 31) ==> a >> s == b >> s)) by (bit_vector)
            requires
                a < b,
                a >> u == b >> u,
                u == s + 5,
                4 <= s <= 54,
        ;
        assert(da == (a >> s) & 31 && db == (b >> s) & 31);
    } else {
        let u: u64 = (64 - 5 * i) as u64;
        assert(u == 4u64);
        assert((a & 0xF) << 1 < (b & 0xF) << 1 && (a & 0xF) << 1 <= 31 && (b & 0xF) << 1
            <= 31) by (bit_vector)
            requires
                a < b,
                a >> 4u64 == b >> 4u64,
        ;
        assert(da == (a & 0xF) << 1 && db == (b & 0xF) << 1);
    }
    if da == db {
        assert(i < 12);
        assert(ta.skip(i)[0] == tb.skip(i)[0]);
        assert((64 - 5 * (i + 1)) as u64 == (59 - 5 * i) as u64);
        lemma_suffix_lt(a, b, i + 1);
        assert(ta.skip(i).drop_first() =~= ta.skip(i + 1));
        assert(tb.skip(i).drop_first() =~= tb.skip(i + 1));
        assert(lex_lt(ta.skip(i), tb.skip(i)));
    } else {
        assert(da < db);
        lemma_alphabet_monotone(da as int, db as int);
        assert((ta.skip(i)[0] as u32) < (tb.skip(i)[0] as u32));
        assert(lex_lt(ta.skip(i), tb.skip(i)));
    }
}

/// Tokens sort exactly as the packed values they encode: of two distinct
/// packed values, the smaller one's token is lexicographically strictly
/// smaller, character codes compared left to right.
pub proof fn lemma_token_order(a: u64, b: u64)
    requires
        a < b,
    ensures
        lex_lt(spec_token(a), spec_token(b)),
        lex_le(spec_token(a), spec_token(b)),
{
    lemma_suffix_lt(a, b, 0);
    assert(spec_token(a).skip(0) =~= spec_token(a));
    assert(spec_token(b).skip(0) =~= spec_token(b));
}

/// Encoding is deterministic and of fixed width: equal packed values give
/// the same token, and every token has exactly 13 characters.
pub proof fn lemma_encode_deterministic(a: u64, b: u64)
    requires
        a == b,
    ensures
        spec_token(a) == spec_token(b),
        spec_token(a).len() == 13,
{
}

} // verus!
