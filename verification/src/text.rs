//! Text helpers: UTF-8 decoding, ASCII strings, hexadecimal and decimal notation.
use vstd::prelude::*;
use vstd::utf8::{
    decode_utf8, encode_utf8, encode_utf8_decode_utf8, encode_utf8_valid_utf8, is_ascii_chars,
    is_ascii_chars_encode_utf8, valid_utf8,
};

verus! {

/// Calls `String::from_utf8` of std. Claims what its documentation says: it succeeds
/// exactly on valid UTF-8, and the string then holds the decoded characters.
#[verifier::external_body]
pub(crate) fn string_from_utf8(bytes: Vec<u8>) -> (res: Option<String>)
    ensures
        res is Some <==> valid_utf8(bytes@),
        res matches Some(s) ==> s@ == decode_utf8(bytes@),
{
    String::from_utf8(bytes).ok()
}

/// The characters whose codes are the given ASCII bytes.
pub open spec fn ascii_chars(bytes: Seq<u8>) -> Seq<char> {
    Seq::new(bytes.len(), |i: int| bytes[i] as char)
}

/// Every byte is below 128.
pub open spec fn all_ascii(bytes: Seq<u8>) -> bool {
    forall|i: int| 0 <= i < bytes.len() ==> #[trigger] bytes[i] < 128
}

/// ASCII bytes are valid UTF-8 and decode to the characters of the same codes.
pub proof fn lemma_ascii_utf8(bytes: Seq<u8>)
    requires
        all_ascii(bytes),
    ensures
        valid_utf8(bytes),
        decode_utf8(bytes) == ascii_chars(bytes),
{
    let chars = ascii_chars(bytes);
    assert forall|i: int| 0 <= i < chars.len() implies '\0' <= #[trigger] chars[i] <= '\u{7f}' by {
        assert(bytes[i] < 128);
    }
    assert(is_ascii_chars(chars));
    is_ascii_chars_encode_utf8(chars);
    assert forall|i: int| 0 <= i < bytes.len() implies encode_utf8(chars)[i] == bytes[i] by {
        assert(chars[i] as u8 == encode_utf8(chars)[i]);
        assert(bytes[i] < 128);
        assert((bytes[i] as char) as u8 == bytes[i]);
    }
    assert(encode_utf8(chars) =~= bytes);
    encode_utf8_valid_utf8(chars);
    encode_utf8_decode_utf8(chars);
}

/// Dropping leading ASCII bytes from valid UTF-8 leaves valid UTF-8.
pub proof fn lemma_valid_utf8_skip_ascii(s: Seq<u8>, k: int)
    requires
        valid_utf8(s),
        0 <= k <= s.len(),
        forall|i: int| 0 <= i < k ==> #[trigger] s[i] < 128,
    ensures
        valid_utf8(s.subrange(k, s.len() as int)),
    decreases k,
{
    if k == 0 {
        assert(s.subrange(0, s.len() as int) =~= s);
    } else {
        assert(s[0] < 128);
        let t = s.subrange(1, s.len() as int);
        assert(t =~= vstd::utf8::pop_first_scalar(s));
        assert forall|i: int| 0 <= i < k - 1 implies #[trigger] t[i] < 128 by {
            assert(t[i] == s[i + 1]);
        }
        lemma_valid_utf8_skip_ascii(t, k - 1);
        assert(t.subrange(k - 1, t.len() as int) =~= s.subrange(k, s.len() as int));
    }
}

/// The string of the given ASCII bytes.
pub fn ascii_string(bytes: Vec<u8>) -> (s: String)
    requires
        all_ascii(bytes@),
    ensures
        s@ == ascii_chars(bytes@),
{
    proof {
        lemma_ascii_utf8(bytes@);
    }
    match string_from_utf8(bytes) {
        Some(s) => s,
        None => String::new(),
    }
}

/// The ASCII code of the lowercase hexadecimal digit of `d`.
pub open spec fn hex_lower_digit(d: u8) -> u8 {
    if d < 10 {
        (48 + d) as u8
    } else {
        (87 + d) as u8
    }
}

/// The ASCII code of the uppercase hexadecimal digit of `d`.
pub open spec fn hex_upper_digit(d: u8) -> u8 {
    if d < 10 {
        (48 + d) as u8
    } else {
        (55 + d) as u8
    }
}

/// The ASCII bytes of the lowercase hexadecimal notation of `data`, two digits per
/// byte, high digit first.
pub open spec fn hex_lower_bytes(data: Seq<u8>) -> Seq<u8> {
    Seq::new(
        2 * data.len(),
        |i: int|
            if i % 2 == 0 {
                hex_lower_digit(data[i / 2] / 16)
            } else {
                hex_lower_digit(data[i / 2] % 16)
            },
    )
}

/// The ASCII bytes of the uppercase hexadecimal notation of `data`.
pub open spec fn hex_upper_bytes(data: Seq<u8>) -> Seq<u8> {
    Seq::new(
        2 * data.len(),
        |i: int|
            if i % 2 == 0 {
                hex_upper_digit(data[i / 2] / 16)
            } else {
                hex_upper_digit(data[i / 2] % 16)
            },
    )
}

/// Lowercase hexadecimal notation of `data`.
pub fn hex_lower(data: &[u8]) -> (s: String)
    ensures
        s@ == ascii_chars(hex_lower_bytes(data@)),
{
    let mut out: Vec<u8> = Vec::new();
    let mut i: usize = 0;
    while i < data.len()
        invariant
            i <= data@.len(),
            out@ == hex_lower_bytes(data@.subrange(0, i as int)),
            all_ascii(out@),
        decreases data@.len() - i,
    {
        let b = data[i];
        let hi = b / 16;
        let lo = b % 16;
        let c_hi: u8 = if hi < 10 { 48 + hi } else { 87 + hi };
        let c_lo: u8 = if lo < 10 { 48 + lo } else { 87 + lo };
        out.push(c_hi);
        out.push(c_lo);
        proof {
            let next = data@.subrange(0, i + 1);
            assert(next.subrange(0, i as int) =~= data@.subrange(0, i as int));
            assert forall|k: int| 0 <= k < 2 * (i + 1) implies #[trigger] out@[k]
                == hex_lower_bytes(next)[k] by {
                if k < 2 * i {
                    assert(next[k / 2] == data@.subrange(0, i as int)[k / 2]);
                }
            }
            assert(out@ =~= hex_lower_bytes(next));
        }
        i = i + 1;
    }
    assert(data@.subrange(0, data@.len() as int) =~= data@);
    ascii_string(out)
}

/// Uppercase hexadecimal notation of `data`.
pub fn hex_upper(data: &[u8]) -> (s: String)
    ensures
        s@ == ascii_chars(hex_upper_bytes(data@)),
{
    let mut out: Vec<u8> = Vec::new();
    let mut i: usize = 0;
    while i < data.len()
        invariant
            i <= data@.len(),
            out@ == hex_upper_bytes(data@.subrange(0, i as int)),
            all_ascii(out@),
        decreases data@.len() - i,
    {
        let b = data[i];
        let hi = b / 16;
        let lo = b % 16;
        let c_hi: u8 = if hi < 10 { 48 + hi } else { 55 + hi };
        let c_lo: u8 = if lo < 10 { 48 + lo } else { 55 + lo };
        out.push(c_hi);
        out.push(c_lo);
        proof {
            let next = data@.subrange(0, i + 1);
            assert(next.subrange(0, i as int) =~= data@.subrange(0, i as int));
            assert forall|k: int| 0 <= k < 2 * (i + 1) implies #[trigger] out@[k]
                == hex_upper_bytes(next)[k] by {
                if k < 2 * i {
                    assert(next[k / 2] == data@.subrange(0, i as int)[k / 2]);
                }
            }
            assert(out@ =~= hex_upper_bytes(next));
        }
        i = i + 1;
    }
    assert(data@.subrange(0, data@.len() as int) =~= data@);
    ascii_string(out)
}

/// The ASCII bytes of the decimal notation of `n`, without leading zeros.
pub open spec fn decimal_bytes(n: nat) -> Seq<u8>
    decreases n,
{
    if n < 10 {
        seq![(48 + n) as u8]
    } else {
        decimal_bytes(n / 10).push((48 + n % 10) as u8)
    }
}

/// Decimal digits are ASCII.
pub proof fn lemma_decimal_ascii(n: nat)
    ensures
        all_ascii(decimal_bytes(n)),
    decreases n,
{
    if n >= 10 {
        lemma_decimal_ascii(n / 10);
    }
}

/// Appends the decimal notation of `n` to `out`.
pub fn push_decimal(out: &mut Vec<u8>, n: u64)
    ensures
        final(out)@ == old(out)@ + decimal_bytes(n as nat),
    decreases n,
{
    if n >= 10 {
        push_decimal(out, n / 10);
    }
    out.push(48u8 + (n % 10) as u8);
    assert(final(out)@ =~= old(out)@ + decimal_bytes(n as nat));
}

/// The decimal notation of `n`.
pub fn decimal_string(n: u64) -> (s: String)
    ensures
        s@ == ascii_chars(decimal_bytes(n as nat)),
{
    let mut out: Vec<u8> = Vec::new();
    push_decimal(&mut out, n);
    proof {
        lemma_decimal_ascii(n as nat);
        assert(out@ =~= decimal_bytes(n as nat));
    }
    ascii_string(out)
}

} // verus!
