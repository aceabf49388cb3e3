//! HTTP request methods.
use vstd::prelude::*;
use vstd::utf8::{encode_scalar, encode_utf8, has_width_1_encoding, is_ascii_chars};

use crate::text::{quote, quoted, trim, trimmed};

verus! {

/// The characters of an HTTP token, by code.
pub open spec fn is_token_code(u: nat) -> bool {
    ||| 0x30 <= u <= 0x39
    ||| 0x41 <= u <= 0x5a
    ||| 0x61 <= u <= 0x7a
    ||| u == 0x21
    ||| 0x23 <= u <= 0x27
    ||| u == 0x2a
    ||| u == 0x2b
    ||| u == 0x2d
    ||| u == 0x2e
    ||| 0x5e <= u <= 0x60
    ||| u == 0x7c
    ||| u == 0x7e
}

/// Whether a text is an HTTP token.
pub open spec fn is_token(s: Seq<char>) -> bool {
    &&& s.len() > 0
    &&& forall|i: int| 0 <= i < s.len() ==> is_token_code(#[trigger] s[i] as nat)
}

/// Whether some bytes are an HTTP token.
pub open spec fn is_token_bytes(b: Seq<u8>) -> bool {
    &&& b.len() > 0
    &&& forall|i: int| 0 <= i < b.len() ==> is_token_code(#[trigger] b[i] as nat)
}

/// A character with an ASCII letter in upper case.
pub open spec fn upper(c: char) -> char {
    if 'a' <= c <= 'z' {
        (c as u8 - 32) as char
    } else {
        c
    }
}

/// A text with its ASCII letters in upper case.
pub open spec fn uppercased(s: Seq<char>) -> Seq<char> {
    s.map_values(|c: char| upper(c))
}

/// The method that a text writes: any token, in any case, with white space
/// round it.
pub open spec fn method_of(raw: Seq<char>) -> Result<Seq<char>, Seq<char>> {
    let m = uppercased(trimmed(raw));
    if is_token(m) {
        Ok(m)
    } else {
        Err("invalid HTTP method "@ + quoted(raw))
    }
}

/// The name of the method that some bytes write, where they write one.
///
/// Trusted: `reqwest::Method::from_bytes`, with `as_str` on its result. The
/// contract claims that it accepts the HTTP tokens and nothing else, and that
/// the method's name is the bytes themselves.
#[verifier::external_body]
fn method_from_bytes(src: &[u8]) -> (r: Option<String>)
    ensures
        match r {
            Some(m) => is_token_bytes(src@) && m@ == Seq::new(
                src@.len(),
                |i: int| src@[i] as char,
            ),
            None => !is_token_bytes(src@),
        },
{
    match reqwest::Method::from_bytes(src) {
        Ok(m) => Some(m.as_str().to_string()),
        Err(_) => None,
    }
}

/// A byte with an ASCII letter in upper case.
spec fn upper_byte(b: u8) -> u8 {
    if 0x61 <= b <= 0x7a {
        (b - 32) as u8
    } else {
        b
    }
}

proof fn lemma_narrow_char(c: char)
    ensures
        ('\0' <= c && c <= '\u{7f}') == ((c as u32) < 0x80),
{
}

/// A character outside ASCII leaves a byte above 127 in the encoding.
proof fn lemma_wide_char_encoded(s: Seq<char>, i: int)
    requires
        0 <= i < s.len(),
        s[i] as u32 >= 0x80,
    ensures
        exists|k: int| 0 <= k < encode_utf8(s).len() && #[trigger] encode_utf8(s)[k] >= 0x80,
    decreases s.len(),
{
    let first = encode_scalar(s[0] as u32);
    let rest = encode_utf8(s.drop_first());
    if i == 0 {
        let u = s[0] as u32;
        assert(0xC0u8 | ((u >> 6) & 0x1F) as u8 >= 0x80) by (bit_vector);
        assert(0xE0u8 | ((u >> 12) & 0x0F) as u8 >= 0x80) by (bit_vector);
        assert(0xF0u8 | ((u >> 18) & 0x7) as u8 >= 0x80) by (bit_vector);
        assert(!has_width_1_encoding(u));
        assert(first[0] >= 0x80);
        assert(encode_utf8(s)[0] >= 0x80);
    } else {
        lemma_wide_char_encoded(s.drop_first(), i - 1);
        let k = choose|k: int| 0 <= k < rest.len() && #[trigger] rest[k] >= 0x80;
        assert(encode_utf8(s)[first.len() + k] == rest[k]);
    }
}

/// Reads a method.
pub fn parse_method(raw: &str) -> (r: Result<String, String>)
    ensures
        match r {
            Ok(m) => method_of(raw@) == Ok::<Seq<char>, Seq<char>>(m@),
            Err(e) => method_of(raw@) == Err::<Seq<char>, Seq<char>>(e@),
        },
{
    let text = trim(raw);
    let bytes = text.as_bytes();
    let mut up: Vec<u8> = Vec::new();
    let mut i: usize = 0;
    while i < bytes.len()
        invariant
            i <= bytes@.len(),
            up@.len() == i,
            forall|j: int| 0 <= j < i ==> #[trigger] up@[j] == upper_byte(bytes@[j]),
        decreases bytes@.len() - i,
    {
        let b: u8 = bytes[i];
        if 0x61 <= b && b <= 0x7a {
            up.push(b - 32);
        } else {
            up.push(b);
        }
        i = i + 1;
    }
    let ghost t = text@;
    let ghost m = uppercased(t);
    proof {
        if is_ascii_chars(t) {
            vstd::utf8::is_ascii_chars_encode_utf8(t);
            assert forall|j: int| 0 <= j < t.len() implies #[trigger] m[j] as nat == up@[j] as nat
                && m[j] == up@[j] as char by {
                assert(t[j] as u8 == bytes@[j]);
            }
            assert(is_token(m) == is_token_bytes(up@)) by {
                if is_token(m) {
                    assert forall|j: int| 0 <= j < up@.len() implies is_token_code(
                        #[trigger] up@[j] as nat,
                    ) by {
                        assert(is_token_code(m[j] as nat));
                    }
                }
                if is_token_bytes(up@) {
                    assert forall|j: int| 0 <= j < m.len() implies is_token_code(
                        #[trigger] m[j] as nat,
                    ) by {
                        assert(is_token_code(up@[j] as nat));
                    }
                }
            }
            assert(m =~= Seq::new(up@.len(), |j: int| up@[j] as char));
        } else {
            if forall|j: int| 0 <= j < t.len() ==> (#[trigger] t[j] as u32) < 0x80 {
                assert forall|j: int| 0 <= j < t.len() implies '\0' <= #[trigger] t[j]
                    && t[j] <= '\u{7f}' by {
                    lemma_narrow_char(t[j]);
                }
                assert(is_ascii_chars(t));
            }
            let j = choose|j: int| 0 <= j < t.len() && (#[trigger] t[j] as u32) >= 0x80;
            lemma_wide_char_encoded(t, j);
            let k = choose|k: int| 0 <= k < bytes@.len() && #[trigger] bytes@[k] >= 0x80;
            assert(!is_token_code(up@[k] as nat));
            assert(!is_token_bytes(up@));
            assert(m[j] == t[j]);
            assert(!is_token_code(m[j] as nat));
            assert(!is_token(m));
        }
    }
    match method_from_bytes(up.as_slice()) {
        Some(name) => Ok(name),
        None => Err("invalid HTTP method ".to_owned().concat(quote(raw).as_str())),
    }
}

} // verus!
