//! What a method text comes to, character by character.
use vstd::prelude::*;

use crate::method::{is_token_code, method_of, upper, uppercased};
use crate::text::{quoted, trimmed};

verus! {

/// Whether a character may stand in an HTTP method: a letter, a digit or one of
/// fifteen signs.
pub open spec fn may_stand(c: char) -> bool {
    ||| 'a' <= c <= 'z' || 'A' <= c <= 'Z' || '0' <= c <= '9'
    ||| c == '!' || c == '#' || c == '$' || c == '%' || c == '&' || c == '\''
    ||| c == '*' || c == '+' || c == '-' || c == '.' || c == '^' || c == '_'
    ||| c == '`' || c == '|' || c == '~'
}

proof fn lemma_char(c: char)
    ensures
        is_token_code(upper(c) as nat) <==> may_stand(c),
        'a' <= c <= 'z' ==> upper(c) as int == c as int - 32,
        !('a' <= c <= 'z') ==> upper(c) == c,
{
}

/// A text writes a method exactly where something is left of it after trimming
/// and every character of that may stand in a method.
pub proof fn law_methods_accepted(raw: Seq<char>)
    ensures
        method_of(raw) is Ok <==> trimmed(raw).len() > 0 && (forall|i: int|
            0 <= i < trimmed(raw).len() ==> may_stand(#[trigger] trimmed(raw)[i])),
{
    let t = trimmed(raw);
    let m = uppercased(t);
    if method_of(raw) is Ok {
        assert forall|i: int| 0 <= i < t.len() implies may_stand(#[trigger] t[i]) by {
            assert(is_token_code(m[i] as nat));
            lemma_char(t[i]);
        }
    }
    if t.len() > 0 && (forall|i: int| 0 <= i < t.len() ==> may_stand(#[trigger] t[i])) {
        assert forall|i: int| 0 <= i < m.len() implies is_token_code(#[trigger] m[i] as nat) by {
            lemma_char(t[i]);
        }
    }
}

/// A method is its text after trimming, with every letter from `a` to `z` in
/// upper case and every other character as it is.
pub proof fn law_methods_uppercased(raw: Seq<char>)
    requires
        method_of(raw) is Ok,
    ensures
        ({
            let t = trimmed(raw);
            let m = method_of(raw)->Ok_0;
            &&& m.len() == t.len()
            &&& forall|i: int|
                0 <= i < t.len() ==> #[trigger] m[i] as int == if 'a' <= t[i] <= 'z' {
                    t[i] as int - 32
                } else {
                    t[i] as int
                }
        }),
{
    let t = trimmed(raw);
    let m = uppercased(t);
    assert forall|i: int| 0 <= i < t.len() implies #[trigger] m[i] as int == if 'a' <= t[i] <= 'z' {
        t[i] as int - 32
    } else {
        t[i] as int
    } by {
        lemma_char(t[i]);
    }
}

/// A text that writes no method is reported as it was written.
pub proof fn law_methods_refused(raw: Seq<char>)
    requires
        method_of(raw) is Err,
    ensures
        method_of(raw)->Err_0 == "invalid HTTP method "@ + quoted(raw),
{
}

} // verus!
