//! What trimming and decimal texts come to, character by character.
use vstd::prelude::*;

use crate::text::{decimal, is_white_space, trimmed, trimmed_end, trimmed_start};

verus! {

/// White space is the tab, the line feed, the vertical tab, the form feed, the
/// carriage return, the space and the separators of Unicode, and nothing else.
pub proof fn law_white_space(c: char)
    ensures
        is_white_space(c) <==> {
            ||| c == '\u{9}' || c == '\u{a}' || c == '\u{b}' || c == '\u{c}' || c == '\u{d}'
            ||| c == ' ' || c == '\u{85}' || c == '\u{a0}' || c == '\u{1680}'
            ||| c == '\u{2000}' || c == '\u{2001}' || c == '\u{2002}' || c == '\u{2003}'
            ||| c == '\u{2004}' || c == '\u{2005}' || c == '\u{2006}' || c == '\u{2007}'
            ||| c == '\u{2008}' || c == '\u{2009}' || c == '\u{200a}'
            ||| c == '\u{2028}' || c == '\u{2029}' || c == '\u{202f}' || c == '\u{205f}'
            ||| c == '\u{3000}'
        },
{
}

proof fn lemma_start(s: Seq<char>) -> (from: int)
    ensures
        0 <= from <= s.len(),
        trimmed_start(s) == s.skip(from),
        forall|i: int| 0 <= i < from ==> is_white_space(#[trigger] s[i]),
        from < s.len() ==> !is_white_space(s[from]),
    decreases s.len(),
{
    if s.len() > 0 && is_white_space(s.first()) {
        let t = s.drop_first();
        let rest = lemma_start(t);
        let from = rest + 1;
        assert(t.skip(rest) =~= s.skip(from));
        assert forall|i: int| 0 <= i < from implies is_white_space(#[trigger] s[i]) by {
            if i > 0 {
                assert(s[i] == t[i - 1]);
            }
        }
        from
    } else {
        assert(s.skip(0) =~= s);
        0
    }
}

proof fn lemma_end(s: Seq<char>) -> (to: int)
    ensures
        0 <= to <= s.len(),
        trimmed_end(s) == s.take(to),
        forall|i: int| to <= i < s.len() ==> is_white_space(#[trigger] s[i]),
        to > 0 ==> !is_white_space(s[to - 1]),
    decreases s.len(),
{
    if s.len() > 0 && is_white_space(s.last()) {
        let t = s.drop_last();
        let to = lemma_end(t);
        assert(t.take(to) =~= s.take(to));
        assert forall|i: int| to <= i < s.len() implies is_white_space(#[trigger] s[i]) by {
            if i < s.len() - 1 {
                assert(s[i] == t[i]);
            }
        }
        to
    } else {
        assert(s.take(s.len() as int) =~= s);
        s.len() as int
    }
}

/// What is left of a text stands in it without a break, white space alone is
/// gone before and behind it, and it neither begins nor ends with white space.
pub proof fn law_trimmed(s: Seq<char>)
    ensures
        exists|from: int, to: int|
            #![trigger s.subrange(from, to)]
            0 <= from <= to <= s.len() && trimmed(s) == s.subrange(from, to) && (forall|i: int|
                0 <= i < s.len() && !(from <= i < to) ==> is_white_space(#[trigger] s[i])),
        trimmed(s).len() > 0 ==> !is_white_space(trimmed(s)[0]) && !is_white_space(
            trimmed(s)[trimmed(s).len() - 1],
        ),
{
    let from = lemma_start(s);
    let t = trimmed_start(s);
    let len = lemma_end(t);
    let to = from + len;
    assert(t.take(len) =~= s.subrange(from, to));
    assert forall|i: int| 0 <= i < s.len() && !(from <= i < to) implies is_white_space(
        #[trigger] s[i],
    ) by {
        if i >= to {
            assert(s[i] == t[i - from]);
        }
    }
    if trimmed(s).len() > 0 {
        assert(trimmed(s)[0] == s[from]);
        assert(trimmed(s)[trimmed(s).len() - 1] == t[len - 1]);
    }
}

/// A text of white space alone leaves nothing, and only such a text does.
pub proof fn law_blank(s: Seq<char>)
    ensures
        trimmed(s).len() == 0 <==> (forall|i: int|
            0 <= i < s.len() ==> is_white_space(#[trigger] s[i])),
{
    let from = lemma_start(s);
    let t = trimmed_start(s);
    let len = lemma_end(t);
    if trimmed(s).len() == 0 {
        assert forall|i: int| 0 <= i < s.len() implies is_white_space(#[trigger] s[i]) by {
            if i >= from {
                assert(s[i] == t[i - from]);
            }
        }
    } else {
        assert(trimmed(s)[0] == s[from]);
    }
}

/// The value of a text of decimal digits.
pub open spec fn decimal_value(s: Seq<char>) -> int
    decreases s.len(),
{
    if s.len() == 0 {
        0
    } else {
        decimal_value(s.drop_last()) * 10 + (s[s.len() - 1] as int - '0' as int)
    }
}

/// A number in base ten is made of the digits 0 to 9, has their value, and has
/// no zero before its first digit that counts.
pub proof fn law_decimal(n: nat)
    ensures
        decimal_value(decimal(n)) == n,
        decimal(n).len() > 0,
        forall|i: int| 0 <= i < decimal(n).len() ==> '0' <= #[trigger] decimal(n)[i] <= '9',
        decimal(n)[0] == '0' ==> n == 0 && decimal(n).len() == 1,
    decreases n,
{
    let s = decimal(n);
    assert(decimal_value(seq![]) == 0);
    if n < 10 {
        assert(s.drop_last() =~= seq![]);
    } else {
        law_decimal(n / 10);
        let t = decimal(n / 10);
        assert(s.drop_last() =~= t);
        assert(s[0] == t[0]);
        assert forall|i: int| 0 <= i < s.len() implies '0' <= #[trigger] s[i] <= '9' by {
            if i < s.len() - 1 {
                assert(s[i] == t[i]);
            }
        }
    }
}

} // verus!
