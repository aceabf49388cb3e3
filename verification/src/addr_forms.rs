//! Which texts are addresses: each form in which one can be written, and no
//! other.
use vstd::prelude::*;

use crate::addr::{
    all_groups, before, before_gap, bounded_number, digit_value, group, group_values, ip_addr,
    ipv4, ipv6, ipv6_groups, is_number, join_groups, number, octet, pieces, scoped_ipv6, side,
    socket_addr, socket_v4, socket_v6, IpAddr, SocketAddr,
};
use crate::addr_laws::{
    free_of, gapless, ipv4_text, lemma_before, lemma_before_bound, lemma_bracket_not_v4,
    lemma_decimal, lemma_digits_free, lemma_gap, lemma_ipv4, lemma_octet, lemma_pieces,
    lemma_quad_no_group,
};
use crate::text::{decimal, digit_char};

verus! {

// ---------------------------------------------------------------------------
// Pieces.
// ---------------------------------------------------------------------------

/// Pieces with a separator between them.
pub open spec fn joined(p: Seq<Seq<char>>, sep: char) -> Seq<char>
    decreases p.len(),
{
    if p.len() == 0 {
        seq![]
    } else if p.len() == 1 {
        p[0]
    } else {
        p[0] + seq![sep] + joined(p.drop_first(), sep)
    }
}

/// What stands before the first separator is free of it, and there the separator
/// stands.
proof fn lemma_before_free(s: Seq<char>, c: char)
    ensures
        before(s, c) <= s.len(),
        free_of(s.take(before(s, c) as int), c),
        before(s, c) < s.len() ==> s[before(s, c) as int] == c,
    decreases s.len(),
{
    lemma_before_bound(s, c);
    if s.len() > 0 && s.first() != c {
        let t = s.drop_first();
        lemma_before_free(t, c);
        let k = before(s, c) as int;
        assert forall|i: int| 0 <= i < k implies #[trigger] s.take(k)[i] != c by {
            if i > 0 {
                assert(s.take(k)[i] == t.take(k - 1)[i - 1]);
            }
        }
        if k < s.len() {
            assert(s[k] == t[k - 1]);
        }
    }
}

/// A text is its pieces with the separator between them, and no piece holds the
/// separator.
pub proof fn law_pieces_join(s: Seq<char>, sep: char)
    ensures
        pieces(s, sep).len() > 0,
        joined(pieces(s, sep), sep) == s,
        forall|i: int| 0 <= i < pieces(s, sep).len() ==> free_of(#[trigger] pieces(s, sep)[i], sep),
    decreases s.len(),
{
    let k = before(s, sep) as int;
    lemma_before_free(s, sep);
    if k < s.len() {
        let a = s.take(k);
        let rest = s.skip(k + 1);
        law_pieces_join(rest, sep);
        let p = pieces(s, sep);
        let q = pieces(rest, sep);
        assert(p == seq![a] + q);
        assert(p.drop_first() =~= q);
        assert(a + seq![sep] + rest =~= s);
        assert forall|i: int| 0 <= i < p.len() implies free_of(#[trigger] p[i], sep) by {
            if i > 0 {
                assert(p[i] == q[i - 1]);
            }
        }
    } else {
        assert(s.take(k) =~= s);
    }
}

/// Texts that are free of a separator are the pieces of what they join to.
pub proof fn law_joined_pieces(p: Seq<Seq<char>>, sep: char)
    requires
        p.len() > 0,
        forall|i: int| 0 <= i < p.len() ==> free_of(#[trigger] p[i], sep),
    ensures
        pieces(joined(p, sep), sep) == p,
    decreases p.len(),
{
    if p.len() == 1 {
        lemma_pieces(p[0], sep, seq![]);
        assert(p =~= seq![p[0]]);
    } else {
        let q = p.drop_first();
        assert forall|i: int| 0 <= i < q.len() implies free_of(#[trigger] q[i], sep) by {
            assert(q[i] == p[i + 1]);
        }
        law_joined_pieces(q, sep);
        lemma_pieces(p[0], sep, joined(q, sep));
        assert(p =~= seq![p[0]] + q);
    }
}

// ---------------------------------------------------------------------------
// Digits and numbers.
// ---------------------------------------------------------------------------

/// The value of a digit: 0 to 9, and a to f in either case; nothing else has
/// one below 16.
pub proof fn law_digits(c: char)
    ensures
        '0' <= c <= '9' ==> digit_value(c) == c as int - '0' as int,
        'a' <= c <= 'f' ==> digit_value(c) == c as int - 'a' as int + 10,
        'A' <= c <= 'F' ==> digit_value(c) == c as int - 'A' as int + 10,
        digit_value(c) < 16 <==> ('0' <= c <= '9' || 'a' <= c <= 'f' || 'A' <= c <= 'F'),
        digit_value(c) < 10 <==> '0' <= c <= '9',
{
}

proof fn lemma_digit_of(c: char)
    requires
        digit_value(c) < 10,
    ensures
        c == digit_char(digit_value(c)),
{
}

/// A decimal number without a leading zero is written in one way only.
proof fn lemma_decimal_unique(s: Seq<char>)
    requires
        is_number(s, 10),
        s.len() > 1 ==> s[0] != '0',
    ensures
        s == decimal(number(s, 10)),
        s[0] != '0' ==> number(s, 10) > 0,
    decreases s.len(),
{
    let t = s.drop_last();
    let c = s.last();
    assert(digit_value(s[s.len() - 1]) < 10);
    lemma_digit_of(c);
    assert(s =~= t.push(c));
    assert(number(seq![], 10) == 0);
    if t.len() == 0 {
        assert(t =~= seq![]);
        assert(s =~= seq![c]);
        law_digits(c);
    } else {
        assert(t[0] == s[0]);
        assert forall|i: int| 0 <= i < t.len() implies digit_value(#[trigger] t[i]) < 10 by {
            assert(t[i] == s[i]);
        }
        lemma_decimal_unique(t);
        let n = number(s, 10);
        assert(n == number(t, 10) * 10 + digit_value(c));
        assert(n / 10 == number(t, 10));
        assert(n % 10 == digit_value(c));
    }
}

/// Some zeros.
pub open spec fn zeros(k: nat) -> Seq<char> {
    Seq::new(k, |i: int| '0')
}

proof fn lemma_zero_first(s: Seq<char>)
    ensures
        number(seq!['0'] + s, 10) == number(s, 10),
    decreases s.len(),
{
    let z = seq!['0'] + s;
    assert(number(seq![], 10) == 0);
    if s.len() == 0 {
        assert(s =~= seq![]);
        assert(z.drop_last() =~= seq![]);
        assert(digit_value('0') == 0);
    } else {
        lemma_zero_first(s.drop_last());
        assert(z.drop_last() =~= seq!['0'] + s.drop_last());
    }
}

/// Decimal digits are zeros before the shortest text of their number.
proof fn lemma_strip_zeros(s: Seq<char>) -> (k: nat)
    requires
        is_number(s, 10),
    ensures
        s == zeros(k) + decimal(number(s, 10)),
    decreases s.len(),
{
    if s.len() > 1 && s[0] == '0' {
        let t = s.drop_first();
        assert forall|i: int| 0 <= i < t.len() implies digit_value(#[trigger] t[i]) < 10 by {
            assert(t[i] == s[i + 1]);
        }
        let k = lemma_strip_zeros(t);
        lemma_zero_first(t);
        assert(s =~= seq!['0'] + t);
        assert(s =~= zeros(k + 1) + decimal(number(s, 10)));
        k + 1
    } else {
        lemma_decimal_unique(s);
        assert(s =~= zeros(0) + decimal(number(s, 10)));
        0
    }
}

proof fn lemma_add_zeros(k: nat, n: nat)
    ensures
        is_number(zeros(k) + decimal(n), 10),
        number(zeros(k) + decimal(n), 10) == n,
    decreases k,
{
    let s = zeros(k) + decimal(n);
    lemma_decimal(n);
    assert(digit_value('0') == 0);
    if k == 0 {
        assert(s =~= decimal(n));
    } else {
        let fewer = (k - 1) as nat;
        lemma_add_zeros(fewer, n);
        let t = zeros(fewer) + decimal(n);
        lemma_zero_first(t);
        assert(s =~= seq!['0'] + t);
        assert forall|i: int| 0 <= i < s.len() implies digit_value(#[trigger] s[i]) < 10 by {
            if i > 0 {
                assert(s[i] == t[i - 1]);
            }
        }
    }
}

/// A bounded number is written by any zeros and its shortest text, and by
/// nothing else.
pub proof fn law_numbers(s: Seq<char>, max: nat, n: nat)
    ensures
        bounded_number(s, 10, max) == Some(n) <==> n <= max && exists|k: nat|
            s == #[trigger] zeros(k) + decimal(n),
{
    if bounded_number(s, 10, max) == Some(n) {
        let k = lemma_strip_zeros(s);
        assert(s == zeros(k) + decimal(n));
    }
    if exists|k: nat| s == #[trigger] zeros(k) + decimal(n) {
        let k = choose|k: nat| s == #[trigger] zeros(k) + decimal(n);
        lemma_add_zeros(k, n);
    }
}

// ---------------------------------------------------------------------------
// IPv4.
// ---------------------------------------------------------------------------

/// An octet is written in one way only: the shortest.
pub proof fn law_octets(s: Seq<char>, n: nat)
    ensures
        octet(s) == Some(n) <==> n < 0x100 && s == decimal(n),
{
    if octet(s) == Some(n) {
        lemma_decimal_unique(s);
    }
    if n < 0x100 && s == decimal(n) {
        lemma_octet(n);
    }
}

proof fn lemma_quad_parts(a: nat, b: nat, c: nat, d: nat, bits: u32)
    requires
        a < 0x100,
        b < 0x100,
        c < 0x100,
        d < 0x100,
        bits == a * 0x100_0000 + b * 0x1_0000 + c * 0x100 + d,
    ensures
        bits / 0x100_0000 == a,
        bits / 0x1_0000 % 0x100 == b,
        bits / 0x100 % 0x100 == c,
        bits % 0x100 == d,
{
    assert(bits / 0x1_0000 == a * 0x100 + b);
    assert(bits / 0x100 == (a * 0x100 + b) * 0x100 + c);
}

/// An IPv4 address is written in one way only: as its dotted quad.
pub proof fn law_ipv4_exact(s: Seq<char>, bits: u32)
    ensures
        ipv4(s) == Some(bits) <==> s == ipv4_text(bits),
{
    if ipv4(s) == Some(bits) {
        let p = pieces(s, '.');
        let a = octet(p[0])->0;
        let b = octet(p[1])->0;
        let c = octet(p[2])->0;
        let d = octet(p[3])->0;
        law_octets(p[0], a);
        law_octets(p[1], b);
        law_octets(p[2], c);
        law_octets(p[3], d);
        lemma_quad_parts(a, b, c, d, bits);
        law_pieces_join(s, '.');
        reveal(ipv4_text);
        reveal_with_fuel(joined, 5);
        let q = p.drop_first();
        let r = q.drop_first();
        let t = r.drop_first();
        assert(q[0] == p[1] && r[0] == p[2] && t[0] == p[3]);
        assert(s =~= ipv4_text(bits));
    }
    if s == ipv4_text(bits) {
        lemma_ipv4(bits);
    }
}

proof fn lemma_bytes_joined(a: u8, b: u8, c: u8, d: u8)
    ensures
        a * 0x100_0000 + b * 0x1_0000 + c * 0x100 + d <= u32::MAX,
        ({
            let bits = (a * 0x100_0000 + b * 0x1_0000 + c * 0x100 + d) as u32;
            &&& bits / 0x100_0000 == a
            &&& bits / 0x1_0000 % 0x100 == b
            &&& bits / 0x100 % 0x100 == c
            &&& bits % 0x100 == d
        }),
{
    let bits = (a * 0x100_0000 + b * 0x1_0000 + c * 0x100 + d) as u32;
    assert(bits / 0x100_0000 == a);
    assert(bits / 0x1_0000 == a * 0x100 + b);
    assert(bits / 0x100 == a * 0x1_0000 + b * 0x100 + c);
    assert((a * 0x100 + b) % 0x100 == b);
    assert((a * 0x1_0000 + b * 0x100 + c) % 0x100 == c);
}

proof fn lemma_quad_joined(a: Seq<char>, b: Seq<char>, c: Seq<char>, d: Seq<char>)
    ensures
        a + seq!['.'] + b + seq!['.'] + c + seq!['.'] + d == a + seq!['.'] + (b + seq!['.'] + (c
            + seq!['.'] + d)),
{
    assert(a + seq!['.'] + b + seq!['.'] + c + seq!['.'] + d =~= a + seq!['.'] + (b + seq!['.'] + (c
        + seq!['.'] + d)));
}

/// Four numbers below 256 with dots between them are the address whose bytes
/// they are, highest first.
pub proof fn law_dotted_quad(a: u8, b: u8, c: u8, d: u8)
    ensures
        ipv4(
            decimal(a as nat) + seq!['.'] + decimal(b as nat) + seq!['.'] + decimal(c as nat)
                + seq!['.'] + decimal(d as nat),
        ) == Some((a * 0x100_0000 + b * 0x1_0000 + c * 0x100 + d) as u32),
{
    let bits = (a * 0x100_0000 + b * 0x1_0000 + c * 0x100 + d) as u32;
    lemma_bytes_joined(a, b, c, d);
    lemma_quad_joined(decimal(a as nat), decimal(b as nat), decimal(c as nat), decimal(d as nat));
    assert(ipv4_text(bits) == decimal(a as nat) + seq!['.'] + (decimal(b as nat) + seq!['.'] + (
    decimal(c as nat) + seq!['.'] + decimal(d as nat)))) by {
        reveal(ipv4_text);
    }
    law_ipv4_exact(ipv4_text(bits), bits);
}

// ---------------------------------------------------------------------------
// IPv6.
// ---------------------------------------------------------------------------

/// A group is one to four hexadecimal digits in either case, and has their
/// value.
pub proof fn law_groups(s: Seq<char>)
    ensures
        group(s) is Some <==> 1 <= s.len() <= 4 && (forall|i: int|
            0 <= i < s.len() ==> ('0' <= #[trigger] s[i] <= '9' || 'a' <= s[i] <= 'f' || 'A' <= s[i]
                <= 'F')),
        group(s) is Some && s.len() == 1 ==> group(s)->0 == digit_value(s[0]),
        group(s) is Some && s.len() == 2 ==> group(s)->0 == digit_value(s[0]) * 16 + digit_value(
            s[1],
        ),
        group(s) is Some && s.len() == 3 ==> group(s)->0 == digit_value(s[0]) * 256 + digit_value(
            s[1],
        ) * 16 + digit_value(s[2]),
        group(s) is Some && s.len() == 4 ==> group(s)->0 == digit_value(s[0]) * 4096 + digit_value(
            s[1],
        ) * 256 + digit_value(s[2]) * 16 + digit_value(s[3]),
{
    if group(s) is Some {
        assert forall|i: int| 0 <= i < s.len() implies ('0' <= #[trigger] s[i] <= '9' || 'a' <= s[i]
            <= 'f' || 'A' <= s[i] <= 'F') by {
            law_digits(s[i]);
            assert(digit_value(s[i]) < 16);
        }
        lemma_four_digits(s);
    }
    if 1 <= s.len() <= 4 && (forall|i: int|
        0 <= i < s.len() ==> ('0' <= #[trigger] s[i] <= '9' || 'a' <= s[i] <= 'f' || 'A' <= s[i]
            <= 'F')) {
        assert forall|i: int| 0 <= i < s.len() implies digit_value(#[trigger] s[i]) < 16 by {
            law_digits(s[i]);
        }
    }
}

proof fn lemma_four_digits(s: Seq<char>)
    requires
        1 <= s.len() <= 4,
        is_number(s, 16),
    ensures
        s.len() == 1 ==> number(s, 16) == digit_value(s[0]),
        s.len() == 2 ==> number(s, 16) == digit_value(s[0]) * 16 + digit_value(s[1]),
        s.len() == 3 ==> number(s, 16) == digit_value(s[0]) * 256 + digit_value(s[1]) * 16
            + digit_value(s[2]),
        s.len() == 4 ==> number(s, 16) == digit_value(s[0]) * 4096 + digit_value(s[1]) * 256
            + digit_value(s[2]) * 16 + digit_value(s[3]),
        number(s, 16) <= 0xffff,
{
    reveal_with_fuel(number, 5);
    let t = s.drop_last();
    let u = t.drop_last();
    let v = u.drop_last();
    assert(digit_value(s[0]) < 16);
    if s.len() > 1 {
        assert(t[0] == s[0]);
        assert(digit_value(s[1]) < 16);
    }
    if s.len() > 2 {
        assert(t[1] == s[1] && u[0] == s[0]);
        assert(digit_value(s[2]) < 16);
    }
    if s.len() > 3 {
        assert(t[2] == s[2] && u[1] == s[1] && v[0] == s[0]);
        assert(digit_value(s[3]) < 16);
    }
}

/// Whether texts are groups with these values.
pub open spec fn are_groups(p: Seq<Seq<char>>, g: Seq<u16>) -> bool {
    &&& p.len() == g.len()
    &&& forall|i: int| 0 <= i < p.len() ==> group(#[trigger] p[i]) == Some(g[i])
}

/// Whether a text is groups with these values and colons between them.
pub open spec fn writes_groups(s: Seq<char>, g: Seq<u16>) -> bool {
    exists|p: Seq<Seq<char>>| #[trigger] are_groups(p, g) && joined(p, ':') == s
}

/// Whether a text is groups with colons between them, the last two of these
/// values as a dotted quad.
pub open spec fn writes_dotted(s: Seq<char>, g: Seq<u16>) -> bool {
    &&& g.len() >= 2
    &&& exists|p: Seq<Seq<char>>, quad: u32|
        #![trigger are_groups(p, g.take(g.len() - 2)), ipv4_text(quad)]
        are_groups(p, g.take(g.len() - 2)) && joined(p.push(ipv4_text(quad)), ':') == s && g[g.len()
            - 2] == quad / 0x1_0000 && g[g.len() - 1] == quad % 0x1_0000
}

/// A group is free of colons and dots.
proof fn lemma_group_free(s: Seq<char>)
    requires
        group(s) is Some,
    ensures
        s.len() > 0,
        free_of(s, ':'),
        free_of(s, '.'),
{
    lemma_digits_free(s, 16, ':');
    lemma_digits_free(s, 16, '.');
}

proof fn lemma_quad_free(quad: u32)
    ensures
        free_of(ipv4_text(quad), ':'),
        ipv4_text(quad).len() > 0,
{
    lemma_ipv4(quad);
}

/// One side of an address without a dotted quad: nothing, or groups.
pub proof fn law_side_groups(s: Seq<char>, g: Seq<u16>)
    ensures
        side(s, false) == Some(g) <==> writes_groups(s, g),
{
    if side(s, false) == Some(g) {
        if s.len() == 0 {
            let p: Seq<Seq<char>> = seq![];
            assert(are_groups(p, g) && joined(p, ':') =~= s);
        } else {
            let p = pieces(s, ':');
            law_pieces_join(s, ':');
            assert(are_groups(p, g));
        }
    }
    if writes_groups(s, g) {
        let p = choose|p: Seq<Seq<char>>| #[trigger] are_groups(p, g) && joined(p, ':') == s;
        if p.len() == 0 {
            assert(g =~= seq![]);
        } else {
            lemma_joined_groups(p, g);
            assert(group_values(p) =~= g);
        }
    }
}

/// Groups are the pieces of what they join to, which is not empty, has no gap
/// and ends in no colon.
proof fn lemma_joined_groups(p: Seq<Seq<char>>, g: Seq<u16>)
    requires
        are_groups(p, g),
        p.len() > 0,
    ensures
        pieces(joined(p, ':'), ':') == p,
        all_groups(p),
        joined(p, ':').len() > 0,
        gapless(joined(p, ':')),
        joined(p, ':').last() != ':',
{
    assert forall|i: int| 0 <= i < p.len() implies free_of(#[trigger] p[i], ':') && p[i].len()
        > 0 by {
        assert(group(p[i]) == Some(g[i]));
        lemma_group_free(p[i]);
    }
    law_joined_pieces(p, ':');
    lemma_joined_gapless(p);
}

/// Texts that are not empty and free of colons join to a text that begins and
/// ends in no colon and has no gap.
proof fn lemma_joined_gapless(p: Seq<Seq<char>>)
    requires
        p.len() > 0,
        forall|i: int| 0 <= i < p.len() ==> free_of(#[trigger] p[i], ':') && p[i].len() > 0,
    ensures
        joined(p, ':').len() > 0,
        joined(p, ':')[0] != ':',
        joined(p, ':').last() != ':',
        gapless(joined(p, ':')),
    decreases p.len(),
{
    let s = joined(p, ':');
    let a = p[0];
    assert(free_of(a, ':') && a.len() > 0);
    assert(a[0] != ':' && a[a.len() - 1] != ':');
    if p.len() > 1 {
        let q = p.drop_first();
        assert forall|i: int| 0 <= i < q.len() implies free_of(#[trigger] q[i], ':') && q[i].len()
            > 0 by {
            assert(q[i] == p[i + 1]);
        }
        lemma_joined_gapless(q);
        let rest = joined(q, ':');
        let k = a.len() as int;
        assert(s.last() == rest.last());
        assert forall|i: int| 0 <= i < s.len() - 1 implies !(#[trigger] s[i] == ':' && s[i + 1]
            == ':') by {
            if i < k {
                assert(s[i] == a[i]);
            } else if i == k {
                assert(s[i + 1] == rest[0]);
            } else {
                assert(s[i] == rest[i - k - 1] && s[i + 1] == rest[i - k]);
            }
        }
    }
}

/// Groups and a dotted quad are the pieces of what they join to.
proof fn lemma_joined_dotted(p: Seq<Seq<char>>, h: Seq<u16>, quad: u32)
    requires
        are_groups(p, h),
    ensures
        pieces(joined(p.push(ipv4_text(quad)), ':'), ':') == p.push(ipv4_text(quad)),
        joined(p.push(ipv4_text(quad)), ':').len() > 0,
        gapless(joined(p.push(ipv4_text(quad)), ':')),
        joined(p.push(ipv4_text(quad)), ':').last() != ':',
{
    let q = p.push(ipv4_text(quad));
    assert forall|i: int| 0 <= i < q.len() implies free_of(#[trigger] q[i], ':') && q[i].len()
        > 0 by {
        if i < p.len() {
            assert(group(p[i]) == Some(h[i]));
            lemma_group_free(p[i]);
        } else {
            lemma_quad_free(quad);
        }
    }
    law_joined_pieces(q, ':');
    lemma_joined_gapless(q);
}

/// The last side of an address: nothing, groups, or groups and a dotted quad in
/// the place of the last two.
pub proof fn law_side_dotted(s: Seq<char>, g: Seq<u16>)
    ensures
        side(s, true) == Some(g) <==> writes_groups(s, g) || writes_dotted(s, g),
{
    let p = pieces(s, ':');
    law_side_groups(s, g);
    if side(s, true) == Some(g) && s.len() > 0 && !all_groups(p) {
        law_pieces_join(s, ':');
        let h = p.drop_last();
        let quad = ipv4(p.last())->0;
        law_ipv4_exact(p.last(), quad);
        let front = g.take(g.len() - 2);
        assert(front =~= group_values(h));
        assert(are_groups(h, front));
        assert(h.push(ipv4_text(quad)) =~= p);
        assert(writes_dotted(s, g));
    }
    if writes_dotted(s, g) {
        let front = g.take(g.len() - 2);
        let (h, quad) = choose|h: Seq<Seq<char>>, quad: u32|
            #![trigger are_groups(h, front), ipv4_text(quad)]
            are_groups(h, front) && joined(h.push(ipv4_text(quad)), ':') == s && g[g.len() - 2]
                == quad / 0x1_0000 && g[g.len() - 1] == quad % 0x1_0000;
        lemma_joined_dotted(h, front, quad);
        lemma_quad_no_group(quad);
        lemma_ipv4(quad);
        assert(p == h.push(ipv4_text(quad)));
        assert(p.last() == ipv4_text(quad));
        assert(!all_groups(p)) by {
            assert(group(p[p.len() - 1]) is None);
        }
        assert(p.drop_last() =~= h);
        assert(all_groups(h));
        assert(group_values(h) =~= front);
        assert(front + seq![(quad / 0x1_0000) as u16, (quad % 0x1_0000) as u16] =~= g);
    }
}

/// A gap is where it is found, and nothing before it holds one.
proof fn lemma_gap_found(s: Seq<char>)
    ensures
        before_gap(s) <= s.len(),
        before_gap(s) < s.len() ==> before_gap(s) + 2 <= s.len() && s[before_gap(s) as int] == ':'
            && s[before_gap(s) as int + 1] == ':',
    decreases s.len(),
{
    if s.len() > 0 && !(s.len() >= 2 && s[0] == ':' && s[1] == ':') {
        let t = s.drop_first();
        lemma_gap_found(t);
        let k = before_gap(s) as int;
        if k < s.len() {
            assert(s[k] == t[k - 1] && s[k + 1] == t[k]);
        }
    }
}

/// Zeros in the place of a gap.
pub open spec fn filled(head: Seq<u16>, tail: Seq<u16>) -> Seq<u16> {
    head + Seq::new((8 - head.len() - tail.len()) as nat, |i: int| 0u16) + tail
}

/// Whether a text is groups before a gap and groups behind it, seven at most,
/// and these are the groups with zeros where the gap is.
pub open spec fn writes_gapped(s: Seq<char>, g: Seq<u16>) -> bool {
    exists|a: Seq<char>, b: Seq<char>, head: Seq<u16>, tail: Seq<u16>|
        #[trigger] gapped_as(s, a, b, head, tail) && g == filled(head, tail)
}

pub open spec fn gapped_as(
    s: Seq<char>,
    a: Seq<char>,
    b: Seq<char>,
    head: Seq<u16>,
    tail: Seq<u16>,
) -> bool {
    &&& s == a + seq![':', ':'] + b
    &&& writes_groups(a, head)
    &&& writes_groups(b, tail) || writes_dotted(b, tail)
    &&& head.len() + tail.len() <= 7
}

/// The eight groups of an address are all written, or those before and those
/// behind one gap that stands for zeros, one at least. Where the last two stand
/// they may be a dotted quad. No other text has eight groups.
pub proof fn law_ipv6_exact(s: Seq<char>, g: Seq<u16>)
    ensures
        ipv6_groups(s) == Some(g) <==> (g.len() == 8 && (writes_groups(s, g) || writes_dotted(
            s,
            g,
        ))) || writes_gapped(s, g),
{
    if ipv6_groups(s) == Some(g) {
        lemma_ipv6_written(s, g);
    }
    if g.len() == 8 && (writes_groups(s, g) || writes_dotted(s, g)) {
        law_side_dotted(s, g);
        lemma_written_gapless(s, g);
        lemma_gap(s, seq![]);
    }
    if writes_gapped(s, g) {
        lemma_gapped_read(s, g);
    }
}

proof fn lemma_ipv6_written(s: Seq<char>, g: Seq<u16>)
    requires
        ipv6_groups(s) == Some(g),
    ensures
        (g.len() == 8 && (writes_groups(s, g) || writes_dotted(s, g))) || writes_gapped(s, g),
{
    let k = before_gap(s) as int;
    lemma_gap_found(s);
    if k == s.len() {
        law_side_dotted(s, g);
    } else {
        let a = s.take(k);
        let b = s.skip(k + 2);
        let head = side(a, false)->0;
        let tail = side(b, true)->0;
        law_side_groups(a, head);
        law_side_dotted(b, tail);
        assert(s =~= a + seq![':', ':'] + b);
        assert(g =~= filled(head, tail));
        assert(gapped_as(s, a, b, head, tail));
    }
}

proof fn lemma_gapped_read(s: Seq<char>, g: Seq<u16>)
    requires
        writes_gapped(s, g),
    ensures
        ipv6_groups(s) == Some(g),
{
    let (a, b, head, tail) = choose|a: Seq<char>, b: Seq<char>, head: Seq<u16>, tail: Seq<u16>|
        #[trigger] gapped_as(s, a, b, head, tail) && g == filled(head, tail);
    law_side_groups(a, head);
    law_side_dotted(b, tail);
    lemma_written_gapless(a, head);
    lemma_gap(a, b);
    assert(s.take(a.len() as int) =~= a);
    assert(s.skip(a.len() as int + 2) =~= b);
    assert(g =~= filled(head, tail));
}

/// A written side has no gap and ends in no colon.
proof fn lemma_written_gapless(s: Seq<char>, g: Seq<u16>)
    requires
        writes_groups(s, g) || writes_dotted(s, g),
    ensures
        gapless(s),
        s.len() > 0 ==> s.last() != ':',
{
    if writes_groups(s, g) {
        let p = choose|p: Seq<Seq<char>>| #[trigger] are_groups(p, g) && joined(p, ':') == s;
        if p.len() > 0 {
            lemma_joined_groups(p, g);
        }
    } else {
        let front = g.take(g.len() - 2);
        let (h, quad) = choose|h: Seq<Seq<char>>, quad: u32|
            #![trigger are_groups(h, front), ipv4_text(quad)]
            are_groups(h, front) && joined(h.push(ipv4_text(quad)), ':') == s && g[g.len() - 2]
                == quad / 0x1_0000 && g[g.len() - 1] == quad % 0x1_0000;
        lemma_joined_dotted(h, front, quad);
    }
}

/// An IPv6 address is the number of its eight groups, highest first.
pub proof fn law_ipv6_value(s: Seq<char>)
    ensures
        ipv6(s) is Some <==> ipv6_groups(s) is Some,
        ipv6_groups(s) matches Some(g) ==> g.len() == 8 && ipv6(s)->0 == g[0]
            * 0x1_0000_0000_0000_0000_0000_0000_0000 + g[1] * 0x1_0000_0000_0000_0000_0000_0000
            + g[2] * 0x1_0000_0000_0000_0000_0000 + g[3] * 0x1_0000_0000_0000_0000 + g[4]
            * 0x1_0000_0000_0000 + g[5] * 0x1_0000_0000 + g[6] * 0x1_0000 + g[7],
{
    if ipv6_groups(s) is Some {
        let g = ipv6_groups(s)->0;
        reveal_with_fuel(join_groups, 9);
        assert(g.len() == 8);
    }
}

// ---------------------------------------------------------------------------
// Addresses of either version, and ports.
// ---------------------------------------------------------------------------

proof fn lemma_joined_free(p: Seq<Seq<char>>, sep: char, c: char)
    requires
        sep != c,
        forall|i: int| 0 <= i < p.len() ==> free_of(#[trigger] p[i], c),
    ensures
        free_of(joined(p, sep), c),
    decreases p.len(),
{
    if p.len() > 0 {
        assert(free_of(p[0], c));
    }
    if p.len() > 1 {
        let q = p.drop_first();
        assert forall|i: int| 0 <= i < q.len() implies free_of(#[trigger] q[i], c) by {
            assert(q[i] == p[i + 1]);
        }
        lemma_joined_free(q, sep, c);
    }
}

/// A side holds no character but digits, colons and dots.
proof fn lemma_side_free(s: Seq<char>, dotted: bool, c: char)
    requires
        side(s, dotted) is Some,
        c == '%' || c == ']',
    ensures
        free_of(s, c),
{
    if s.len() > 0 {
        let p = pieces(s, ':');
        law_pieces_join(s, ':');
        assert forall|i: int| 0 <= i < p.len() implies free_of(#[trigger] p[i], c) by {
            if all_groups(p) {
                assert(group(p[i]) is Some);
                lemma_digits_free(p[i], 16, c);
            } else if i < p.len() - 1 {
                assert(p.drop_last()[i] == p[i]);
                assert(group(p.drop_last()[i]) is Some);
                lemma_digits_free(p[i], 16, c);
            } else {
                let quad = ipv4(p.last())->0;
                law_ipv4_exact(p.last(), quad);
                lemma_ipv4(quad);
            }
        }
        lemma_joined_free(p, ':', c);
    }
}

proof fn lemma_ipv6_free(s: Seq<char>, c: char)
    requires
        ipv6(s) is Some,
        c == '%' || c == ']',
    ensures
        free_of(s, c),
{
    let k = before_gap(s) as int;
    lemma_gap_found(s);
    if k == s.len() {
        lemma_side_free(s, true, c);
    } else {
        let a = s.take(k);
        let b = s.skip(k + 2);
        lemma_side_free(a, false, c);
        lemma_side_free(b, true, c);
        assert(s =~= a + seq![':', ':'] + b);
    }
}

/// A text is an address of the version in whose form it is written. None is
/// written in the form of both.
pub proof fn law_versions(s: Seq<char>, ip: IpAddr)
    ensures
        ip_addr(s) == Some(ip) <==> match ip {
            IpAddr::V4(bits) => s == ipv4_text(bits),
            IpAddr::V6(bits) => ipv6(s) == Some(bits),
        },
{
    if ip is V4 {
        law_ipv4_exact(s, ip->V4_0);
    }
    if ipv4(s) is Some {
        let quad = ipv4(s)->0;
        law_ipv4_exact(s, quad);
        lemma_quad_no_v6(quad);
    }
}

proof fn lemma_quad_no_v6(quad: u32)
    ensures
        ipv6(ipv4_text(quad)) is None,
{
    let s = ipv4_text(quad);
    lemma_quad_free(quad);
    lemma_gap_found(s);
    let k = before_gap(s) as int;
    if k < s.len() {
        assert(s[k] == ':');
    }
    lemma_before_free(s, ':');
    let p = pieces(s, ':');
    assert(p =~= seq![s]);
    lemma_quad_no_group(quad);
    if side(s, true) is Some {
        assert(p[0] == s);
        assert((side(s, true)->0).len() == 2);
    }
}

/// `HOST:PORT` of version 4: the address, a colon, and the port after any number
/// of zeros.
pub open spec fn writes_v4(s: Seq<char>, bits: u32, port: u16) -> bool {
    exists|k: nat| s == ipv4_text(bits) + seq![':'] + #[trigger] zeros(k) + decimal(port as nat)
}

/// `[HOST]:PORT` of version 6, with a scope where there is a `%`: the scope and
/// the port each after any number of zeros.
pub open spec fn writes_v6(s: Seq<char>, bits: u128, scope_id: u32, port: u16) -> bool {
    exists|host: Seq<char>, k: nat|
        #![trigger writes_scoped(host, bits, scope_id), zeros(k)]
        writes_scoped(host, bits, scope_id) && s == seq!['['] + host + seq![']', ':'] + zeros(k)
            + decimal(port as nat)
}

/// What stands between the brackets: the address alone, which has scope zero, or
/// with `%` and a scope behind it.
pub open spec fn writes_scoped(s: Seq<char>, bits: u128, scope_id: u32) -> bool {
    ||| ipv6(s) == Some(bits) && scope_id == 0
    ||| exists|host: Seq<char>, k: nat|
        #![trigger ipv6(host), zeros(k)]
        ipv6(host) == Some(bits) && s == host + seq!['%'] + zeros(k) + decimal(scope_id as nat)
}

/// A socket address is one of version 4 with its port, or one of version 6 in
/// brackets, with or without a scope, with its port. Nothing else is one.
pub proof fn law_sockets(s: Seq<char>, a: SocketAddr)
    ensures
        socket_addr(s) == Some(a) <==> match a.ip {
            IpAddr::V4(bits) => a.scope_id == 0 && writes_v4(s, bits, a.port),
            IpAddr::V6(bits) => writes_v6(s, bits, a.scope_id, a.port),
        },
{
    match a.ip {
        IpAddr::V4(bits) => {
            if socket_v4(s) == Some(a) {
                lemma_v4_written(s, bits, a.port);
            }
            if a.scope_id == 0 && writes_v4(s, bits, a.port) {
                lemma_v4_read(s, bits, a.port);
            }
        },
        IpAddr::V6(bits) => {
            if socket_v6(s) == Some(a) {
                lemma_v6_written(s, bits, a.scope_id, a.port);
            }
            if writes_v6(s, bits, a.scope_id, a.port) {
                lemma_v6_read(s, bits, a.scope_id, a.port);
                lemma_bracket_not_v4(s);
            }
        },
    }
}

proof fn lemma_v4_written(s: Seq<char>, bits: u32, port: u16)
    requires
        socket_v4(s) == Some(SocketAddr { ip: IpAddr::V4(bits), port, scope_id: 0 }),
    ensures
        writes_v4(s, bits, port),
{
    let n = before(s, ':') as int;
    lemma_before_free(s, ':');
    let tail = s.skip(n + 1);
    law_ipv4_exact(s.take(n), bits);
    law_numbers(tail, 0xffff, port as nat);
    let k = choose|k: nat| tail == #[trigger] zeros(k) + decimal(port as nat);
    lemma_cut_whole(s, n, ':', zeros(k), decimal(port as nat));
}

proof fn lemma_v4_read(s: Seq<char>, bits: u32, port: u16)
    requires
        writes_v4(s, bits, port),
    ensures
        socket_v4(s) == Some(SocketAddr { ip: IpAddr::V4(bits), port, scope_id: 0 }),
{
    let k = choose|k: nat|
        s == ipv4_text(bits) + seq![':'] + #[trigger] zeros(k) + decimal(port as nat);
    law_numbers(zeros(k) + decimal(port as nat), 0xffff, port as nat);
    lemma_quad_free(bits);
    law_ipv4_exact(ipv4_text(bits), bits);
    lemma_cut(ipv4_text(bits), ':', k, port as nat);
}

/// What stands before the first `c` and what stands behind it.
proof fn lemma_cut(host: Seq<char>, c: char, k: nat, n: nat)
    requires
        free_of(host, c),
    ensures
        ({
            let s = host + seq![c] + zeros(k) + decimal(n);
            &&& before(s, c) == host.len()
            &&& host.len() < s.len()
            &&& s.take(host.len() as int) == host
            &&& s.skip(host.len() as int + 1) == zeros(k) + decimal(n)
        }),
{
    let tail = zeros(k) + decimal(n);
    let s = host + seq![c] + zeros(k) + decimal(n);
    assert(s =~= host + seq![c] + tail);
    lemma_before(host, c, tail);
    assert(s.take(host.len() as int) =~= host);
    assert(s.skip(host.len() as int + 1) =~= tail);
}

/// A text is what stands before a character, the character, and what stands
/// behind it.
proof fn lemma_cut_whole(s: Seq<char>, n: int, c: char, z: Seq<char>, d: Seq<char>)
    requires
        0 <= n < s.len(),
        s[n] == c,
        s.skip(n + 1) == z + d,
    ensures
        s == s.take(n) + seq![c] + z + d,
{
    assert(s =~= s.take(n) + seq![c] + s.skip(n + 1));
    assert(s.take(n) + seq![c] + (z + d) =~= s.take(n) + seq![c] + z + d);
}

proof fn lemma_scoped_written(s: Seq<char>, bits: u128, scope_id: u32)
    requires
        scoped_ipv6(s) == Some((bits, scope_id)),
    ensures
        writes_scoped(s, bits, scope_id),
{
    let n = before(s, '%') as int;
    lemma_before_free(s, '%');
    if n < s.len() {
        let host = s.take(n);
        let tail = s.skip(n + 1);
        law_numbers(tail, 0xffff_ffff, scope_id as nat);
        let k = choose|k: nat| tail == #[trigger] zeros(k) + decimal(scope_id as nat);
        lemma_cut_whole(s, n, '%', zeros(k), decimal(scope_id as nat));
        assert(ipv6(host) == Some(bits));
    }
}

proof fn lemma_scoped_read(s: Seq<char>, bits: u128, scope_id: u32)
    requires
        writes_scoped(s, bits, scope_id),
    ensures
        scoped_ipv6(s) == Some((bits, scope_id)),
{
    if ipv6(s) == Some(bits) && scope_id == 0 {
        lemma_ipv6_free(s, '%');
        lemma_before_free(s, '%');
        let n = before(s, '%') as int;
        if n < s.len() {
            assert(s[n] == '%');
        }
    } else {
        let (host, k) = choose|host: Seq<char>, k: nat|
            #![trigger ipv6(host), zeros(k)]
            ipv6(host) == Some(bits) && s == host + seq!['%'] + zeros(k) + decimal(scope_id as nat);
        law_numbers(zeros(k) + decimal(scope_id as nat), 0xffff_ffff, scope_id as nat);
        lemma_ipv6_free(host, '%');
        lemma_cut(host, '%', k, scope_id as nat);
    }
}

proof fn lemma_scoped_no_bracket(s: Seq<char>, bits: u128, scope_id: u32)
    requires
        writes_scoped(s, bits, scope_id),
    ensures
        free_of(s, ']'),
{
    if ipv6(s) == Some(bits) && scope_id == 0 {
        lemma_ipv6_free(s, ']');
    } else {
        let (host, k) = choose|host: Seq<char>, k: nat|
            #![trigger ipv6(host), zeros(k)]
            ipv6(host) == Some(bits) && s == host + seq!['%'] + zeros(k) + decimal(scope_id as nat);
        lemma_ipv6_free(host, ']');
        lemma_decimal(scope_id as nat);
        lemma_digits_free(decimal(scope_id as nat), 10, ']');
    }
}

/// A text is what stands between its brackets with the brackets, the colon and
/// what stands behind it.
proof fn lemma_bracketed_whole(s: Seq<char>, n: int, host: Seq<char>, z: Seq<char>, d: Seq<char>)
    requires
        1 <= n,
        n + 1 < s.len(),
        s[0] == '[',
        s[n] == ']',
        s[n + 1] == ':',
        host == s.subrange(1, n),
        s.skip(n + 2) == z + d,
    ensures
        s == seq!['['] + host + seq![']', ':'] + z + d,
{
    assert(s =~= seq!['['] + host + seq![']', ':'] + s.skip(n + 2));
    assert(seq!['['] + host + seq![']', ':'] + (z + d) =~= seq!['['] + host + seq![']', ':'] + z
        + d);
}

proof fn lemma_v6_written(s: Seq<char>, bits: u128, scope_id: u32, port: u16)
    requires
        socket_v6(s) == Some(SocketAddr { ip: IpAddr::V6(bits), port, scope_id }),
    ensures
        writes_v6(s, bits, scope_id, port),
{
    let n = before(s, ']') as int;
    lemma_before_free(s, ']');
    let host = s.subrange(1, n);
    let tail = s.skip(n + 2);
    lemma_scoped_written(host, bits, scope_id);
    law_numbers(tail, 0xffff, port as nat);
    let k = choose|k: nat| tail == #[trigger] zeros(k) + decimal(port as nat);
    lemma_bracketed_whole(s, n, host, zeros(k), decimal(port as nat));
}

/// What stands between the brackets and what stands behind the colon.
proof fn lemma_bracketed(host: Seq<char>, k: nat, n: nat)
    requires
        free_of(host, ']'),
    ensures
        ({
            let s = seq!['['] + host + seq![']', ':'] + zeros(k) + decimal(n);
            let at = host.len() as int + 1;
            &&& before(s, ']') == at
            &&& s.len() > at + 1
            &&& s[0] == '['
            &&& s[at + 1] == ':'
            &&& s.subrange(1, at) == host
            &&& s.skip(at + 2) == zeros(k) + decimal(n)
        }),
{
    let s = seq!['['] + host + seq![']', ':'] + zeros(k) + decimal(n);
    let tail = zeros(k) + decimal(n);
    let front = seq!['['] + host;
    let rest = seq![':'] + tail;
    let at = host.len() as int + 1;
    assert(free_of(front, ']'));
    lemma_before(front, ']', rest);
    assert(s =~= front + seq![']'] + rest);
    assert(s.subrange(1, at) =~= host);
    assert(s.skip(at + 2) =~= tail);
}

proof fn lemma_v6_read(s: Seq<char>, bits: u128, scope_id: u32, port: u16)
    requires
        writes_v6(s, bits, scope_id, port),
    ensures
        socket_v6(s) == Some(SocketAddr { ip: IpAddr::V6(bits), port, scope_id }),
        s.len() > 0 && s[0] == '[',
{
    let (host, k) = choose|host: Seq<char>, k: nat|
        #![trigger writes_scoped(host, bits, scope_id), zeros(k)]
        writes_scoped(host, bits, scope_id) && s == seq!['['] + host + seq![']', ':'] + zeros(k)
            + decimal(port as nat);
    law_numbers(zeros(k) + decimal(port as nat), 0xffff, port as nat);
    lemma_scoped_read(host, bits, scope_id);
    lemma_scoped_no_bracket(host, bits, scope_id);
    lemma_bracketed(host, k, port as nat);
}

} // verus!
