//! Addresses read back from the texts in which they are usually written.
use vstd::prelude::*;

use crate::addr::{
    before, before_gap, digit_value, group, group_values, ip_addr, ipv4, ipv6, ipv6_groups,
    is_number, join_groups, number, octet, pieces, scoped_ipv6, side, socket_addr, socket_v4,
    socket_v6, IpAddr, SocketAddr,
};
use crate::config::override_of;
use crate::text::{decimal, digit_char, is_white_space, trimmed, trimmed_end, trimmed_start};

verus! {

// ---------------------------------------------------------------------------
// The texts.
// ---------------------------------------------------------------------------

/// The character of a digit below sixteen, in lower case.
pub open spec fn hex_char(d: nat) -> char {
    if d < 10 {
        digit_char(d)
    } else {
        (('a' as nat) + d - 10) as char
    }
}

/// `n` in base sixteen, without leading zeros.
pub open spec fn hex(n: nat) -> Seq<char>
    decreases n,
{
    if n < 16 {
        seq![hex_char(n)]
    } else {
        hex(n / 16).push(hex_char(n % 16))
    }
}

/// An IPv4 address as a dotted quad.
#[verifier::opaque]
pub open spec fn ipv4_text(bits: u32) -> Seq<char> {
    decimal((bits / 0x100_0000) as nat) + seq!['.'] + (decimal((bits / 0x1_0000 % 0x100) as nat)
        + seq!['.'] + (decimal((bits / 0x100 % 0x100) as nat) + seq!['.'] + decimal(
        (bits % 0x100) as nat,
    )))
}

/// The lowest `n` groups of sixteen bits of a number, highest first.
pub open spec fn groups_of(bits: nat, n: nat) -> Seq<u16>
    decreases n,
{
    if n == 0 {
        seq![]
    } else {
        groups_of(bits / 0x1_0000, (n - 1) as nat).push((bits % 0x1_0000) as u16)
    }
}

/// Groups in base sixteen with colons between them.
pub open spec fn groups_text(g: Seq<u16>) -> Seq<char>
    decreases g.len(),
{
    if g.len() == 0 {
        seq![]
    } else if g.len() == 1 {
        hex(g[0] as nat)
    } else {
        hex(g[0] as nat) + seq![':'] + groups_text(g.drop_first())
    }
}

/// How many groups from place `i` on are zero, up to the first that is not.
pub open spec fn zeros_at(g: Seq<u16>, i: int) -> nat
    decreases g.len() - i,
{
    if 0 <= i < g.len() && g[i] == 0 {
        1 + zeros_at(g, i + 1)
    } else {
        0
    }
}

/// The first of the places below `n` from which the most groups are zero.
pub open spec fn longest_zeros(g: Seq<u16>, n: nat) -> int
    decreases n,
{
    if n <= 1 {
        0
    } else {
        let earlier = longest_zeros(g, (n - 1) as nat);
        if zeros_at(g, n - 1) > zeros_at(g, earlier) {
            n - 1
        } else {
            earlier
        }
    }
}

/// Whether eight groups embed an IPv4 address.
pub open spec fn is_mapped(g: Seq<u16>) -> bool {
    &&& forall|i: int| 0 <= i < 5 ==> #[trigger] g[i] == 0
    &&& g[5] == 0xffff
}

/// The text of groups with `::` in the place of some.
#[verifier::opaque]
pub open spec fn gapped_text(g: Seq<u16>, start: int, zeros: int) -> Seq<char> {
    groups_text(g.take(start)) + seq![':', ':'] + groups_text(g.skip(start + zeros))
}

/// The text of an address that embeds an IPv4 address.
#[verifier::opaque]
pub open spec fn mapped_text(quad: u32) -> Seq<char> {
    seq![':', ':', 'f', 'f', 'f', 'f', ':'] + ipv4_text(quad)
}

/// An IPv6 address: an embedded IPv4 address as a dotted quad, else eight
/// groups with `::` in the place of the first of the longest runs of two zero
/// groups or more.
#[verifier::opaque]
pub open spec fn ipv6_text(bits: u128) -> Seq<char> {
    let g = groups_of(bits as nat, 8);
    let start = longest_zeros(g, 8);
    let zeros = zeros_at(g, start) as int;
    if is_mapped(g) {
        mapped_text((bits % 0x1_0000_0000) as u32)
    } else if zeros >= 2 {
        gapped_text(g, start, zeros)
    } else {
        groups_text(g)
    }
}

/// An IP address.
pub open spec fn ip_text(ip: IpAddr) -> Seq<char> {
    match ip {
        IpAddr::V4(bits) => ipv4_text(bits),
        IpAddr::V6(bits) => ipv6_text(bits),
    }
}

/// An IPv6 address with its scope, where it has one.
#[verifier::opaque]
pub open spec fn scoped_text(bits: u128, scope_id: u32) -> Seq<char> {
    if scope_id == 0 {
        ipv6_text(bits)
    } else {
        ipv6_text(bits) + seq!['%'] + decimal(scope_id as nat)
    }
}

/// An IP address with its port.
#[verifier::opaque]
pub open spec fn socket_text(a: SocketAddr) -> Seq<char> {
    match a.ip {
        IpAddr::V4(bits) => ipv4_text(bits) + seq![':'] + decimal(a.port as nat),
        IpAddr::V6(bits) => seq!['['] + scoped_text(bits, a.scope_id) + seq![']', ':'] + decimal(
            a.port as nat,
        ),
    }
}

// ---------------------------------------------------------------------------
// Numbers.
// ---------------------------------------------------------------------------

proof fn lemma_hex_char(d: nat)
    requires
        d < 16,
    ensures
        digit_value(hex_char(d)) == d,
{
}

proof fn lemma_digit_char(d: nat)
    requires
        d < 10,
    ensures
        digit_value(digit_char(d)) == d,
        digit_char(d) == '0' <==> d == 0,
{
}

/// A number in base ten reads back.
pub proof fn lemma_decimal(n: nat)
    ensures
        decimal(n).len() > 0,
        is_number(decimal(n), 10),
        number(decimal(n), 10) == n,
        n > 0 ==> decimal(n)[0] != '0',
        n == 0 ==> decimal(n).len() == 1,
    decreases n,
{
    let s = decimal(n);
    lemma_digit_char(n % 10);
    assert(number(seq![], 10) == 0);
    if n < 10 {
        assert(s.drop_last() =~= seq![]);
    } else {
        lemma_decimal(n / 10);
        assert(s.drop_last() =~= decimal(n / 10));
        assert(s[0] == decimal(n / 10)[0]);
        assert forall|i: int| 0 <= i < s.len() implies digit_value(#[trigger] s[i]) < 10 by {
            if i < s.len() - 1 {
                assert(s[i] == decimal(n / 10)[i]);
            }
        }
    }
}

/// A number in base sixteen reads back.
proof fn lemma_hex(n: nat)
    ensures
        hex(n).len() > 0,
        is_number(hex(n), 16),
        number(hex(n), 16) == n,
    decreases n,
{
    let s = hex(n);
    lemma_hex_char(n % 16);
    assert(number(seq![], 16) == 0);
    if n < 16 {
        assert(s.drop_last() =~= seq![]);
    } else {
        lemma_hex(n / 16);
        assert(s.drop_last() =~= hex(n / 16));
        assert forall|i: int| 0 <= i < s.len() implies digit_value(#[trigger] s[i]) < 16 by {
            if i < s.len() - 1 {
                assert(s[i] == hex(n / 16)[i]);
            }
        }
    }
}

/// A number below 256 is an octet.
pub proof fn lemma_octet(n: nat)
    requires
        n < 0x100,
    ensures
        octet(decimal(n)) == Some(n),
{
    lemma_decimal(n);
    reveal_with_fuel(decimal, 4);
    assert(decimal(n).len() <= 3);
}

/// A number of sixteen bits is a group.
proof fn lemma_group(v: u16)
    ensures
        group(hex(v as nat)) == Some(v),
{
    lemma_hex(v as nat);
    reveal_with_fuel(hex, 5);
    assert(hex(v as nat).len() <= 4);
}

// ---------------------------------------------------------------------------
// Separators.
// ---------------------------------------------------------------------------

/// Whether a character does not occur in a text.
pub open spec fn free_of(s: Seq<char>, c: char) -> bool {
    forall|i: int| 0 <= i < s.len() ==> #[trigger] s[i] != c
}

pub proof fn lemma_before_bound(s: Seq<char>, c: char)
    ensures
        before(s, c) <= s.len(),
    decreases s.len(),
{
    if s.len() > 0 && s.first() != c {
        lemma_before_bound(s.drop_first(), c);
    }
}

/// The first separator stands behind a text that is free of it.
pub proof fn lemma_before(a: Seq<char>, c: char, rest: Seq<char>)
    requires
        free_of(a, c),
    ensures
        before(a, c) == a.len(),
        before(a + seq![c] + rest, c) == a.len(),
    decreases a.len(),
{
    let s = a + seq![c] + rest;
    if a.len() == 0 {
        assert(s.first() == c);
    } else {
        let b = a.drop_first();
        assert forall|i: int| 0 <= i < b.len() implies #[trigger] b[i] != c by {
            assert(b[i] == a[i + 1]);
        }
        lemma_before(b, c, rest);
        assert(a.first() == a[0]);
        assert(s.first() == a[0]);
        assert(s.drop_first() =~= b + seq![c] + rest);
    }
}

/// The pieces of a text behind whose first piece another follows.
pub proof fn lemma_pieces(a: Seq<char>, c: char, rest: Seq<char>)
    requires
        free_of(a, c),
    ensures
        pieces(a, c) == seq![a],
        pieces(a + seq![c] + rest, c) == seq![a] + pieces(rest, c),
{
    lemma_before(a, c, rest);
    let s = a + seq![c] + rest;
    assert(s.take(a.len() as int) =~= a);
    assert(s.skip(a.len() as int + 1) =~= rest);
}

/// Whether a text has no `::`.
pub open spec fn gapless(s: Seq<char>) -> bool {
    forall|i: int| 0 <= i < s.len() - 1 ==> !(#[trigger] s[i] == ':' && s[i + 1] == ':')
}

/// The first gap stands behind a text that has none and ends in no colon.
pub proof fn lemma_gap(a: Seq<char>, rest: Seq<char>)
    requires
        gapless(a),
        a.len() > 0 ==> a.last() != ':',
    ensures
        before_gap(a) == a.len(),
        before_gap(a + seq![':', ':'] + rest) == a.len(),
    decreases a.len(),
{
    let s = a + seq![':', ':'] + rest;
    if a.len() == 0 {
        assert(s[0] == ':' && s[1] == ':');
    } else {
        let b = a.drop_first();
        assert forall|i: int| 0 <= i < b.len() - 1 implies !(#[trigger] b[i] == ':' && b[i + 1]
            == ':') by {
            assert(b[i] == a[i + 1] && b[i + 1] == a[i + 2]);
        }
        if b.len() > 0 {
            assert(b.last() == a.last());
        }
        lemma_gap(b, rest);
        assert(s[0] == a[0]);
        if a.len() > 1 {
            assert(s[1] == a[1]);
        } else {
            assert(a.last() == a[0]);
        }
        assert(s.drop_first() =~= b + seq![':', ':'] + rest);
    }
}

/// A text of digits is free of everything else.
pub proof fn lemma_digits_free(s: Seq<char>, radix: nat, c: char)
    requires
        is_number(s, radix),
        radix <= 16,
        digit_value(c) == 16,
    ensures
        free_of(s, c),
{
    assert forall|i: int| 0 <= i < s.len() implies #[trigger] s[i] != c by {
        assert(digit_value(s[i]) < radix);
    }
}

// ---------------------------------------------------------------------------
// IPv4.
// ---------------------------------------------------------------------------

proof fn lemma_octets(bits: u32)
    by (bit_vector)
    ensures
        bits / 0x100_0000 * 0x100_0000 + bits / 0x1_0000 % 0x100 * 0x1_0000 + bits / 0x100 % 0x100
            * 0x100 + bits % 0x100 == bits,
        bits / 0x100_0000 < 0x100,
{
}

proof fn lemma_four_pieces(a: Seq<char>, b: Seq<char>, c: Seq<char>, d: Seq<char>)
    requires
        free_of(a, '.'),
        free_of(b, '.'),
        free_of(c, '.'),
        free_of(d, '.'),
    ensures
        pieces(a + seq!['.'] + (b + seq!['.'] + (c + seq!['.'] + d)), '.') == seq![a, b, c, d],
{
    let cd = c + seq!['.'] + d;
    let bcd = b + seq!['.'] + cd;
    lemma_pieces(d, '.', seq![]);
    lemma_pieces(c, '.', d);
    lemma_pieces(b, '.', cd);
    lemma_pieces(a, '.', bcd);
    assert(pieces(a + seq!['.'] + bcd, '.') =~= seq![a, b, c, d]);
}

/// An octet is made of decimal digits and reads back.
proof fn lemma_octet_text(n: nat)
    requires
        n < 0x100,
    ensures
        octet(decimal(n)) == Some(n),
        decimal(n).len() > 0,
        is_number(decimal(n), 10),
        free_of(decimal(n), '.'),
{
    lemma_octet(n);
    lemma_decimal(n);
    lemma_digits_free(decimal(n), 10, '.');
}

proof fn lemma_ipv4_reads(bits: u32)
    ensures
        ipv4(ipv4_text(bits)) == Some(bits),
{
    reveal(ipv4_text);
    let a = (bits / 0x100_0000) as nat;
    let b = (bits / 0x1_0000 % 0x100) as nat;
    let c = (bits / 0x100 % 0x100) as nat;
    let d = (bits % 0x100) as nat;
    lemma_octets(bits);
    lemma_octet_text(a);
    lemma_octet_text(b);
    lemma_octet_text(c);
    lemma_octet_text(d);
    lemma_four_pieces(decimal(a), decimal(b), decimal(c), decimal(d));
}

proof fn lemma_ipv4_chars(bits: u32)
    ensures
        forall|i: int|
            0 <= i < ipv4_text(bits).len() ==> digit_value(#[trigger] ipv4_text(bits)[i]) < 10
                || ipv4_text(bits)[i] == '.',
        ipv4_text(bits).len() > 0,
        digit_value(ipv4_text(bits).first()) < 10,
        digit_value(ipv4_text(bits).last()) < 10,
{
    reveal(ipv4_text);
    let a = decimal((bits / 0x100_0000) as nat);
    let b = decimal((bits / 0x1_0000 % 0x100) as nat);
    let c = decimal((bits / 0x100 % 0x100) as nat);
    let d = decimal((bits % 0x100) as nat);
    lemma_decimal((bits / 0x100_0000) as nat);
    lemma_decimal((bits / 0x1_0000 % 0x100) as nat);
    lemma_decimal((bits / 0x100 % 0x100) as nat);
    lemma_decimal((bits % 0x100) as nat);
    let s = ipv4_text(bits);
    let i1 = a.len() as int + 1;
    let i2 = i1 + b.len() + 1;
    let i3 = i2 + c.len() + 1;
    assert forall|i: int| 0 <= i < s.len() implies digit_value(#[trigger] s[i]) < 10 || s[i]
        == '.' by {
        if i < i1 - 1 {
            assert(s[i] == a[i]);
        } else if i1 <= i < i2 - 1 {
            assert(s[i] == b[i - i1]);
        } else if i2 <= i < i3 - 1 {
            assert(s[i] == c[i - i2]);
        } else if i3 <= i {
            assert(s[i] == d[i - i3]);
        }
    }
    assert(s.first() == a[0]);
    assert(s.last() == d[d.len() - 1]);
}

/// A dotted quad reads back, and is made of decimal digits and dots.
pub proof fn lemma_ipv4(bits: u32)
    ensures
        ipv4(ipv4_text(bits)) == Some(bits),
        forall|i: int|
            0 <= i < ipv4_text(bits).len() ==> digit_value(#[trigger] ipv4_text(bits)[i]) < 10
                || ipv4_text(bits)[i] == '.',
        ipv4_text(bits).len() > 0,
        digit_value(ipv4_text(bits).first()) < 10,
        digit_value(ipv4_text(bits).last()) < 10,
{
    lemma_ipv4_reads(bits);
    lemma_ipv4_chars(bits);
}

/// A text that begins with neither a digit nor a dot is no dotted quad.
proof fn lemma_not_ipv4_start(s: Seq<char>)
    requires
        s.len() > 0,
        digit_value(s[0]) >= 10,
        s[0] != '.',
    ensures
        ipv4(s) is None,
{
    let p = pieces(s, '.');
    let k = before(s, '.') as int;
    assert(k > 0);
    assert(p[0][0] == s[0]);
    if p[0].len() > 0 {
        assert(!is_number(p[0], 10));
    }
}

/// A text without a dot is no dotted quad.
proof fn lemma_not_ipv4_free(s: Seq<char>)
    requires
        free_of(s, '.'),
    ensures
        ipv4(s) is None,
{
    lemma_pieces(s, '.', seq![]);
}

// ---------------------------------------------------------------------------
// IPv6.
// ---------------------------------------------------------------------------

/// How many numbers `n` groups can write.
spec fn span(n: nat) -> nat
    decreases n,
{
    if n == 0 {
        1
    } else {
        span((n - 1) as nat) * 0x1_0000
    }
}

/// The groups of a number write that number.
proof fn lemma_groups_of(bits: nat, n: nat)
    requires
        bits < span(n),
    ensures
        groups_of(bits, n).len() == n,
        join_groups(groups_of(bits, n)) == bits,
    decreases n,
{
    if n > 0 {
        lemma_groups_of(bits / 0x1_0000, (n - 1) as nat);
        let g = groups_of(bits, n);
        assert(g.drop_last() =~= groups_of(bits / 0x1_0000, (n - 1) as nat));
    }
}

proof fn lemma_span()
    ensures
        span(8) == 0x1_0000_0000_0000_0000_0000_0000_0000_0000,
{
    assert(span(0) == 1);
    assert(span(1) == 0x1_0000);
    assert(span(2) == 0x1_0000_0000);
    assert(span(3) == 0x1_0000_0000_0000);
    assert(span(4) == 0x1_0000_0000_0000_0000);
    assert(span(5) == 0x1_0000_0000_0000_0000_0000);
    assert(span(6) == 0x1_0000_0000_0000_0000_0000_0000);
    assert(span(7) == 0x1_0000_0000_0000_0000_0000_0000_0000);
}

/// The two halves of the lowest 32 bits.
proof fn lemma_halves(bits: u128)
    by (bit_vector)
    ensures
        (bits % 0x1_0000_0000) / 0x1_0000 == bits / 0x1_0000 % 0x1_0000,
        (bits % 0x1_0000_0000) % 0x1_0000 == bits % 0x1_0000,
{
}

/// The eight groups of an address.
proof fn lemma_eight_groups(bits: u128)
    ensures
        groups_of(bits as nat, 8).len() == 8,
        join_groups(groups_of(bits as nat, 8)) == bits,
        groups_of(bits as nat, 8)[6] == (bits % 0x1_0000_0000) / 0x1_0000,
        groups_of(bits as nat, 8)[7] == (bits % 0x1_0000_0000) % 0x1_0000,
{
    lemma_span();
    lemma_groups_of(bits as nat, 8);
    lemma_halves(bits);
    let most = bits as nat / 0x1_0000;
    lemma_groups_of_len(most, 7);
    lemma_groups_of_len(most / 0x1_0000, 6);
    let g = groups_of(bits as nat, 8);
    assert(g == groups_of(most, 7).push((bits as nat % 0x1_0000) as u16));
    assert(groups_of(most, 7) == groups_of(most / 0x1_0000, 6).push((most % 0x1_0000) as u16));
    assert(g[7] == (bits as nat % 0x1_0000) as u16);
    assert(g[6] == (most % 0x1_0000) as u16);
}

proof fn lemma_groups_of_len(bits: nat, n: nat)
    ensures
        groups_of(bits, n).len() == n,
    decreases n,
{
    if n > 0 {
        lemma_groups_of_len(bits / 0x1_0000, (n - 1) as nat);
    }
}

/// The texts of some groups.
spec fn hex_all(g: Seq<u16>) -> Seq<Seq<char>> {
    g.map_values(|v: u16| hex(v as nat))
}

/// Groups read back piece by piece. Their text has no gap, begins and ends in a
/// digit, and is made of digits and colons.
proof fn lemma_groups_text(g: Seq<u16>)
    requires
        g.len() > 0,
    ensures
        pieces(groups_text(g), ':') == hex_all(g),
        gapless(groups_text(g)),
        groups_text(g).len() > 0,
        digit_value(groups_text(g).first()) < 16,
        digit_value(groups_text(g).last()) < 16,
        forall|i: int|
            0 <= i < groups_text(g).len() ==> digit_value(#[trigger] groups_text(g)[i]) < 16
                || groups_text(g)[i] == ':',
    decreases g.len(),
{
    let a = hex(g[0] as nat);
    let s = groups_text(g);
    lemma_hex(g[0] as nat);
    lemma_digits_free(a, 16, ':');
    assert(digit_value(a[0]) < 16 && digit_value(a[a.len() - 1]) < 16);
    if g.len() == 1 {
        lemma_pieces(a, ':', seq![]);
        assert(hex_all(g) =~= seq![a]);
    } else {
        let rest = groups_text(g.drop_first());
        lemma_groups_text(g.drop_first());
        lemma_pieces(a, ':', rest);
        assert(hex_all(g) =~= seq![a] + hex_all(g.drop_first()));
        assert(s.first() == a[0]);
        assert(s.last() == rest.last());
        let k = a.len() as int;
        assert forall|i: int| 0 <= i < s.len() - 1 implies !(#[trigger] s[i] == ':' && s[i + 1]
            == ':') by {
            if i < k {
                assert(s[i] == a[i]);
            } else if i == k {
                assert(s[i + 1] == rest[0]);
            } else {
                assert(s[i] == rest[i - k - 1] && s[i + 1] == rest[i - k]);
            }
        }
        assert forall|i: int| 0 <= i < s.len() implies digit_value(#[trigger] s[i]) < 16 || s[i]
            == ':' by {
            if i < k {
                assert(s[i] == a[i]);
            } else if i > k {
                assert(s[i] == rest[i - k - 1]);
            }
        }
    }
}

/// Whether a text reads as one side of an address with these groups, and can
/// stand before a gap.
#[verifier::opaque]
spec fn is_side(s: Seq<char>, g: Seq<u16>, dotted: bool) -> bool {
    &&& side(s, dotted) == Some(g)
    &&& gapless(s)
    &&& s.len() > 0 ==> s.last() != ':'
}

/// Groups read back as one side of an address.
proof fn lemma_side(g: Seq<u16>, dotted: bool)
    ensures
        is_side(groups_text(g), g, dotted),
{
    reveal(is_side);
    if g.len() > 0 {
        lemma_groups_text(g);
        let p = hex_all(g);
        assert forall|i: int| 0 <= i < p.len() implies group(#[trigger] p[i]) == Some(g[i]) by {
            lemma_group(g[i]);
        }
        assert(group_values(p) =~= g);
    } else {
        assert(g =~= seq![]);
    }
}

/// A run of zero groups is one.
proof fn lemma_zeros(g: Seq<u16>, i: int)
    requires
        0 <= i <= g.len(),
    ensures
        i + zeros_at(g, i) <= g.len(),
        forall|j: int| i <= j < i + zeros_at(g, i) ==> #[trigger] g[j] == 0,
    decreases g.len() - i,
{
    if i < g.len() && g[i] == 0 {
        lemma_zeros(g, i + 1);
    }
}

proof fn lemma_longest(g: Seq<u16>, n: nat)
    requires
        n <= g.len(),
        g.len() > 0,
    ensures
        0 <= longest_zeros(g, n) < g.len(),
    decreases n,
{
    if n > 1 {
        lemma_longest(g, (n - 1) as nat);
    }
}

/// Two sides read back with zeros in the place of the gap between them.
proof fn lemma_two_sides(a: Seq<char>, b: Seq<char>, head: Seq<u16>, tail: Seq<u16>)
    requires
        is_side(a, head, false),
        is_side(b, tail, true),
        head.len() + tail.len() <= 7,
    ensures
        ipv6_groups(a + seq![':', ':'] + b) == Some(
            head + Seq::new((8 - head.len() - tail.len()) as nat, |i: int| 0u16) + tail,
        ),
{
    reveal(is_side);
    let s = a + seq![':', ':'] + b;
    lemma_gap(a, b);
    assert(s.take(a.len() as int) =~= a);
    assert(s.skip(a.len() as int + 2) =~= b);
}

/// Groups with a gap in the place of a run of zeros read back.
proof fn lemma_gapped(g: Seq<u16>, start: int, zeros: int)
    requires
        g.len() == 8,
        0 <= start,
        1 <= zeros,
        start + zeros <= 8,
        forall|j: int| start <= j < start + zeros ==> #[trigger] g[j] == 0,
    ensures
        ipv6_groups(gapped_text(g, start, zeros)) == Some(g),
{
    reveal(gapped_text);
    let head = g.take(start);
    let tail = g.skip(start + zeros);
    lemma_side(head, false);
    lemma_side(tail, true);
    assert(head + Seq::new(zeros as nat, |i: int| 0u16) + tail =~= g);
    lemma_two_sides(groups_text(head), groups_text(tail), head, tail);
}

/// Groups without a gap read back.
proof fn lemma_ungapped(g: Seq<u16>)
    requires
        g.len() == 8,
    ensures
        ipv6_groups(groups_text(g)) == Some(g),
{
    reveal(is_side);
    lemma_side(g, true);
    lemma_gap(groups_text(g), seq![]);
}

proof fn lemma_ffff()
    ensures
        group(seq!['f', 'f', 'f', 'f']) == Some(0xffffu16),
{
    reveal_with_fuel(number, 5);
    assert(seq!['f', 'f', 'f', 'f'].drop_last() =~= seq!['f', 'f', 'f']);
    assert(seq!['f', 'f', 'f'].drop_last() =~= seq!['f', 'f']);
    assert(seq!['f', 'f'].drop_last() =~= seq!['f']);
    assert(seq!['f'].drop_last() =~= seq![]);
}

/// A group and a dotted quad read back as three groups.
proof fn lemma_dotted_side(quad: u32)
    ensures
        is_side(
            seq!['f', 'f', 'f', 'f'] + seq![':'] + ipv4_text(quad),
            seq![0xffffu16, (quad / 0x1_0000) as u16, (quad % 0x1_0000) as u16],
            true,
        ),
{
    reveal(is_side);
    let text = ipv4_text(quad);
    let ffff = seq!['f', 'f', 'f', 'f'];
    let tail = ffff + seq![':'] + text;
    lemma_ipv4(quad);
    assert(free_of(text, ':'));
    assert(free_of(ffff, ':'));
    lemma_pieces(text, ':', seq![]);
    lemma_pieces(ffff, ':', text);
    let p = pieces(tail, ':');
    assert(p =~= seq![ffff, text]);
    lemma_ffff();
    lemma_quad_no_group(quad);
    assert(group(p[1]) is None);
    assert(p.drop_last() =~= seq![ffff]);
    assert(group_values(seq![ffff]) =~= seq![0xffffu16]);
    assert forall|i: int| 0 <= i < tail.len() - 1 implies !(#[trigger] tail[i] == ':' && tail[i + 1]
        == ':') by {
        if i >= 4 {
            assert(tail[i + 1] == text[i - 4]);
        }
    }
    assert(tail.last() == text.last());
    assert(seq![0xffffu16] + seq![(quad / 0x1_0000) as u16, (quad % 0x1_0000) as u16] =~= seq![
        0xffffu16,
        (quad / 0x1_0000) as u16,
        (quad % 0x1_0000) as u16,
    ]);
}

/// An address that embeds an IPv4 address reads back.
proof fn lemma_mapped(g: Seq<u16>, quad: u32)
    requires
        g.len() == 8,
        is_mapped(g),
        g[6] == quad / 0x1_0000,
        g[7] == quad % 0x1_0000,
    ensures
        ipv6_groups(mapped_text(quad)) == Some(g),
{
    reveal(mapped_text);
    let s = seq![':', ':', 'f', 'f', 'f', 'f', ':'] + ipv4_text(quad);
    let tail = seq!['f', 'f', 'f', 'f'] + seq![':'] + ipv4_text(quad);
    let empty: Seq<char> = seq![];
    let none: Seq<u16> = seq![];
    let groups = seq![0xffffu16, (quad / 0x1_0000) as u16, (quad % 0x1_0000) as u16];
    assert(s =~= empty + seq![':', ':'] + tail);
    assert(is_side(empty, none, false)) by {
        reveal(is_side);
    }
    lemma_dotted_side(quad);
    assert(none + Seq::new(5, |i: int| 0u16) + groups =~= g);
    lemma_two_sides(empty, tail, none, groups);
}

/// A dotted quad is no group.
pub proof fn lemma_quad_no_group(bits: u32)
    ensures
        group(ipv4_text(bits)) is None,
{
    reveal(ipv4_text);
    let a = decimal((bits / 0x100_0000) as nat);
    let s = ipv4_text(bits);
    assert(s[a.len() as int] == '.');
    assert(digit_value('.') == 16);
}

/// Whether a character may stand in the text of an address.
spec fn plain(c: char) -> bool {
    digit_value(c) < 16 || c == ':' || c == '.'
}

/// Whether a text begins with a digit or a colon and ends in one, and holds
/// nothing that no address holds.
spec fn address_like(s: Seq<char>) -> bool {
    &&& s.len() > 0
    &&& digit_value(s.first()) < 16 || s.first() == ':'
    &&& forall|i: int| 0 <= i < s.len() ==> plain(#[trigger] s[i])
}

/// The text of groups with a gap is like an address and has no dot.
proof fn lemma_gapped_chars(g: Seq<u16>, start: int, zeros: int)
    ensures
        address_like(gapped_text(g, start, zeros)),
        free_of(gapped_text(g, start, zeros), '.'),
{
    reveal(gapped_text);
    let head = g.take(start);
    let tail = g.skip(start + zeros);
    let a = groups_text(head);
    let b = groups_text(tail);
    let s = a + seq![':', ':'] + b;
    if head.len() > 0 {
        lemma_groups_text(head);
        assert(s.first() == a.first());
    } else {
        assert(s.first() == ':');
    }
    if tail.len() > 0 {
        lemma_groups_text(tail);
    }
    assert forall|i: int| 0 <= i < s.len() implies plain(#[trigger] s[i]) && s[i] != '.' by {
        if i < a.len() {
            assert(s[i] == a[i]);
        } else if i >= a.len() + 2 {
            assert(s[i] == b[i - a.len() - 2]);
        }
    }
}

/// A text without a dot is no IPv4 address with a port, nor is one that begins
/// with a colon.
proof fn lemma_not_socket_v4(s: Seq<char>)
    requires
        free_of(s, '.') || (s.len() > 0 && s[0] == ':'),
    ensures
        socket_v4(s) is None,
{
    let k = before(s, ':') as int;
    lemma_before_bound(s, ':');
    if k < s.len() {
        let t = s.take(k);
        if !free_of(s, '.') {
            assert(k == 0);
        }
        assert forall|i: int| 0 <= i < t.len() implies #[trigger] t[i] != '.' by {
            assert(t[i] == s[i]);
        }
        lemma_not_ipv4_free(t);
    }
}

/// The text of an address that embeds an IPv4 address is like an address and
/// reads as nothing else.
proof fn lemma_mapped_chars(quad: u32)
    ensures
        address_like(mapped_text(quad)),
        ipv4(mapped_text(quad)) is None,
        socket_v4(mapped_text(quad)) is None,
{
    reveal(mapped_text);
    let text = ipv4_text(quad);
    let s = mapped_text(quad);
    assert(s[0] == ':');
    lemma_not_ipv4_start(s);
    lemma_not_socket_v4(s);
    lemma_ipv4_chars(quad);
    assert forall|i: int| 0 <= i < s.len() implies plain(#[trigger] s[i]) by {
        if i >= 7 {
            assert(s[i] == text[i - 7]);
        }
    }
}

/// The text of groups without a gap is like an address and has no dot.
proof fn lemma_ungapped_chars(g: Seq<u16>)
    requires
        g.len() > 0,
    ensures
        address_like(groups_text(g)),
        free_of(groups_text(g), '.'),
{
    let s = groups_text(g);
    lemma_groups_text(g);
    assert forall|i: int| 0 <= i < s.len() implies plain(#[trigger] s[i]) && s[i] != '.' by {}
}

/// The groups of an IPv6 address read back, and as nothing else.
proof fn lemma_ipv6_groups(bits: u128)
    ensures
        ipv6_groups(ipv6_text(bits)) == Some(groups_of(bits as nat, 8)),
        ipv4(ipv6_text(bits)) is None,
        socket_v4(ipv6_text(bits)) is None,
        address_like(ipv6_text(bits)),
{
    reveal(ipv6_text);
    let g = groups_of(bits as nat, 8);
    let start = longest_zeros(g, 8);
    let zeros = zeros_at(g, start) as int;
    lemma_eight_groups(bits);
    if is_mapped(g) {
        let quad = (bits % 0x1_0000_0000) as u32;
        lemma_mapped(g, quad);
        lemma_mapped_chars(quad);
    } else if zeros >= 2 {
        lemma_longest(g, 8);
        lemma_zeros(g, start);
        lemma_gapped(g, start, zeros);
        lemma_gapped_chars(g, start, zeros);
        lemma_not_ipv4_free(gapped_text(g, start, zeros));
        lemma_not_socket_v4(gapped_text(g, start, zeros));
    } else {
        lemma_ungapped(g);
        lemma_ungapped_chars(g);
        lemma_not_ipv4_free(groups_text(g));
        lemma_not_socket_v4(groups_text(g));
    }
}

/// An IPv6 address reads back, and as nothing else.
proof fn lemma_ipv6(bits: u128)
    ensures
        ipv6(ipv6_text(bits)) == Some(bits),
        ipv4(ipv6_text(bits)) is None,
        socket_v4(ipv6_text(bits)) is None,
        address_like(ipv6_text(bits)),
{
    lemma_ipv6_groups(bits);
    lemma_eight_groups(bits);
}

// ---------------------------------------------------------------------------
// White space.
// ---------------------------------------------------------------------------

/// A text of white space alone.
pub open spec fn blank(w: Seq<char>) -> bool {
    forall|i: int| 0 <= i < w.len() ==> is_white_space(#[trigger] w[i])
}

proof fn lemma_trimmed_start(w: Seq<char>, s: Seq<char>)
    requires
        blank(w),
        s.len() > 0,
        !is_white_space(s[0]),
    ensures
        trimmed_start(w + s) == s,
    decreases w.len(),
{
    if w.len() == 0 {
        assert(w + s =~= s);
    } else {
        assert((w + s).first() == w[0]);
        assert((w + s).drop_first() =~= w.drop_first() + s);
        assert forall|i: int| 0 <= i < w.drop_first().len() implies is_white_space(
            #[trigger] w.drop_first()[i],
        ) by {
            assert(w.drop_first()[i] == w[i + 1]);
        }
        lemma_trimmed_start(w.drop_first(), s);
    }
}

proof fn lemma_trimmed_end(s: Seq<char>, w: Seq<char>)
    requires
        blank(w),
        s.len() > 0,
        !is_white_space(s.last()),
    ensures
        trimmed_end(s + w) == s,
    decreases w.len(),
{
    if w.len() == 0 {
        assert(s + w =~= s);
    } else {
        assert((s + w).last() == w[w.len() - 1]);
        assert((s + w).drop_last() =~= s + w.drop_last());
        lemma_trimmed_end(s, w.drop_last());
    }
}

/// White space round a text that has none at its ends is trimmed away.
proof fn lemma_trimmed(before: Seq<char>, s: Seq<char>, after: Seq<char>)
    requires
        blank(before),
        blank(after),
        s.len() > 0,
        !is_white_space(s[0]),
        !is_white_space(s.last()),
    ensures
        trimmed(before + s + after) == s,
{
    assert(before + s + after =~= before + (s + after));
    assert((s + after)[0] == s[0]);
    lemma_trimmed_start(before, s + after);
    lemma_trimmed_end(s, after);
}

proof fn lemma_plain_not_white(c: char)
    requires
        plain(c) || c == '[',
    ensures
        !is_white_space(c),
{
}

// ---------------------------------------------------------------------------
// What reads back.
// ---------------------------------------------------------------------------

/// An IP address reads back from its text, and the text is not read as an
/// address with a port.
pub proof fn law_ip_reads_back(ip: IpAddr)
    ensures
        ip_addr(ip_text(ip)) == Some(ip),
        socket_addr(ip_text(ip)) is None,
{
    let s = ip_text(ip);
    match ip {
        IpAddr::V4(bits) => {
            lemma_ipv4(bits);
            assert(free_of(s, ':'));
            lemma_before(s, ':', seq![]);
            assert(s[0] != '[');
        },
        IpAddr::V6(bits) => {
            lemma_ipv6(bits);
            assert(s[0] == s.first());
        },
    }
}

proof fn lemma_socket_v4(host: Seq<char>, bits: u32, port: u16)
    requires
        ipv4(host) == Some(bits),
        free_of(host, ':'),
    ensures
        socket_addr(host + seq![':'] + decimal(port as nat)) == Some(
            SocketAddr { ip: IpAddr::V4(bits), port, scope_id: 0 },
        ),
{
    let s = host + seq![':'] + decimal(port as nat);
    lemma_decimal(port as nat);
    lemma_before(host, ':', decimal(port as nat));
    assert(s.take(host.len() as int) =~= host);
    assert(s.skip(host.len() as int + 1) =~= decimal(port as nat));
}

proof fn lemma_scoped(host: Seq<char>, bits: u128, scope_id: u32)
    requires
        ipv6(host) == Some(bits),
        free_of(host, '%'),
    ensures
        scoped_ipv6(host) == Some((bits, 0u32)),
        scoped_ipv6(host + seq!['%'] + decimal(scope_id as nat)) == Some((bits, scope_id)),
{
    let s = host + seq!['%'] + decimal(scope_id as nat);
    lemma_decimal(scope_id as nat);
    lemma_before(host, '%', decimal(scope_id as nat));
    assert(s.take(host.len() as int) =~= host);
    assert(s.skip(host.len() as int + 1) =~= decimal(scope_id as nat));
}

/// A text that begins with a bracket is no IPv4 address with a port.
pub proof fn lemma_bracket_not_v4(s: Seq<char>)
    requires
        s.len() > 0,
        s[0] == '[',
    ensures
        socket_v4(s) is None,
{
    let k = before(s, ':') as int;
    lemma_before_bound(s, ':');
    if k < s.len() {
        assert(k > 0);
        assert(s.take(k)[0] == '[');
        lemma_not_ipv4_start(s.take(k));
    }
}

proof fn lemma_socket_v6(inner: Seq<char>, bits: u128, scope_id: u32, port: u16)
    requires
        is_scoped(inner, bits, scope_id),
    ensures
        socket_v6(seq!['['] + inner + seq![']', ':'] + decimal(port as nat)) == Some(
            SocketAddr { ip: IpAddr::V6(bits), port, scope_id },
        ),
{
    reveal(is_scoped);
    let digits = decimal(port as nat);
    let front = seq!['['] + inner;
    let s = front + seq![']', ':'] + digits;
    let k = front.len() as int;
    lemma_decimal(port as nat);
    assert forall|i: int| 0 <= i < front.len() implies #[trigger] front[i] != ']' by {
        if i > 0 {
            assert(front[i] == inner[i - 1]);
        }
    }
    lemma_before(front, ']', seq![':'] + digits);
    assert(s =~= front + seq![']'] + (seq![':'] + digits));
    assert(s.subrange(1, k) =~= inner);
    assert(s.skip(k + 2) =~= digits);
    assert(s[0] == '[' && s[k + 1] == ':');
}

/// Whether a text may stand between the brackets and reads as this address with
/// this scope.
#[verifier::opaque]
spec fn is_scoped(inner: Seq<char>, bits: u128, scope_id: u32) -> bool {
    &&& scoped_ipv6(inner) == Some((bits, scope_id))
    &&& free_of(inner, ']')
}

proof fn lemma_scoped_free(host: Seq<char>, scope_id: u32)
    requires
        address_like(host),
    ensures
        free_of(host, '%'),
        free_of(host, ']'),
        free_of(host + seq!['%'] + decimal(scope_id as nat), ']'),
{
    let scope = decimal(scope_id as nat);
    let inner = host + seq!['%'] + scope;
    lemma_decimal(scope_id as nat);
    lemma_digits_free(scope, 10, ']');
    assert forall|i: int| 0 <= i < host.len() implies #[trigger] host[i] != '%' && host[i]
        != ']' by {
        assert(plain(host[i]));
    }
    assert forall|i: int| 0 <= i < inner.len() implies #[trigger] inner[i] != ']' by {
        if i < host.len() {
            assert(inner[i] == host[i]);
        } else if i > host.len() {
            assert(inner[i] == scope[i - host.len() - 1]);
        }
    }
}

proof fn lemma_scoped_text(bits: u128, scope_id: u32)
    ensures
        is_scoped(scoped_text(bits, scope_id), bits, scope_id),
{
    reveal(is_scoped);
    reveal(scoped_text);
    lemma_ipv6(bits);
    lemma_scoped_free(ipv6_text(bits), scope_id);
    lemma_scoped(ipv6_text(bits), bits, scope_id);
}

proof fn lemma_v4_reads_back(a: SocketAddr, bits: u32)
    requires
        a.ip == IpAddr::V4(bits),
        a.scope_id == 0,
    ensures
        socket_addr(socket_text(a)) == Some(a),
{
    reveal(socket_text);
    lemma_ipv4(bits);
    assert(free_of(ipv4_text(bits), ':'));
    lemma_socket_v4(ipv4_text(bits), bits, a.port);
}

proof fn lemma_v6_reads_back(a: SocketAddr, bits: u128)
    requires
        a.ip == IpAddr::V6(bits),
    ensures
        socket_addr(socket_text(a)) == Some(a),
{
    let s = socket_text(a);
    assert(socket_v6(s) == Some(a)) by {
        reveal(socket_text);
        lemma_scoped_text(bits, a.scope_id);
        lemma_socket_v6(scoped_text(bits, a.scope_id), bits, a.scope_id, a.port);
    }
    assert(s.len() > 0 && s[0] == '[') by {
        reveal(socket_text);
    }
    lemma_bracket_not_v4(s);
}

/// An address with a port reads back from its text. An IPv4 address has no
/// scope.
pub proof fn law_socket_reads_back(a: SocketAddr)
    requires
        a.ip is V4 ==> a.scope_id == 0,
    ensures
        socket_addr(socket_text(a)) == Some(a),
{
    match a.ip {
        IpAddr::V4(bits) => lemma_v4_reads_back(a, bits),
        IpAddr::V6(bits) => lemma_v6_reads_back(a, bits),
    }
}

/// The ends of the texts are no white space.
proof fn lemma_ends(a: SocketAddr)
    ensures
        socket_text(a).len() > 0,
        !is_white_space(socket_text(a)[0]),
        !is_white_space(socket_text(a).last()),
        ip_text(a.ip).len() > 0,
        !is_white_space(ip_text(a.ip)[0]),
        !is_white_space(ip_text(a.ip).last()),
{
    reveal(socket_text);
    let s = socket_text(a);
    let t = ip_text(a.ip);
    let port = decimal(a.port as nat);
    lemma_decimal(a.port as nat);
    assert(s.last() == port[port.len() - 1]);
    assert(digit_value(port[port.len() - 1]) < 10);
    match a.ip {
        IpAddr::V4(bits) => {
            lemma_ipv4(bits);
            assert(s[0] == t[0]);
            assert(t[0] == t.first());
        },
        IpAddr::V6(bits) => {
            lemma_ipv6(bits);
            assert(s[0] == '[');
            assert(plain(t[0]) && plain(t[t.len() - 1]));
        },
    }
    lemma_plain_not_white(s[0]);
    lemma_plain_not_white(s.last());
    lemma_plain_not_white(t[0]);
    lemma_plain_not_white(t.last());
}

/// An override that writes an address, with white space round it, pins to that
/// address: with its port, or with port zero where it writes none.
pub proof fn law_override_reads_back(before: Seq<char>, a: SocketAddr, after: Seq<char>)
    requires
        blank(before),
        blank(after),
        a.ip is V4 ==> a.scope_id == 0,
    ensures
        override_of(before + socket_text(a) + after) == Ok::<Option<SocketAddr>, Seq<char>>(Some(a)),
        override_of(before + ip_text(a.ip) + after) == Ok::<Option<SocketAddr>, Seq<char>>(
            Some(SocketAddr { ip: a.ip, port: 0, scope_id: 0 }),
        ),
{
    law_socket_reads_back(a);
    law_ip_reads_back(a.ip);
    lemma_ends(a);
    lemma_trimmed(before, socket_text(a), after);
    lemma_trimmed(before, ip_text(a.ip), after);
}

} // verus!
