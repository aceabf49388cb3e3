//! IP and socket addresses, and the text forms in which a configuration
//! writes them.
use vstd::prelude::*;
use vstd::slice::slice_subrange;

verus! {

/// An IP address, held as one big-endian number.
#[derive(Debug, Clone, Copy, PartialEq, Eq, Structural)]
pub enum IpAddr {
    V4(u32),
    V6(u128),
}

/// An IP address with a port. `scope_id` is zero for IPv4.
#[derive(Debug, Clone, Copy, PartialEq, Eq, Structural)]
pub struct SocketAddr {
    pub ip: IpAddr,
    pub port: u16,
    pub scope_id: u32,
}

// ---------------------------------------------------------------------------
// The grammar.
// ---------------------------------------------------------------------------

/// How many characters of `s` stand before the first `c`; all of them where
/// `c` does not occur.
pub open spec fn before(s: Seq<char>, c: char) -> nat
    decreases s.len(),
{
    if s.len() == 0 || s.first() == c {
        0
    } else {
        1 + before(s.drop_first(), c)
    }
}

/// How many characters of `s` stand before the first `::`; all of them where
/// it does not occur.
pub open spec fn before_gap(s: Seq<char>) -> nat
    decreases s.len(),
{
    if s.len() == 0 || (s.len() >= 2 && s[0] == ':' && s[1] == ':') {
        0
    } else {
        1 + before_gap(s.drop_first())
    }
}

/// The pieces of `s` between its separators.
pub open spec fn pieces(s: Seq<char>, sep: char) -> Seq<Seq<char>>
    decreases s.len(),
{
    let k = before(s, sep) as int;
    if k < s.len() {
        seq![s.take(k)] + pieces(s.skip(k + 1), sep)
    } else {
        seq![s]
    }
}

/// The value of a hexadecimal digit of either case; 16 for anything else.
pub open spec fn digit_value(c: char) -> nat {
    let u = c as nat;
    if 0x30 <= u <= 0x39 {
        (u - 0x30) as nat
    } else if 0x41 <= u <= 0x46 {
        (u - 0x41 + 10) as nat
    } else if 0x61 <= u <= 0x66 {
        (u - 0x61 + 10) as nat
    } else {
        16
    }
}

/// One digit or more, each below `radix`.
pub open spec fn is_number(s: Seq<char>, radix: nat) -> bool {
    &&& s.len() > 0
    &&& forall|i: int| 0 <= i < s.len() ==> digit_value(#[trigger] s[i]) < radix
}

/// The value of a string of digits.
pub open spec fn number(s: Seq<char>, radix: nat) -> nat
    decreases s.len(),
{
    if s.len() == 0 {
        0
    } else {
        number(s.drop_last(), radix) * radix + digit_value(s.last())
    }
}

/// A number in base `radix` that is at most `max`.
pub open spec fn bounded_number(s: Seq<char>, radix: nat, max: nat) -> Option<nat> {
    if is_number(s, radix) && number(s, radix) <= max {
        Some(number(s, radix))
    } else {
        None
    }
}

/// One part of a dotted quad: up to three decimal digits without a leading
/// zero, at most 255.
pub open spec fn octet(s: Seq<char>) -> Option<nat> {
    if s.len() <= 3 && (s.len() > 1 ==> s[0] != '0') {
        bounded_number(s, 10, 255)
    } else {
        None
    }
}

/// An IPv4 address: four octets with dots between them.
pub open spec fn ipv4(s: Seq<char>) -> Option<u32> {
    let p = pieces(s, '.');
    if p.len() == 4 && octet(p[0]) is Some && octet(p[1]) is Some && octet(p[2]) is Some && octet(
        p[3],
    ) is Some {
        Some(
            (octet(p[0])->0 * 0x100_0000 + octet(p[1])->0 * 0x1_0000 + octet(p[2])->0 * 0x100
                + octet(p[3])->0) as u32,
        )
    } else {
        None
    }
}

/// One group of an IPv6 address: up to four hexadecimal digits.
pub open spec fn group(s: Seq<char>) -> Option<u16> {
    if s.len() <= 4 && is_number(s, 16) {
        Some(number(s, 16) as u16)
    } else {
        None
    }
}

/// Whether every piece is a group.
pub open spec fn all_groups(p: Seq<Seq<char>>) -> bool {
    forall|i: int| 0 <= i < p.len() ==> group(#[trigger] p[i]) is Some
}

/// The groups that some pieces write.
pub open spec fn group_values(p: Seq<Seq<char>>) -> Seq<u16> {
    p.map_values(|s: Seq<char>| group(s)->0)
}

/// The groups of one side of an IPv6 address. Where `dotted` is set, the last
/// two groups may be written as a dotted quad.
pub open spec fn side(s: Seq<char>, dotted: bool) -> Option<Seq<u16>> {
    let p = pieces(s, ':');
    if s.len() == 0 {
        Some(seq![])
    } else if all_groups(p) {
        Some(group_values(p))
    } else if dotted && all_groups(p.drop_last()) && ipv4(p.last()) is Some {
        let quad = ipv4(p.last())->0;
        Some(group_values(p.drop_last()) + seq![(quad / 0x1_0000) as u16, (quad % 0x1_0000) as u16])
    } else {
        None
    }
}

/// The number that eight groups write.
pub open spec fn join_groups(g: Seq<u16>) -> nat
    decreases g.len(),
{
    if g.len() == 0 {
        0
    } else {
        join_groups(g.drop_last()) * 0x1_0000 + g.last() as nat
    }
}

/// The eight groups of an IPv6 address: all written out, or with `::` in the
/// place of one zero group or more.
pub open spec fn ipv6_groups(s: Seq<char>) -> Option<Seq<u16>> {
    let k = before_gap(s) as int;
    if k == s.len() {
        match side(s, true) {
            Some(g) => if g.len() == 8 {
                Some(g)
            } else {
                None
            },
            None => None,
        }
    } else {
        match (side(s.take(k), false), side(s.skip(k + 2), true)) {
            (Some(head), Some(tail)) => if head.len() + tail.len() <= 7 {
                Some(head + Seq::new((8 - head.len() - tail.len()) as nat, |i: int| 0u16) + tail)
            } else {
                None
            },
            _ => None,
        }
    }
}

/// An IPv6 address.
pub open spec fn ipv6(s: Seq<char>) -> Option<u128> {
    match ipv6_groups(s) {
        Some(g) => Some(join_groups(g) as u128),
        None => None,
    }
}

/// An IP address of either version.
pub open spec fn ip_addr(s: Seq<char>) -> Option<IpAddr> {
    match ipv4(s) {
        Some(bits) => Some(IpAddr::V4(bits)),
        None => match ipv6(s) {
            Some(bits) => Some(IpAddr::V6(bits)),
            None => None,
        },
    }
}

/// `IPV4:PORT`.
pub open spec fn socket_v4(s: Seq<char>) -> Option<SocketAddr> {
    let k = before(s, ':') as int;
    if k == s.len() {
        None
    } else {
        match (ipv4(s.take(k)), bounded_number(s.skip(k + 1), 10, 0xffff)) {
            (Some(bits), Some(port)) => Some(
                SocketAddr { ip: IpAddr::V4(bits), port: port as u16, scope_id: 0 },
            ),
            _ => None,
        }
    }
}

/// What stands between the brackets of an IPv6 socket address: the address,
/// and after a `%` its scope.
pub open spec fn scoped_ipv6(s: Seq<char>) -> Option<(u128, u32)> {
    let k = before(s, '%') as int;
    if k == s.len() {
        match ipv6(s) {
            Some(bits) => Some((bits, 0)),
            None => None,
        }
    } else {
        match (ipv6(s.take(k)), bounded_number(s.skip(k + 1), 10, 0xffff_ffff)) {
            (Some(bits), Some(scope)) => Some((bits, scope as u32)),
            _ => None,
        }
    }
}

/// `[IPV6]:PORT`.
pub open spec fn socket_v6(s: Seq<char>) -> Option<SocketAddr> {
    let k = before(s, ']') as int;
    if s.len() == 0 || s[0] != '[' || k + 1 >= s.len() || s[k + 1] != ':' {
        None
    } else {
        match (scoped_ipv6(s.subrange(1, k)), bounded_number(s.skip(k + 2), 10, 0xffff)) {
            (Some((bits, scope_id)), Some(port)) => Some(
                SocketAddr { ip: IpAddr::V6(bits), port: port as u16, scope_id },
            ),
            _ => None,
        }
    }
}

/// An IP address of either version with a port.
pub open spec fn socket_addr(s: Seq<char>) -> Option<SocketAddr> {
    match socket_v4(s) {
        Some(a) => Some(a),
        None => socket_v6(s),
    }
}

// ---------------------------------------------------------------------------
// The parser.
// ---------------------------------------------------------------------------

/// The number of characters before the first `c`.
fn find(s: &[char], c: char) -> (k: usize)
    ensures
        k == before(s@, c),
        k <= s@.len(),
        k < s@.len() ==> s@[k as int] == c,
{
    let mut k: usize = 0;
    assert(s@.skip(0) =~= s@);
    while k < s.len() && s[k] != c
        invariant
            k <= s@.len(),
            before(s@, c) == k + before(s@.skip(k as int), c),
        decreases s@.len() - k,
    {
        assert(s@.skip(k as int).drop_first() =~= s@.skip(k + 1));
        k = k + 1;
    }
    k
}

/// The number of characters before the first `::`.
fn find_gap(s: &[char]) -> (k: usize)
    ensures
        k == before_gap(s@),
        k <= s@.len(),
        k < s@.len() ==> k + 2 <= s@.len(),
{
    let mut k: usize = 0;
    assert(s@.skip(0) =~= s@);
    while k < s.len() && !(s.len() - k >= 2 && s[k] == ':' && s[k + 1] == ':')
        invariant
            k <= s@.len(),
            before_gap(s@) == k + before_gap(s@.skip(k as int)),
        decreases s@.len() - k,
    {
        assert(s@.skip(k as int).drop_first() =~= s@.skip(k + 1));
        k = k + 1;
    }
    k
}

/// The text of each piece.
spec fn texts(v: Seq<Vec<char>>) -> Seq<Seq<char>> {
    v.map_values(|p: Vec<char>| p@)
}

/// A copy of some characters.
fn copy_chars(s: &[char]) -> (v: Vec<char>)
    ensures
        v@ == s@,
{
    let mut v: Vec<char> = Vec::new();
    let mut i: usize = 0;
    while i < s.len()
        invariant
            i <= s@.len(),
            v@ == s@.take(i as int),
        decreases s@.len() - i,
    {
        v.push(s[i]);
        i = i + 1;
    }
    v
}

/// Cuts a text at each separator.
fn split(s: &[char], sep: char) -> (v: Vec<Vec<char>>)
    ensures
        texts(v@) == pieces(s@, sep),
        v@.len() > 0,
{
    let mut v: Vec<Vec<char>> = Vec::new();
    let mut from: usize = 0;
    assert(s@.skip(0) =~= s@);
    assert(texts(v@) + pieces(s@, sep) =~= pieces(s@, sep));
    loop
        invariant_except_break
            from <= s@.len(),
            texts(v@) + pieces(s@.skip(from as int), sep) == pieces(s@, sep),
        ensures
            texts(v@) == pieces(s@, sep),
            v@.len() > 0,
        decreases s@.len() - from,
    {
        let rest = slice_subrange(s, from, s.len());
        assert(rest@ =~= s@.skip(from as int));
        let k = find(rest, sep);
        let ghost sofar = texts(v@);
        if k < rest.len() {
            v.push(copy_chars(slice_subrange(rest, 0, k)));
            assert(texts(v@) =~= sofar.push(rest@.take(k as int)));
            assert(rest@.skip(k + 1) =~= s@.skip(from + k + 1));
            assert(texts(v@) + pieces(s@.skip(from + k + 1), sep) =~= sofar + (seq![
                rest@.take(k as int),
            ] + pieces(s@.skip(from + k + 1), sep)));
            from = from + k + 1;
        } else {
            v.push(copy_chars(rest));
            assert(texts(v@) =~= sofar + seq![rest@]);
            break;
        }
    }
    v
}

/// The value of a hexadecimal digit; 16 for anything else.
fn digit(c: char) -> (d: u64)
    ensures
        d == digit_value(c),
        d <= 16,
{
    let u: u64 = c as u64;
    if 0x30 <= u && u <= 0x39 {
        u - 0x30
    } else if 0x41 <= u && u <= 0x46 {
        u - 0x41 + 10
    } else if 0x61 <= u && u <= 0x66 {
        u - 0x61 + 10
    } else {
        16
    }
}

/// Leading digits never write more than the whole number.
proof fn lemma_number_grows(s: Seq<char>, radix: nat, i: int)
    requires
        0 <= i <= s.len(),
        radix >= 1,
    ensures
        number(s.take(i), radix) <= number(s, radix),
    decreases s.len() - i,
{
    if i < s.len() {
        lemma_number_grows(s, radix, i + 1);
        let t = s.take(i + 1);
        assert(t.drop_last() =~= s.take(i));
        let n = number(s.take(i), radix);
        assert(n <= n * radix) by (nonlinear_arith)
            requires
                radix >= 1,
        ;
    } else {
        assert(s.take(i) =~= s);
    }
}

/// Reads a number in base `radix` of at most `max`.
fn parse_number(s: &[char], radix: u64, max: u64) -> (r: Option<u64>)
    requires
        2 <= radix <= 16,
        max <= 0xffff_ffff,
    ensures
        match r {
            Some(n) => bounded_number(s@, radix as nat, max as nat) == Some(n as nat),
            None => bounded_number(s@, radix as nat, max as nat) is None,
        },
{
    let mut n: u64 = 0;
    let mut i: usize = 0;
    while i < s.len()
        invariant
            i <= s@.len(),
            2 <= radix <= 16,
            n <= max <= 0xffff_ffff,
            n == number(s@.take(i as int), radix as nat),
            forall|j: int| 0 <= j < i ==> digit_value(#[trigger] s@[j]) < radix,
        decreases s@.len() - i,
    {
        let d = digit(s[i]);
        if d >= radix {
            assert(!is_number(s@, radix as nat));
            return None;
        }
        assert(n * radix <= 0xffff_ffff * 16) by (nonlinear_arith)
            requires
                n <= 0xffff_ffff,
                radix <= 16,
        ;
        assert(s@.take(i + 1).drop_last() =~= s@.take(i as int));
        let next: u64 = n * radix + d;
        if next > max {
            proof {
                lemma_number_grows(s@, radix as nat, i + 1);
            }
            return None;
        }
        n = next;
        i = i + 1;
    }
    assert(s@.take(i as int) =~= s@);
    if s.len() == 0 {
        None
    } else {
        Some(n)
    }
}

/// Reads one part of a dotted quad.
fn parse_octet(s: &[char]) -> (r: Option<u64>)
    ensures
        match r {
            Some(n) => octet(s@) == Some(n as nat),
            None => octet(s@) is None,
        },
{
    if s.len() > 3 || (s.len() > 1 && s[0] == '0') {
        None
    } else {
        parse_number(s, 10, 255)
    }
}

/// Reads an IPv4 address.
pub fn parse_ipv4(s: &[char]) -> (r: Option<u32>)
    ensures
        r == ipv4(s@),
{
    let p = split(s, '.');
    if p.len() != 4 {
        return None;
    }
    assert(texts(p@)[0] == p@[0]@ && texts(p@)[1] == p@[1]@ && texts(p@)[2] == p@[2]@ && texts(
        p@,
    )[3] == p@[3]@);
    match (
        parse_octet(p[0].as_slice()),
        parse_octet(p[1].as_slice()),
        parse_octet(p[2].as_slice()),
        parse_octet(p[3].as_slice()),
    ) {
        (Some(a), Some(b), Some(c), Some(d)) => Some(
            (a * 0x100_0000 + b * 0x1_0000 + c * 0x100 + d) as u32,
        ),
        _ => None,
    }
}

proof fn lemma_number_width(s: Seq<char>)
    requires
        s.len() <= 4,
        is_number(s, 16),
    ensures
        number(s, 16) <= 0xffff,
{
    reveal_with_fuel(number, 5);
}

/// Reads one group of an IPv6 address.
fn parse_group(s: &[char]) -> (r: Option<u16>)
    ensures
        r == group(s@),
{
    proof {
        if s@.len() <= 4 && is_number(s@, 16) {
            lemma_number_width(s@);
        }
    }
    if s.len() > 4 {
        return None;
    }
    match parse_number(s, 16, 0xffff) {
        Some(n) => Some(n as u16),
        None => None,
    }
}

/// Reads the groups of one side of an IPv6 address.
fn parse_side(s: &[char], dotted: bool) -> (r: Option<Vec<u16>>)
    ensures
        match r {
            Some(g) => side(s@, dotted) == Some(g@),
            None => side(s@, dotted) is None,
        },
{
    let mut g: Vec<u16> = Vec::new();
    if s.len() == 0 {
        assert(g@ =~= seq![]);
        return Some(g);
    }
    let p = split(s, ':');
    let ghost t = texts(p@);
    let mut i: usize = 0;
    while i < p.len()
        invariant
            i <= p@.len(),
            p@.len() > 0,
            s@.len() > 0,
            t == texts(p@),
            t == pieces(s@, ':'),
            g@ == group_values(t.take(i as int)),
            forall|j: int| 0 <= j < i ==> group(#[trigger] t[j]) is Some,
        decreases p@.len() - i,
    {
        assert(t[i as int] == p@[i as int]@);
        match parse_group(p[i].as_slice()) {
            Some(v) => {
                g.push(v);
                assert(g@ =~= group_values(t.take(i + 1)));
            },
            None => {
                assert(!all_groups(t));
                if dotted && i == p.len() - 1 {
                    assert(t.last() == p@[i as int]@);
                    assert(t.take(i as int) =~= t.drop_last());
                    match parse_ipv4(p[i].as_slice()) {
                        Some(quad) => {
                            g.push((quad / 0x1_0000) as u16);
                            g.push((quad % 0x1_0000) as u16);
                            assert(g@ =~= group_values(t.drop_last()) + seq![
                                (quad / 0x1_0000) as u16,
                                (quad % 0x1_0000) as u16,
                            ]);
                            return Some(g);
                        },
                        None => {
                            return None;
                        },
                    }
                }
                proof {
                    if dotted {
                        assert(t.drop_last()[i as int] == t[i as int]);
                    }
                }
                return None;
            },
        }
        i = i + 1;
    }
    assert(t.take(i as int) =~= t);
    Some(g)
}

/// Packs eight groups into one number.
fn pack_groups(g: &Vec<u16>) -> (r: u128)
    requires
        g@.len() == 8,
    ensures
        r == join_groups(g@),
{
    proof {
        reveal_with_fuel(join_groups, 9);
    }
    let high: u128 = ((g[0] as u128 * 0x1_0000 + g[1] as u128) * 0x1_0000 + g[2] as u128) * 0x1_0000
        + g[3] as u128;
    let low: u128 = ((g[4] as u128 * 0x1_0000 + g[5] as u128) * 0x1_0000 + g[6] as u128) * 0x1_0000
        + g[7] as u128;
    high * 0x1_0000_0000_0000_0000 + low
}

/// Reads an IPv6 address.
pub fn parse_ipv6(s: &[char]) -> (r: Option<u128>)
    ensures
        r == ipv6(s@),
{
    let k = find_gap(s);
    if k == s.len() {
        return match parse_side(s, true) {
            Some(g) => if g.len() == 8 {
                Some(pack_groups(&g))
            } else {
                None
            },
            None => None,
        };
    }
    let head_text = slice_subrange(s, 0, k);
    let tail_text = slice_subrange(s, k + 2, s.len());
    assert(head_text@ =~= s@.take(k as int));
    assert(tail_text@ =~= s@.skip(k + 2));
    let head = parse_side(head_text, false);
    let tail = parse_side(tail_text, true);
    match (head, tail) {
        (Some(mut g), Some(t)) => {
            if g.len() > 7 || t.len() > 7 - g.len() {
                return None;
            }
            let ghost head_groups = g@;
            let zeros: usize = 8 - g.len() - t.len();
            let mut i: usize = 0;
            while i < zeros
                invariant
                    i <= zeros,
                    g@ == head_groups + Seq::new(i as nat, |j: int| 0u16),
                decreases zeros - i,
            {
                g.push(0);
                i = i + 1;
                assert(g@ =~= head_groups + Seq::new(i as nat, |j: int| 0u16));
            }
            let ghost front = g@;
            let mut j: usize = 0;
            while j < t.len()
                invariant
                    j <= t@.len(),
                    g@ == front + t@.take(j as int),
                decreases t@.len() - j,
            {
                g.push(t[j]);
                j = j + 1;
                assert(g@ =~= front + t@.take(j as int));
            }
            assert(g@ =~= head_groups + Seq::new(
                (8 - head_groups.len() - t@.len()) as nat,
                |i: int| 0u16,
            ) + t@);
            Some(pack_groups(&g))
        },
        _ => None,
    }
}

/// Reads an IP address of either version.
pub fn parse_ip(s: &[char]) -> (r: Option<IpAddr>)
    ensures
        r == ip_addr(s@),
{
    match parse_ipv4(s) {
        Some(bits) => Some(IpAddr::V4(bits)),
        None => match parse_ipv6(s) {
            Some(bits) => Some(IpAddr::V6(bits)),
            None => None,
        },
    }
}

/// Reads `IPV4:PORT`.
fn parse_socket_v4(s: &[char]) -> (r: Option<SocketAddr>)
    ensures
        r == socket_v4(s@),
{
    let k = find(s, ':');
    if k == s.len() {
        return None;
    }
    let host = slice_subrange(s, 0, k);
    let port = slice_subrange(s, k + 1, s.len());
    assert(host@ =~= s@.take(k as int));
    assert(port@ =~= s@.skip(k + 1));
    match (parse_ipv4(host), parse_number(port, 10, 0xffff)) {
        (Some(bits), Some(port)) => Some(
            SocketAddr { ip: IpAddr::V4(bits), port: port as u16, scope_id: 0 },
        ),
        _ => None,
    }
}

/// Reads what stands between the brackets of an IPv6 socket address.
fn parse_scoped_ipv6(s: &[char]) -> (r: Option<(u128, u32)>)
    ensures
        r == scoped_ipv6(s@),
{
    let k = find(s, '%');
    if k == s.len() {
        return match parse_ipv6(s) {
            Some(bits) => Some((bits, 0)),
            None => None,
        };
    }
    let host = slice_subrange(s, 0, k);
    let scope = slice_subrange(s, k + 1, s.len());
    assert(host@ =~= s@.take(k as int));
    assert(scope@ =~= s@.skip(k + 1));
    match (parse_ipv6(host), parse_number(scope, 10, 0xffff_ffff)) {
        (Some(bits), Some(scope)) => Some((bits, scope as u32)),
        _ => None,
    }
}

/// Reads `[IPV6]:PORT`.
fn parse_socket_v6(s: &[char]) -> (r: Option<SocketAddr>)
    ensures
        r == socket_v6(s@),
{
    let k = find(s, ']');
    if s.len() == 0 || s[0] != '[' || k >= s.len() - 1 || s[k + 1] != ':' {
        return None;
    }
    let inner = slice_subrange(s, 1, k);
    let port = slice_subrange(s, k + 2, s.len());
    assert(port@ =~= s@.skip(k + 2));
    match (parse_scoped_ipv6(inner), parse_number(port, 10, 0xffff)) {
        (Some((bits, scope_id)), Some(port)) => Some(
            SocketAddr { ip: IpAddr::V6(bits), port: port as u16, scope_id },
        ),
        _ => None,
    }
}

/// Reads an IP address of either version with a port.
pub fn parse_socket(s: &[char]) -> (r: Option<SocketAddr>)
    ensures
        r == socket_addr(s@),
{
    match parse_socket_v4(s) {
        Some(a) => Some(a),
        None => parse_socket_v6(s),
    }
}

} // verus!
