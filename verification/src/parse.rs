//! The address grammar: `host:port`, where the host is an IPv4 literal, an
//! IPv6 literal in brackets, or a domain name, and the port a decimal
//! number.
//!
//! The grammar is stated over the bytes of an ASCII string. A string with
//! any other character is no address.

use crate::address::{Address, IpAddr, SocketAddr};
use crate::error::Error;
use vstd::prelude::*;
use vstd::string::{StrSliceExecFns, StringExecFns};

verus! {

/// The place of the first `c` in `s`, or the length of `s` when it holds
/// none.
pub open spec fn find(s: Seq<u8>, c: u8) -> int
    decreases s.len(),
{
    if s.len() == 0 {
        0
    } else if s[0] == c {
        0
    } else {
        1 + find(s.drop_first(), c)
    }
}

/// The place of the last `c` in `s`, or -1 when it holds none.
pub open spec fn rfind(s: Seq<u8>, c: u8) -> int
    decreases s.len(),
{
    if s.len() == 0 {
        -1
    } else if s.last() == c {
        s.len() - 1
    } else {
        rfind(s.drop_last(), c)
    }
}

/// `find` finds the first place, and the length only when there is none.
pub proof fn lemma_find(s: Seq<u8>, c: u8)
    ensures
        0 <= find(s, c) <= s.len(),
        find(s, c) < s.len() ==> s[find(s, c)] == c,
        forall|i: int| 0 <= i < find(s, c) ==> s[i] != c,
    decreases s.len(),
{
    if s.len() > 0 && s[0] != c {
        lemma_find(s.drop_first(), c);
        assert forall|i: int| 0 <= i < find(s, c) implies s[i] != c by {
            if i > 0 {
                assert(s.drop_first()[i - 1] != c);
            }
        }
    }
}

/// `rfind` finds the last place, and -1 only when there is none.
pub proof fn lemma_rfind(s: Seq<u8>, c: u8)
    ensures
        -1 <= rfind(s, c) < s.len(),
        rfind(s, c) >= 0 ==> s[rfind(s, c)] == c,
        forall|i: int| rfind(s, c) < i < s.len() ==> s[i] != c,
    decreases s.len(),
{
    if s.len() > 0 && s.last() != c {
        lemma_rfind(s.drop_last(), c);
        assert forall|i: int| rfind(s, c) < i < s.len() implies s[i] != c by {
            if i < s.len() - 1 {
                assert(s.drop_last()[i] != c);
            }
        }
    }
}

/// Whether `c` is a decimal digit.
pub open spec fn is_digit(c: u8) -> bool {
    48 <= c <= 57
}

/// What the hexadecimal digit `c` stands for; 16 when it is none.
pub open spec fn hex_value(c: u8) -> int {
    if 48 <= c <= 57 {
        c - 48
    } else if 97 <= c <= 102 {
        c - 87
    } else if 65 <= c <= 70 {
        c - 55
    } else {
        16
    }
}

/// Every byte of `s` is a digit to the base `base`, which is 10 or 16.
pub open spec fn all_digits(s: Seq<u8>, base: int) -> bool {
    forall|i: int| 0 <= i < s.len() ==> hex_value(#[trigger] s[i]) < base
}

/// The number that the digits of `s` spell to the base `base`.
pub open spec fn number(s: Seq<u8>, base: int) -> int
    decreases s.len(),
{
    if s.len() == 0 {
        0
    } else {
        number(s.drop_last(), base) * base + hex_value(s.last())
    }
}

/// The number that `s` spells to the base `base`, if it is made of one to
/// `width` digits and spells no more than `max`.
pub open spec fn parse_number(s: Seq<u8>, base: int, width: int, max: int) -> Option<int> {
    if 1 <= s.len() <= width && all_digits(s, base) && number(s, base) <= max {
        Some(number(s, base))
    } else {
        None
    }
}

/// A port: one to five decimal digits that spell no more than 65535.
pub open spec fn parse_port(s: Seq<u8>) -> Option<int> {
    parse_number(s, 10, 5, 65535)
}

/// An octet of an IPv4 literal: one to three decimal digits that spell no
/// more than 255, without a leading zero.
pub open spec fn parse_octet(s: Seq<u8>) -> Option<int> {
    if s.len() > 1 && s[0] == 48 {
        None
    } else {
        parse_number(s, 10, 3, 255)
    }
}

/// A group of an IPv6 literal: one to four hexadecimal digits.
pub open spec fn parse_group(s: Seq<u8>) -> Option<int> {
    parse_number(s, 16, 4, 65535)
}

/// An IPv4 literal: four octets with a dot between them.
pub open spec fn parse_ipv4(s: Seq<u8>) -> Option<IpAddr> {
    let d1 = find(s, 46);
    let r1 = s.skip(d1 + 1);
    let d2 = find(r1, 46);
    let r2 = r1.skip(d2 + 1);
    let d3 = find(r2, 46);
    let r3 = r2.skip(d3 + 1);
    if d1 >= s.len() || d2 >= r1.len() || d3 >= r2.len() {
        None
    } else {
        match (
            parse_octet(s.take(d1)),
            parse_octet(r1.take(d2)),
            parse_octet(r2.take(d3)),
            parse_octet(r3),
        ) {
            (Some(a), Some(b), Some(c), Some(d)) => Some(
                IpAddr::V4(a as u8, b as u8, c as u8, d as u8),
            ),
            _ => None,
        }
    }
}

/// The parts of `s` between its colons, in order. A string without a
/// colon is one part.
pub open spec fn split(s: Seq<u8>) -> Seq<Seq<u8>>
    decreases s.len(),
{
    let i = find(s, 58);
    if i < 0 || i >= s.len() {
        seq![s]
    } else {
        seq![s.take(i)] + split(s.skip(i + 1))
    }
}

/// The parts of an IPv6 literal without the empty part that a `::` at its
/// start or at its end leaves beside the one that stands for the `::`.
/// Nothing when the literal is empty, or begins or ends with a single
/// colon.
pub open spec fn trimmed(parts: Seq<Seq<u8>>) -> Option<Seq<Seq<u8>>> {
    let n = parts.len();
    if n == 1 && parts[0].len() == 0 {
        None
    } else if n >= 2 && parts[0].len() == 0 && parts[1].len() != 0 {
        None
    } else if n >= 2 && parts[n - 1].len() == 0 && parts[n - 2].len() != 0 {
        None
    } else {
        let front = if n >= 2 && parts[0].len() == 0 {
            parts.drop_first()
        } else {
            parts
        };
        let m = front.len();
        Some(
            if m >= 2 && front[m - 1].len() == 0 {
                front.drop_last()
            } else {
                front
            },
        )
    }
}

/// The place of the first empty part, or the number of parts when none is
/// empty.
pub open spec fn first_empty(parts: Seq<Seq<u8>>) -> int
    decreases parts.len(),
{
    if parts.len() == 0 {
        0
    } else if parts[0].len() == 0 {
        0
    } else {
        1 + first_empty(parts.drop_first())
    }
}

/// Every part is a group.
pub open spec fn all_groups(parts: Seq<Seq<u8>>) -> bool {
    forall|i: int| 0 <= i < parts.len() ==> parse_group(#[trigger] parts[i]) is Some
}

/// The values of the groups.
pub open spec fn group_values(parts: Seq<Seq<u8>>) -> Seq<int> {
    Seq::new(parts.len(), |i: int| parse_group(parts[i])->Some_0)
}

/// The eight segments that the parts of an IPv6 literal stand for: the
/// groups as they come, with as many zeros in the place of the one empty
/// part as it takes to make eight. Nothing when a part is no group, when
/// more than one part is empty, or when the groups are too many or, with
/// no empty part, too few.
pub open spec fn segments(parts: Seq<Seq<u8>>) -> Option<Seq<int>> {
    let e = first_empty(parts);
    if e >= parts.len() {
        if parts.len() == 8 && all_groups(parts) {
            Some(group_values(parts))
        } else {
            None
        }
    } else {
        let head = parts.take(e);
        let tail = parts.skip(e + 1);
        if head.len() + tail.len() <= 7 && all_groups(head) && all_groups(tail) {
            Some(
                group_values(head) + Seq::new(
                    (8 - head.len() - tail.len()) as nat,
                    |i: int| 0int,
                ) + group_values(tail),
            )
        } else {
            None
        }
    }
}

/// An IPv6 literal: eight groups with a colon between them, where one run
/// of groups that are zero may be left out and written `::`. An embedded
/// IPv4 literal and a zone are not part of this grammar.
pub open spec fn parse_ipv6(s: Seq<u8>) -> Option<IpAddr> {
    match trimmed(split(s)) {
        Some(parts) => match segments(parts) {
            Some(v) => Some(
                IpAddr::V6(
                    v[0] as u16,
                    v[1] as u16,
                    v[2] as u16,
                    v[3] as u16,
                    v[4] as u16,
                    v[5] as u16,
                    v[6] as u16,
                    v[7] as u16,
                ),
            ),
            None => None,
        },
        None => None,
    }
}

/// Whether `c` may stand in a domain name: a letter, a digit, a hyphen, an
/// underscore or a dot.
pub open spec fn is_domain_char(c: u8) -> bool {
    (97 <= c <= 122) || (65 <= c <= 90) || (48 <= c <= 57) || c == 45 || c == 95 || c == 46
}

/// A domain name: labels of letters, digits, hyphens and underscores with
/// a dot between them, none of them empty.
pub open spec fn is_domain(s: Seq<u8>) -> bool {
    &&& s.len() > 0
    &&& forall|i: int| 0 <= i < s.len() ==> is_domain_char(#[trigger] s[i])
    &&& s[0] != 46
    &&& s.last() != 46
    &&& forall|i: int| 0 <= i < s.len() - 1 ==> !(#[trigger] s[i] == 46 && s[i + 1] == 46)
}

/// What an address string stands for.
pub enum Parsed {
    /// An IP address and a port.
    Ip(SocketAddr),
    /// A domain name, which is the first so many bytes of the string, and a
    /// port.
    Domain(int, u16),
}

/// What the bytes of an address string stand for: the host before the last
/// colon and the port behind it. A host in brackets is an IPv6 literal; a
/// host that reads as an IPv4 literal is one; every other host is a domain
/// name.
pub open spec fn parse_address(s: Seq<u8>) -> Option<Parsed> {
    let k = rfind(s, 58);
    if k < 0 {
        None
    } else {
        let host = s.take(k);
        match parse_port(s.skip(k + 1)) {
            None => None,
            Some(port) => if host.len() >= 2 && host[0] == 91 && host.last() == 93 {
                match parse_ipv6(host.subrange(1, host.len() - 1)) {
                    Some(ip) => Some(Parsed::Ip(SocketAddr { ip, port: port as u16 })),
                    None => None,
                }
            } else {
                match parse_ipv4(host) {
                    Some(ip) => Some(Parsed::Ip(SocketAddr { ip, port: port as u16 })),
                    None => if is_domain(host) {
                        Some(Parsed::Domain(k, port as u16))
                    } else {
                        None
                    },
                }
            },
        }
    }
}

/// The place of the last `c` in `bytes`, if it holds one.
fn rfind_byte(bytes: &[u8], c: u8) -> (r: Option<usize>)
    ensures
        match r {
            Some(i) => rfind(bytes@, c) == i && i < bytes@.len(),
            None => rfind(bytes@, c) == -1,
        },
{
    let mut i: usize = bytes.len();
    assert(bytes@.take(i as int) =~= bytes@);
    while i > 0
        invariant
            i <= bytes@.len(),
            rfind(bytes@, c) == rfind(bytes@.take(i as int), c),
        decreases i,
    {
        proof {
            let head = bytes@.take(i as int);
            assert(head.drop_last() =~= bytes@.take(i - 1));
            assert(head.last() == bytes@[i - 1]);
        }
        i -= 1;
        if bytes[i] == c {
            return Some(i);
        }
    }
    None
}

/// What the digit `c` stands for; 16 when it is none.
fn digit_value(c: u8) -> (r: u32)
    ensures
        r == hex_value(c),
{
    if 48 <= c && c <= 57 {
        (c - 48) as u32
    } else if 97 <= c && c <= 102 {
        (c - 87) as u32
    } else if 65 <= c && c <= 70 {
        (c - 55) as u32
    } else {
        16
    }
}

/// The number spelled by at most `width` digits is less than 16 to the
/// power `width`; for five digits that is 1048576.
proof fn lemma_number_bound(s: Seq<u8>, base: int)
    requires
        base == 10 || base == 16,
        all_digits(s, base),
        s.len() <= 5,
    ensures
        0 <= number(s, base),
        s.len() == 0 ==> number(s, base) == 0,
        s.len() == 1 ==> number(s, base) < 16,
        s.len() == 2 ==> number(s, base) < 256,
        s.len() == 3 ==> number(s, base) < 4096,
        s.len() == 4 ==> number(s, base) < 65536,
        s.len() == 5 ==> number(s, base) < 1048576,
    decreases s.len(),
{
    if s.len() > 0 {
        assert(hex_value(s.last()) < base);
        assert forall|i: int| 0 <= i < s.drop_last().len() implies hex_value(
            #[trigger] s.drop_last()[i],
        ) < base by {
            assert(s.drop_last()[i] == s[i]);
        }
        lemma_number_bound(s.drop_last(), base);
    }
}

/// Reads `bytes[from..to]` as a number of one to `width` digits to the
/// base `base` that is no more than `max`.
fn read_number(bytes: &[u8], from: usize, to: usize, base: u32, width: usize, max: u32) -> (r:
    Option<u32>)
    requires
        from <= to <= bytes@.len(),
        base == 10 || base == 16,
        width <= 5,
    ensures
        match r {
            Some(v) => parse_number(
                bytes@.subrange(from as int, to as int),
                base as int,
                width as int,
                max as int,
            ) == Some(v as int),
            None => parse_number(
                bytes@.subrange(from as int, to as int),
                base as int,
                width as int,
                max as int,
            ) is None,
        },
{
    let ghost s = bytes@.subrange(from as int, to as int);
    if to - from < 1 || to - from > width {
        return None;
    }
    let mut value: u32 = 0;
    let mut i: usize = from;
    assert(s.take(0) =~= Seq::<u8>::empty());
    while i < to
        invariant
            from <= i <= to <= bytes@.len(),
            to - from <= 5,
            base == 10 || base == 16,
            s == bytes@.subrange(from as int, to as int),
            all_digits(s.take(i - from), base as int),
            value == number(s.take(i - from), base as int),
        decreases to - i,
    {
        let d = digit_value(bytes[i]);
        assert(s[i - from] == bytes@[i as int]);
        if d >= base {
            assert(!all_digits(s, base as int));
            return None;
        }
        proof {
            let head = s.take(i - from);
            let next = s.take(i - from + 1);
            assert(next.drop_last() =~= head);
            assert(next.last() == s[i - from]);
            assert forall|j: int| 0 <= j < next.len() implies hex_value(#[trigger] next[j])
                < base by {
                if j < head.len() {
                    assert(next[j] == head[j]);
                }
            }
            lemma_number_bound(head, base as int);
            lemma_number_bound(next, base as int);
        }
        value = value * base + d;
        i += 1;
    }
    assert(s.take(to - from) =~= s);
    if value > max {
        None
    } else {
        Some(value)
    }
}

/// Reads `bytes[from..to]` as an octet of an IPv4 literal.
fn read_octet(bytes: &[u8], from: usize, to: usize) -> (r: Option<u8>)
    requires
        from <= to <= bytes@.len(),
    ensures
        match r {
            Some(v) => parse_octet(bytes@.subrange(from as int, to as int)) == Some(v as int),
            None => parse_octet(bytes@.subrange(from as int, to as int)) is None,
        },
{
    if to - from > 1 && bytes[from] == 48 {
        assert(bytes@.subrange(from as int, to as int)[0] == bytes@[from as int]);
        return None;
    }
    if to > from {
        assert(bytes@.subrange(from as int, to as int)[0] == bytes@[from as int]);
    }
    match read_number(bytes, from, to, 10, 3, 255) {
        Some(v) => Some(v as u8),
        None => None,
    }
}

/// Reads `bytes[from..to]` as an IPv4 literal.
fn read_ipv4(bytes: &[u8], from: usize, to: usize) -> (r: Option<IpAddr>)
    requires
        from <= to <= bytes@.len(),
    ensures
        r == parse_ipv4(bytes@.subrange(from as int, to as int)),
{
    let ghost s = bytes@.subrange(from as int, to as int);
    let ghost all = bytes@;
    let d1 = find_in(bytes, 46, from, to);
    if d1 >= to {
        return None;
    }
    let ghost r1 = s.skip(d1 - from + 1);
    assert(r1 =~= all.subrange(d1 + 1, to as int));
    let d2 = find_in(bytes, 46, d1 + 1, to);
    if d2 >= to {
        return None;
    }
    let ghost r2 = r1.skip(d2 - d1);
    assert(r2 =~= all.subrange(d2 + 1, to as int));
    let d3 = find_in(bytes, 46, d2 + 1, to);
    if d3 >= to {
        return None;
    }
    let ghost r3 = r2.skip(d3 - d2);
    assert(r3 =~= all.subrange(d3 + 1, to as int));
    assert(s.take(d1 - from) =~= all.subrange(from as int, d1 as int));
    assert(r1.take(d2 - d1 - 1) =~= all.subrange(d1 + 1, d2 as int));
    assert(r2.take(d3 - d2 - 1) =~= all.subrange(d2 + 1, d3 as int));
    let a = read_octet(bytes, from, d1);
    let b = read_octet(bytes, d1 + 1, d2);
    let c = read_octet(bytes, d2 + 1, d3);
    let d = read_octet(bytes, d3 + 1, to);
    match (a, b, c, d) {
        (Some(a), Some(b), Some(c), Some(d)) => Some(IpAddr::V4(a, b, c, d)),
        _ => None,
    }
}

/// The place of the first `c` in `bytes[from..to]`, or `to`.
fn find_in(bytes: &[u8], c: u8, from: usize, to: usize) -> (r: usize)
    requires
        from <= to <= bytes@.len(),
    ensures
        r == from + find(bytes@.subrange(from as int, to as int), c),
        from <= r <= to,
{
    let ghost s = bytes@.subrange(from as int, to as int);
    let mut i: usize = from;
    assert(s.skip(0) =~= s);
    while i < to
        invariant
            from <= i <= to <= bytes@.len(),
            s == bytes@.subrange(from as int, to as int),
            find(s, c) == (i - from) + find(s.skip(i - from), c),
        decreases to - i,
    {
        assert(s.skip(i - from)[0] == bytes@[i as int]);
        if bytes[i] == c {
            return i;
        }
        assert(s.skip(i - from).drop_first() =~= s.skip(i - from + 1));
        i += 1;
    }
    assert(s.skip(to - from) =~= Seq::<u8>::empty());
    i
}

/// The parts of `bytes` that `ranges` mark out, each from its first bound
/// up to its second.
pub open spec fn parts_of(bytes: Seq<u8>, ranges: Seq<(usize, usize)>) -> Seq<Seq<u8>> {
    Seq::new(ranges.len(), |i: int| bytes.subrange(ranges[i].0 as int, ranges[i].1 as int))
}

/// Every range lies within `bytes[from..to]`.
pub open spec fn ranges_ok(ranges: Seq<(usize, usize)>, from: int, to: int) -> bool {
    forall|i: int|
        0 <= i < ranges.len() ==> from <= (#[trigger] ranges[i]).0 <= ranges[i].1 <= to
}

/// Marks out the parts of `bytes[from..to]` between its colons.
fn split_ranges(bytes: &[u8], from: usize, to: usize) -> (ranges: Vec<(usize, usize)>)
    requires
        from <= to <= bytes@.len(),
    ensures
        ranges_ok(ranges@, from as int, to as int),
        parts_of(bytes@, ranges@) == split(bytes@.subrange(from as int, to as int)),
        ranges@.len() >= 1,
{
    let ghost all = bytes@;
    let mut ranges: Vec<(usize, usize)> = Vec::new();
    let mut pos: usize = from;
    assert(parts_of(all, ranges@) =~= Seq::<Seq<u8>>::empty());
    loop
        invariant_except_break
            from <= pos <= to <= bytes@.len(),
            all == bytes@,
            ranges_ok(ranges@, from as int, to as int),
            split(all.subrange(from as int, to as int)) == parts_of(all, ranges@) + split(
                all.subrange(pos as int, to as int),
            ),
        ensures
            all == bytes@,
            ranges_ok(ranges@, from as int, to as int),
            parts_of(all, ranges@) == split(all.subrange(from as int, to as int)),
            ranges@.len() >= 1,
        decreases to - pos,
    {
        let ghost rest = all.subrange(pos as int, to as int);
        let ghost before = ranges@;
        let i = find_in(bytes, 58, pos, to);
        proof {
            lemma_find(rest, 58);
        }
        if i >= to {
            ranges.push((pos, to));
            assert(parts_of(all, ranges@) =~= parts_of(all, before) + seq![rest]);
            break ;
        }
        ranges.push((pos, i));
        proof {
            assert(rest.take(i - pos) =~= all.subrange(pos as int, i as int));
            assert(rest.skip(i - pos + 1) =~= all.subrange(i + 1, to as int));
            assert(parts_of(all, ranges@) =~= parts_of(all, before) + seq![rest.take(i - pos)]);
            assert(parts_of(all, before) + (seq![rest.take(i - pos)] + split(
                rest.skip(i - pos + 1),
            )) =~= parts_of(all, ranges@) + split(all.subrange(i + 1, to as int)));
        }
        pos = i + 1;
    }
    ranges
}

/// The 16-bit values as integers.
pub open spec fn ints(v: Seq<u16>) -> Seq<int> {
    Seq::new(v.len(), |i: int| v[i] as int)
}

/// Reads the parts that `ranges[a..b]` mark out as groups of an IPv6
/// literal.
fn read_groups(bytes: &[u8], ranges: &Vec<(usize, usize)>, a: usize, b: usize) -> (r: Option<
    Vec<u16>,
>)
    requires
        a <= b <= ranges@.len(),
        ranges_ok(ranges@, 0, bytes@.len() as int),
    ensures
        match r {
            Some(v) => all_groups(parts_of(bytes@, ranges@).subrange(a as int, b as int))
                && ints(v@) == group_values(
                parts_of(bytes@, ranges@).subrange(a as int, b as int),
            ),
            None => !all_groups(parts_of(bytes@, ranges@).subrange(a as int, b as int)),
        },
{
    let ghost parts = parts_of(bytes@, ranges@).subrange(a as int, b as int);
    let mut out: Vec<u16> = Vec::new();
    let mut i: usize = a;
    assert(ints(out@) =~= group_values(parts.take(0)));
    while i < b
        invariant
            a <= i <= b <= ranges@.len(),
            ranges_ok(ranges@, 0, bytes@.len() as int),
            parts == parts_of(bytes@, ranges@).subrange(a as int, b as int),
            all_groups(parts.take(i - a)),
            ints(out@) == group_values(parts.take(i - a)),
        decreases b - i,
    {
        let r = ranges[i];
        assert(parts[i - a] == bytes@.subrange(r.0 as int, r.1 as int));
        match read_number(bytes, r.0, r.1, 16, 4, 65535) {
            Some(v) => {
                let ghost before = out@;
                out.push(v as u16);
                proof {
                    let head = parts.take(i - a);
                    let next = parts.take(i - a + 1);
                    assert forall|j: int| 0 <= j < next.len() implies parse_group(
                        #[trigger] next[j],
                    ) is Some by {
                        if j < head.len() {
                            assert(next[j] == head[j]);
                        }
                    }
                    assert(ints(before).len() == group_values(head).len());
                    assert(before.len() == head.len());
                    assert(out@.len() == next.len());
                    assert(ints(out@) =~= group_values(next)) by {
                        assert forall|j: int| 0 <= j < next.len() implies ints(out@)[j]
                            == group_values(next)[j] by {
                            if j < head.len() {
                                assert(out@[j] == before[j]);
                                assert(ints(before)[j] == group_values(head)[j]);
                                assert(next[j] == head[j]);
                            } else {
                                assert(next[j] == parts[i - a]);
                            }
                        }
                    }
                }
            },
            None => {
                assert(parse_group(parts[i - a]) is None);
                return None;
            },
        }
        i += 1;
    }
    assert(parts.take(b - a) =~= parts);
    Some(out)
}

/// The place of the first empty part among those that `ranges[lo..hi]`
/// mark out, or `hi`.
fn find_empty(bytes: &[u8], ranges: &Vec<(usize, usize)>, lo: usize, hi: usize) -> (e: usize)
    requires
        lo <= hi <= ranges@.len(),
        ranges_ok(ranges@, 0, bytes@.len() as int),
    ensures
        lo <= e <= hi,
        e - lo == first_empty(parts_of(bytes@, ranges@).subrange(lo as int, hi as int)),
{
    let ghost parts = parts_of(bytes@, ranges@).subrange(lo as int, hi as int);
    let mut i: usize = lo;
    assert(parts.skip(0) =~= parts);
    while i < hi
        invariant
            lo <= i <= hi <= ranges@.len(),
            ranges_ok(ranges@, 0, bytes@.len() as int),
            parts == parts_of(bytes@, ranges@).subrange(lo as int, hi as int),
            first_empty(parts) == (i - lo) + first_empty(parts.skip(i - lo)),
        decreases hi - i,
    {
        let r = ranges[i];
        assert(parts.skip(i - lo)[0] == bytes@.subrange(r.0 as int, r.1 as int));
        if r.0 == r.1 {
            return i;
        }
        assert(parts.skip(i - lo).drop_first() =~= parts.skip(i - lo + 1));
        i += 1;
    }
    assert(parts.skip(hi - lo) =~= Seq::<Seq<u8>>::empty());
    i
}

/// Whether the part that `ranges[i]` marks out is empty.
fn empty_at(bytes: &[u8], ranges: &Vec<(usize, usize)>, i: usize) -> (b: bool)
    requires
        i < ranges@.len(),
        ranges_ok(ranges@, 0, bytes@.len() as int),
    ensures
        b == (parts_of(bytes@, ranges@)[i as int].len() == 0),
{
    ranges[i].0 == ranges[i].1
}

/// Finds which of the parts stay when the empty part that a `::` at the
/// start or the end of an IPv6 literal leaves over is set aside: those
/// from the first bound up to the second.
fn trim(bytes: &[u8], ranges: &Vec<(usize, usize)>) -> (r: Option<(usize, usize)>)
    requires
        ranges@.len() >= 1,
        ranges_ok(ranges@, 0, bytes@.len() as int),
    ensures
        match r {
            Some((lo, hi)) => lo <= hi <= ranges@.len() && trimmed(parts_of(bytes@, ranges@))
                == Some(parts_of(bytes@, ranges@).subrange(lo as int, hi as int)),
            None => trimmed(parts_of(bytes@, ranges@)) is None,
        },
{
    let ghost all = parts_of(bytes@, ranges@);
    let n = ranges.len();
    if n == 1 && empty_at(bytes, ranges, 0) {
        return None;
    }
    if n >= 2 && empty_at(bytes, ranges, 0) && !empty_at(bytes, ranges, 1) {
        return None;
    }
    if n >= 2 && empty_at(bytes, ranges, n - 1) && !empty_at(bytes, ranges, n - 2) {
        return None;
    }
    let lo: usize = if n >= 2 && empty_at(bytes, ranges, 0) {
        1
    } else {
        0
    };
    let hi: usize = if n - lo >= 2 && empty_at(bytes, ranges, n - 1) {
        n - 1
    } else {
        n
    };
    proof {
        let parts = all.subrange(lo as int, hi as int);
        let front = if n >= 2 && all[0].len() == 0 {
            all.drop_first()
        } else {
            all
        };
        assert(front =~= all.subrange(lo as int, n as int));
        if front.len() >= 2 && front[front.len() - 1].len() == 0 {
            assert(front.drop_last() =~= parts);
        } else {
            assert(front =~= parts);
        }
    }
    Some((lo, hi))
}

/// Puts zeros between `h` and `t`, as many as it takes to make eight.
fn fill(h: &Vec<u16>, t: &Vec<u16>) -> (out: Vec<u16>)
    requires
        h@.len() + t@.len() <= 7,
    ensures
        out@ == h@ + Seq::new((8 - h@.len() - t@.len()) as nat, |j: int| 0u16) + t@,
{
    let zeros: usize = 8 - h.len() - t.len();
    let mut out: Vec<u16> = Vec::new();
    let mut i: usize = 0;
    while i < h.len()
        invariant
            i <= h@.len(),
            out@ == h@.take(i as int),
        decreases h@.len() - i,
    {
        out.push(h[i]);
        assert(out@ =~= h@.take(i + 1));
        i += 1;
    }
    assert(h@.take(h@.len() as int) =~= h@);
    let mut i: usize = 0;
    while i < zeros
        invariant
            i <= zeros,
            out@ == h@ + Seq::new(i as nat, |j: int| 0u16),
        decreases zeros - i,
    {
        out.push(0);
        assert(out@ =~= h@ + Seq::new((i + 1) as nat, |j: int| 0u16));
        i += 1;
    }
    let ghost mid = out@;
    let mut i: usize = 0;
    while i < t.len()
        invariant
            i <= t@.len(),
            out@ == mid + t@.take(i as int),
        decreases t@.len() - i,
    {
        out.push(t[i]);
        assert(out@ =~= mid + t@.take(i + 1));
        i += 1;
    }
    assert(t@.take(t@.len() as int) =~= t@);
    out
}

/// Reads the parts that `ranges[lo..hi]` mark out as the eight segments of
/// an IPv6 literal.
fn read_segments(bytes: &[u8], ranges: &Vec<(usize, usize)>, lo: usize, hi: usize) -> (r: Option<
    Vec<u16>,
>)
    requires
        lo <= hi <= ranges@.len(),
        ranges_ok(ranges@, 0, bytes@.len() as int),
    ensures
        match r {
            Some(v) => segments(parts_of(bytes@, ranges@).subrange(lo as int, hi as int))
                == Some(ints(v@)) && v@.len() == 8,
            None => segments(parts_of(bytes@, ranges@).subrange(lo as int, hi as int)) is None,
        },
{
    let ghost all = parts_of(bytes@, ranges@);
    let ghost parts = all.subrange(lo as int, hi as int);
    let e = find_empty(bytes, ranges, lo, hi);
    if e >= hi {
        if hi - lo != 8 {
            return None;
        }
        match read_groups(bytes, ranges, lo, hi) {
            Some(v) => {
                assert(ints(v@).len() == 8);
                Some(v)
            },
            None => None,
        }
    } else {
        let ghost head = parts.take(e - lo);
        let ghost tail = parts.skip(e - lo + 1);
        assert(head =~= all.subrange(lo as int, e as int));
        assert(tail =~= all.subrange(e + 1, hi as int));
        if (e - lo) + (hi - e - 1) > 7 {
            return None;
        }
        let h = match read_groups(bytes, ranges, lo, e) {
            Some(h) => h,
            None => {
                return None;
            },
        };
        let t = match read_groups(bytes, ranges, e + 1, hi) {
            Some(t) => t,
            None => {
                return None;
            },
        };
        assert(h@.len() == head.len() && t@.len() == tail.len()) by {
            assert(ints(h@).len() == group_values(head).len());
            assert(ints(t@).len() == group_values(tail).len());
        }
        let out = fill(&h, &t);
        proof {
            let want = segments(parts)->Some_0;
            let zeros = 8 - h@.len() - t@.len();
            assert(ints(out@) =~= want) by {
                assert forall|j: int| 0 <= j < 8 implies ints(out@)[j] == want[j] by {
                    if j < h@.len() {
                        assert(ints(h@)[j] == group_values(head)[j]);
                    } else if j < h@.len() + zeros {
                    } else {
                        assert(ints(t@)[j - h@.len() - zeros] == group_values(tail)[j - h@.len()
                            - zeros]);
                    }
                }
            }
        }
        Some(out)
    }
}

/// Reads `bytes[from..to]` as an IPv6 literal.
fn read_ipv6(bytes: &[u8], from: usize, to: usize) -> (r: Option<IpAddr>)
    requires
        from <= to <= bytes@.len(),
    ensures
        r == parse_ipv6(bytes@.subrange(from as int, to as int)),
{
    let ranges = split_ranges(bytes, from, to);
    let (lo, hi) = match trim(bytes, &ranges) {
        Some(r) => r,
        None => {
            return None;
        },
    };
    match read_segments(bytes, &ranges, lo, hi) {
        Some(out) => {
            proof {
                let want = segments(parts_of(bytes@, ranges@).subrange(lo as int, hi as int))->Some_0;
                assert forall|j: int| 0 <= j < 8 implies out@[j] as int == want[j] by {
                    assert(ints(out@)[j] == want[j]);
                }
            }
            Some(IpAddr::V6(out[0], out[1], out[2], out[3], out[4], out[5], out[6], out[7]))
        },
        None => None,
    }
}

/// Whether `bytes[from..to]` is a domain name.
fn check_domain(bytes: &[u8], from: usize, to: usize) -> (r: bool)
    requires
        from <= to <= bytes@.len(),
    ensures
        r == is_domain(bytes@.subrange(from as int, to as int)),
{
    let ghost s = bytes@.subrange(from as int, to as int);
    if to == from {
        return false;
    }
    assert(s[0] == bytes@[from as int]);
    assert(s.last() == bytes@[to - 1]);
    if bytes[from] == 46 || bytes[to - 1] == 46 {
        return false;
    }
    let mut i: usize = from;
    while i < to
        invariant
            from <= i <= to <= bytes@.len(),
            from < to,
            s == bytes@.subrange(from as int, to as int),
            forall|j: int| 0 <= j < i - from ==> is_domain_char(#[trigger] s[j]),
            forall|j: int| 0 <= j < i - from && j < s.len() - 1 ==> !(#[trigger] s[j] == 46 && s[j
                + 1] == 46),
        decreases to - i,
    {
        let c = bytes[i];
        assert(s[i - from] == c);
        let ok = (97 <= c && c <= 122) || (65 <= c && c <= 90) || (48 <= c && c <= 57) || c == 45
            || c == 95 || c == 46;
        if !ok {
            return false;
        }
        if c == 46 && i + 1 < to {
            assert(s[i - from + 1] == bytes@[i + 1]);
            if bytes[i + 1] == 46 {
                return false;
            }
        }
        i += 1;
    }
    true
}

/// The bytes of a string of ASCII characters.
pub open spec fn ascii(s: Seq<char>) -> Seq<u8> {
    Seq::new(s.len(), |i: int| s[i] as u8)
}

/// Whether `r` is what the string `s` reads as: the address that its bytes
/// stand for, with the domain name taken from the string itself; or
/// not-available, for a string that is not ASCII or whose bytes stand for
/// no address.
pub open spec fn reads_as(s: &str, r: Result<Address, Error>) -> bool {
    match r {
        Ok(Address::SocketAddr(a)) => s.is_ascii() && parse_address(ascii(s@)) == Some(
            Parsed::Ip(a),
        ),
        Ok(Address::Domain(d, port)) => {
            &&& s.is_ascii()
            &&& parse_address(ascii(s@)) matches Some(Parsed::Domain(k, p))
            &&& p == port
            &&& d@ == s@.subrange(0, k)
        },
        Err(e) => e == Error::AddrNotAvailable && (!s.is_ascii() || parse_address(ascii(s@))
            is None),
    }
}

/// Reads an address from a string of the form `host:port`.
pub fn read_address(s: &str) -> (r: Result<Address, Error>)
    ensures
        reads_as(s, r),
{
    if !s.is_ascii() {
        return Err(Error::AddrNotAvailable);
    }
    let bytes = s.as_bytes();
    let ghost all = bytes@;
    proof {
        vstd::string::is_ascii_spec_bytes(s);
        assert(all =~= ascii(s@));
        lemma_rfind(all, 58);
    }
    let k = match rfind_byte(bytes, 58) {
        Some(k) => k,
        None => {
            return Err(Error::AddrNotAvailable);
        },
    };
    let n = bytes.len();
    assert(all.skip(k + 1) =~= all.subrange(k + 1, all.len() as int));
    assert(all.take(k as int) =~= all.subrange(0, k as int));
    let port = match read_number(bytes, k + 1, n, 10, 5, 65535) {
        Some(p) => p as u16,
        None => {
            return Err(Error::AddrNotAvailable);
        },
    };
    let ghost host = all.take(k as int);
    if k >= 2 {
        assert(host[0] == all[0]);
        assert(host.last() == all[k - 1]);
    }
    if k >= 2 && bytes[0] == 91 && bytes[k - 1] == 93 {
        assert(host.subrange(1, host.len() - 1) =~= all.subrange(1, k - 1));
        return match read_ipv6(bytes, 1, k - 1) {
            Some(ip) => Ok(Address::SocketAddr(SocketAddr { ip, port })),
            None => Err(Error::AddrNotAvailable),
        };
    }
    match read_ipv4(bytes, 0, k) {
        Some(ip) => Ok(Address::SocketAddr(SocketAddr { ip, port })),
        None => {
            if check_domain(bytes, 0, k) {
                let name = s.substring_ascii(0, k);
                Ok(Address::Domain(String::from_str(name), port))
            } else {
                Err(Error::AddrNotAvailable)
            }
        },
    }
}

/// Reads an IP address with a port from a string of the form `ip:port`. A
/// string that names a domain is not one.
pub fn read_socket_addr(s: &str) -> (r: Option<SocketAddr>)
    ensures
        match r {
            Some(a) => reads_as(s, Ok(Address::SocketAddr(a))),
            None => !(s.is_ascii() && parse_address(ascii(s@)) is Some && parse_address(
                ascii(s@),
            )->Some_0 is Ip),
        },
{
    match read_address(s) {
        Ok(Address::SocketAddr(a)) => Some(a),
        _ => None,
    }
}

impl Address {
    /// Reads an address from a string of the form `host:port`.
    pub fn parse(s: &str) -> (r: Result<Address, Error>)
        ensures
            reads_as(s, r),
    {
        read_address(s)
    }
}

impl SocketAddr {
    /// Reads an IP address with a port from a string of the form
    /// `ip:port`.
    pub fn parse(s: &str) -> (r: Option<SocketAddr>)
        ensures
            match r {
                Some(a) => reads_as(s, Ok(Address::SocketAddr(a))),
                None => !(s.is_ascii() && parse_address(ascii(s@)) is Some && parse_address(
                    ascii(s@),
                )->Some_0 is Ip),
            },
    {
        read_socket_addr(s)
    }
}

impl core::str::FromStr for SocketAddr {
    type Err = Error;

    /// Reads an IP address with a port from a string of the form
    /// `ip:port`. A string that names a domain, or is no address at all,
    /// is not available.
    fn from_str(s: &str) -> (r: Result<SocketAddr, Error>)
        ensures
            match r {
                Ok(a) => reads_as(s, Ok(Address::SocketAddr(a))),
                Err(e) => e == Error::AddrNotAvailable && !(s.is_ascii() && parse_address(
                    ascii(s@),
                ) is Some && parse_address(ascii(s@))->Some_0 is Ip),
            },
    {
        match read_socket_addr(s) {
            Some(a) => Ok(a),
            None => Err(Error::AddrNotAvailable),
        }
    }
}

impl core::str::FromStr for Address {
    type Err = Error;

    /// Reads an address from a string of the form `host:port`.
    fn from_str(s: &str) -> (r: Result<Address, Error>)
        ensures
            reads_as(s, r),
    {
        read_address(s)
    }
}

} // verus!
