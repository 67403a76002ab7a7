//! Literal IP addresses and subnets in prefix notation.

use crate::text::{
    all_digits, digits_value, fields, find, find_from, is_digit, rows, slice_chars, split_fields,
};
use vstd::prelude::*;

verus! {

/// A literal IP address: thirty-two bits of version 4 or a hundred and
/// twenty-eight of version 6.
#[derive(Clone, Copy, Debug)]
pub enum IpLiteral {
    V4(u32),
    V6(u128),
}

/// One of the four numbers of a dotted address: one to three digits, no
/// leading zero before another digit, at most 255.
pub open spec fn octet(s: Seq<char>) -> Option<int> {
    if 1 <= s.len() <= 3 && all_digits(s) && (s.len() == 1 || s[0] != '0') && digits_value(s)
        <= 255 {
        Some(digits_value(s))
    } else {
        None
    }
}

/// The address that four octets make, the first in the highest byte.
pub open spec fn quad(a: int, b: int, c: int, d: int) -> u32 {
    ((((a as u32) << 24) | ((b as u32) << 16)) | ((c as u32) << 8)) | (d as u32)
}

/// The version 4 address that `s` writes: four octets with dots between.
pub open spec fn ipv4_value(s: Seq<char>) -> Option<u32> {
    let f = fields(s, '.');
    if f.len() == 4 && octet(f[0]) is Some && octet(f[1]) is Some && octet(f[2]) is Some && octet(
        f[3],
    ) is Some {
        Some(quad(octet(f[0])->0, octet(f[1])->0, octet(f[2])->0, octet(f[3])->0))
    } else {
        None
    }
}

/// The value of a hexadecimal digit of either case.
pub open spec fn hex_value(c: char) -> Option<int> {
    if '0' <= c && c <= '9' {
        Some(c as int - '0' as int)
    } else if 'a' <= c && c <= 'f' {
        Some(c as int - 'a' as int + 10)
    } else if 'A' <= c && c <= 'F' {
        Some(c as int - 'A' as int + 10)
    } else {
        None
    }
}

/// Every character of `s` is a hexadecimal digit.
pub open spec fn all_hex(s: Seq<char>) -> bool {
    forall|i: int| 0 <= i < s.len() ==> hex_value(#[trigger] s[i]) is Some
}

/// The number that a run of hexadecimal digits writes.
pub open spec fn hex_digits_value(s: Seq<char>) -> int
    decreases s.len(),
{
    if s.len() == 0 {
        0
    } else {
        hex_digits_value(s.drop_last()) * 16 + hex_value(s.last())->0
    }
}

/// One group of a version 6 address: one to four hexadecimal digits.
pub open spec fn hex_group(s: Seq<char>) -> Option<int> {
    if 1 <= s.len() <= 4 && all_hex(s) {
        Some(hex_digits_value(s))
    } else {
        None
    }
}

/// The groups that the first `n` of the pieces write, where each of them
/// is a group.
pub open spec fn hex_groups(f: Seq<Seq<char>>, n: int) -> Option<Seq<u16>>
    decreases n,
{
    if n <= 0 {
        Some(Seq::empty())
    } else {
        match (hex_groups(f, n - 1), hex_group(f[n - 1])) {
            (Some(g), Some(v)) => Some(g.push(v as u16)),
            _ => None,
        }
    }
}

/// The groups that a colon-separated text writes. An empty text writes
/// none. With `dotted`, the last piece may be a version 4 address, which
/// stands for two groups.
pub open spec fn groups_of(s: Seq<char>, dotted: bool) -> Option<Seq<u16>> {
    if s.len() == 0 {
        Some(Seq::empty())
    } else {
        let f = fields(s, ':');
        let last = f[f.len() - 1];
        match hex_groups(f, f.len() - 1) {
            None => None,
            Some(g) => if hex_group(last) is Some {
                Some(g.push(hex_group(last)->0 as u16))
            } else if dotted && ipv4_value(last) is Some {
                let v = ipv4_value(last)->0;
                Some(g.push((v >> 16) as u16).push((v & 0xffff) as u16))
            } else {
                None
            },
        }
    }
}

/// The number whose 16-bit digits are `g`, the first the highest.
pub open spec fn groups_value(g: Seq<u16>) -> u128
    decreases g.len(),
{
    if g.len() == 0 {
        0
    } else {
        (groups_value(g.drop_last()) << 16) | (g.last() as u128)
    }
}

/// The two colons that stand for a run of zero groups.
pub open spec fn gap() -> Seq<char> {
    seq![':', ':']
}

/// The version 6 address that `s` writes: eight groups, or fewer around
/// one `::` that stands for the zero groups left out.
pub open spec fn ipv6_value(s: Seq<char>) -> Option<u128> {
    match find_from(s, gap(), 0) {
        Some(k) => {
            let head = groups_of(s.take(k), false);
            let tail = groups_of(s.skip(k + 2), true);
            if head is Some && tail is Some && head->0.len() + tail->0.len() <= 7 {
                Some(
                    groups_value(
                        head->0 + Seq::new(
                            (8 - head->0.len() - tail->0.len()) as nat,
                            |i: int| 0u16,
                        ) + tail->0,
                    ),
                )
            } else {
                None
            }
        },
        None => {
            let g = groups_of(s, true);
            if g is Some && g->0.len() == 8 {
                Some(groups_value(g->0))
            } else {
                None
            }
        },
    }
}

/// The address that `s` writes, of either version.
pub open spec fn ip_value(s: Seq<char>) -> Option<IpLiteral> {
    match ipv4_value(s) {
        Some(v) => Some(IpLiteral::V4(v)),
        None => match ipv6_value(s) {
            Some(v) => Some(IpLiteral::V6(v)),
            None => None,
        },
    }
}

/// The leading `prefix` bits of two 32-bit addresses agree. No bits at all
/// always agree; more than thirty-two never do.
pub open spec fn same_net4(a: u32, n: u32, prefix: u8) -> bool {
    prefix == 0 || (prefix <= 32 && (a >> ((32 - prefix) as u32)) == (n >> ((32 - prefix) as u32)))
}

/// The leading `prefix` bits of two 128-bit addresses agree. No bits at
/// all always agree; more than a hundred and twenty-eight never do.
pub open spec fn same_net6(a: u128, n: u128, prefix: u8) -> bool {
    prefix == 0 || (prefix <= 128 && (a >> ((128 - prefix) as u128)) == (n >> ((128
        - prefix) as u128)))
}

/// `ip` lies in the subnet of `net` with `prefix` leading bits: both of
/// the same version, and those bits the same.
pub open spec fn in_subnet(ip: IpLiteral, net: IpLiteral, prefix: u8) -> bool {
    match (ip, net) {
        (IpLiteral::V4(a), IpLiteral::V4(n)) => same_net4(a, n, prefix),
        (IpLiteral::V6(a), IpLiteral::V6(n)) => same_net6(a, n, prefix),
        _ => false,
    }
}

/// A subnet without leading bits holds every address of its version, and
/// none of the other.
pub proof fn lemma_prefix_zero(ip: IpLiteral, net: IpLiteral)
    ensures
        in_subnet(ip, net, 0) <==> (ip is V4 && net is V4) || (ip is V6 && net is V6),
{
}

/// An address lies in every subnet that is named by the address itself,
/// up to the full length of its version.
pub proof fn lemma_own_subnet(ip: IpLiteral, prefix: u8)
    requires
        ip is V4 ==> prefix <= 32,
        ip is V6 ==> prefix <= 128,
    ensures
        in_subnet(ip, ip, prefix),
{
}

/// Whether `ip` lies in the subnet that `cidr` names.
pub fn ip_in_cidr(ip: IpLiteral, cidr: (IpLiteral, u8)) -> (b: bool)
    ensures
        b == in_subnet(ip, cidr.0, cidr.1),
{
    let p: u8 = cidr.1;
    match (ip, cidr.0) {
        (IpLiteral::V4(a), IpLiteral::V4(n)) => {
            if p == 0 {
                true
            } else if p > 32 {
                false
            } else {
                let k: u32 = 32 - (p as u32);
                (a >> k) == (n >> k)
            }
        },
        (IpLiteral::V6(a), IpLiteral::V6(n)) => {
            if p == 0 {
                true
            } else if p > 128 {
                false
            } else {
                let k: u128 = 128 - (p as u128);
                (a >> k) == (n >> k)
            }
        },
        _ => false,
    }
}

proof fn lemma_digits_small(s: Seq<char>)
    requires
        all_digits(s),
        s.len() <= 3,
    ensures
        0 <= digits_value(s) <= 999,
        s.len() <= 2 ==> digits_value(s) <= 99,
        s.len() <= 1 ==> digits_value(s) <= 9,
        s.len() == 0 ==> digits_value(s) == 0,
    decreases s.len(),
{
    if s.len() > 0 {
        assert(is_digit(s[s.len() - 1]));
        let t = s.drop_last();
        assert(all_digits(t)) by {
            assert forall|j: int| 0 <= j < t.len() implies is_digit(#[trigger] t[j]) by {
                assert(t[j] == s[j]);
            }
        }
        lemma_digits_small(t);
    }
}

/// Reads one number of a dotted address.
pub fn parse_octet(s: &[char]) -> (r: Option<u8>)
    ensures
        match r {
            Some(v) => octet(s@) == Some(v as int),
            None => octet(s@) is None,
        },
{
    let n: usize = s.len();
    if n < 1 || n > 3 {
        return None;
    }
    let mut acc: u32 = 0;
    let mut i: usize = 0;
    while i < n
        invariant
            i <= n == s@.len(),
            n <= 3,
            forall|j: int| 0 <= j < i ==> is_digit(#[trigger] s@[j]),
            acc == digits_value(s@.take(i as int)),
            acc <= 999,
        decreases n - i,
    {
        let c: char = s[i];
        if !(c >= '0' && c <= '9') {
            return None;
        }
        let ghost next = s@.take(i + 1);
        assert(next.drop_last() =~= s@.take(i as int));
        assert(next.last() == c);
        proof {
            assert(all_digits(next)) by {
                assert forall|j: int| 0 <= j < next.len() implies is_digit(#[trigger] next[j]) by {
                    assert(next[j] == s@[j]);
                }
            }
            lemma_digits_small(next);
        }
        acc = acc * 10 + (c as u32 - '0' as u32);
        i += 1;
    }
    assert(s@.take(n as int) =~= s@);
    if n > 1 && s[0] == '0' {
        return None;
    }
    if acc > 255 {
        return None;
    }
    Some(acc as u8)
}

/// Reads a dotted version 4 address.
pub fn parse_ipv4(s: &[char]) -> (r: Option<u32>)
    ensures
        r == ipv4_value(s@),
{
    let f = split_fields(s, '.');
    if f.len() != 4 {
        return None;
    }
    assert(rows(f@)[0] == f@[0]@ && rows(f@)[1] == f@[1]@ && rows(f@)[2] == f@[2]@ && rows(f@)[3]
        == f@[3]@);
    let a = match parse_octet(f[0].as_slice()) {
        Some(v) => v,
        None => {
            return None;
        },
    };
    let b = match parse_octet(f[1].as_slice()) {
        Some(v) => v,
        None => {
            return None;
        },
    };
    let c = match parse_octet(f[2].as_slice()) {
        Some(v) => v,
        None => {
            return None;
        },
    };
    let d = match parse_octet(f[3].as_slice()) {
        Some(v) => v,
        None => {
            return None;
        },
    };
    Some(((((a as u32) << 24) | ((b as u32) << 16)) | ((c as u32) << 8)) | (d as u32))
}

proof fn lemma_hex_small(s: Seq<char>)
    requires
        all_hex(s),
        s.len() <= 4,
    ensures
        0 <= hex_digits_value(s) < 0x10000,
        s.len() <= 3 ==> hex_digits_value(s) < 0x1000,
        s.len() <= 2 ==> hex_digits_value(s) < 0x100,
        s.len() <= 1 ==> hex_digits_value(s) < 0x10,
    decreases s.len(),
{
    if s.len() > 0 {
        assert(hex_value(s[s.len() - 1]) is Some);
        let t = s.drop_last();
        assert(all_hex(t)) by {
            assert forall|j: int| 0 <= j < t.len() implies hex_value(#[trigger] t[j]) is Some by {
                assert(t[j] == s[j]);
            }
        }
        lemma_hex_small(t);
    }
}

/// The value of a hexadecimal digit.
pub fn hex_digit_value(c: char) -> (r: Option<u8>)
    ensures
        match r {
            Some(v) => hex_value(c) == Some(v as int),
            None => hex_value(c) is None,
        },
{
    if c >= '0' && c <= '9' {
        Some((c as u32 - '0' as u32) as u8)
    } else if c >= 'a' && c <= 'f' {
        Some((c as u32 - 'a' as u32 + 10) as u8)
    } else if c >= 'A' && c <= 'F' {
        Some((c as u32 - 'A' as u32 + 10) as u8)
    } else {
        None
    }
}

/// Reads one group of a version 6 address.
pub fn parse_hex_group(s: &[char]) -> (r: Option<u16>)
    ensures
        match r {
            Some(v) => hex_group(s@) == Some(v as int),
            None => hex_group(s@) is None,
        },
{
    let n: usize = s.len();
    if n < 1 || n > 4 {
        return None;
    }
    let mut acc: u32 = 0;
    let mut i: usize = 0;
    while i < n
        invariant
            i <= n == s@.len(),
            n <= 4,
            all_hex(s@.take(i as int)),
            acc == hex_digits_value(s@.take(i as int)),
            acc < 0x10000,
            i <= 3 ==> acc < 0x1000,
        decreases n - i,
    {
        let c: char = s[i];
        let d: u8 = match hex_digit_value(c) {
            Some(v) => v,
            None => {
                assert(hex_value(s@[i as int]) is None);
                return None;
            },
        };
        let ghost next = s@.take(i + 1);
        assert(next.drop_last() =~= s@.take(i as int));
        assert(next.last() == c);
        proof {
            assert(all_hex(next)) by {
                assert forall|j: int| 0 <= j < next.len() implies hex_value(
                    #[trigger] next[j],
                ) is Some by {
                    if j < i {
                        assert(s@.take(i as int)[j] == next[j]);
                    }
                }
            }
            lemma_hex_small(next);
            lemma_hex_small(s@.take(i as int));
        }
        acc = acc * 16 + (d as u32);
        i += 1;
    }
    assert(s@.take(n as int) =~= s@);
    Some(acc as u16)
}

/// Reads the groups of a colon-separated text.
pub fn parse_groups(s: &[char], dotted: bool) -> (r: Option<Vec<u16>>)
    ensures
        match r {
            Some(g) => groups_of(s@, dotted) == Some(g@),
            None => groups_of(s@, dotted) is None,
        },
{
    let mut g: Vec<u16> = Vec::new();
    if s.len() == 0 {
        return Some(g);
    }
    let f = split_fields(s, ':');
    let n: usize = f.len();
    let ghost fs = fields(s@, ':');
    let mut i: usize = 0;
    while i + 1 < n
        invariant
            i + 1 <= n == f@.len(),
            s@.len() > 0,
            fs == fields(s@, ':'),
            fs == rows(f@),
            hex_groups(fs, i as int) == Some(g@),
        decreases n - i,
    {
        assert(fs[i as int] == f@[i as int]@);
        match parse_hex_group(f[i].as_slice()) {
            Some(v) => {
                g.push(v);
            },
            None => {
                proof {
                    assert(hex_groups(fs, i as int + 1) is None);
                    lemma_hex_groups_fail(fs, i as int + 1, n as int - 1);
                }
                return None;
            },
        }
        i += 1;
    }
    assert(fs[n - 1] == f@[n - 1]@);
    match parse_hex_group(f[n - 1].as_slice()) {
        Some(v) => {
            g.push(v);
            return Some(g);
        },
        None => {},
    }
    if !dotted {
        return None;
    }
    match parse_ipv4(f[n - 1].as_slice()) {
        Some(v) => {
            g.push((v >> 16) as u16);
            g.push((v & 0xffff) as u16);
            Some(g)
        },
        None => None,
    }
}

proof fn lemma_hex_groups_fail(f: Seq<Seq<char>>, k: int, n: int)
    requires
        0 < k <= n,
        hex_groups(f, k) is None,
    ensures
        hex_groups(f, n) is None,
    decreases n - k,
{
    if k < n {
        lemma_hex_groups_fail(f, k, n - 1);
    }
}

/// The number whose 16-bit digits are `g`.
fn fold_groups(g: &[u16]) -> (r: u128)
    ensures
        r == groups_value(g@),
{
    let mut acc: u128 = 0;
    let mut i: usize = 0;
    while i < g.len()
        invariant
            i <= g@.len(),
            acc == groups_value(g@.take(i as int)),
        decreases g@.len() - i,
    {
        let ghost next = g@.take(i + 1);
        assert(next.drop_last() =~= g@.take(i as int));
        assert(next.last() == g@[i as int]);
        acc = (acc << 16) | (g[i] as u128);
        i += 1;
    }
    assert(g@.take(g@.len() as int) =~= g@);
    acc
}

/// Reads a version 6 address.
pub fn parse_ipv6(s: &[char]) -> (r: Option<u128>)
    ensures
        r == ipv6_value(s@),
{
    let total: usize = s.len();
    let sep: Vec<char> = vec![':', ':'];
    assert(sep@ =~= gap());
    match find(s, sep.as_slice(), 0) {
        Some(k) => {
            proof {
                crate::text::lemma_find_from(s@, gap(), 0);
            }
            let head_text = slice_chars(s, 0, k);
            let tail_text = slice_chars(s, k + 2, s.len());
            assert(head_text@ =~= s@.take(k as int));
            assert(tail_text@ =~= s@.skip(k + 2));
            let head = match parse_groups(head_text.as_slice(), false) {
                Some(g) => g,
                None => {
                    return None;
                },
            };
            let tail = match parse_groups(tail_text.as_slice(), true) {
                Some(g) => g,
                None => {
                    return None;
                },
            };
            if head.len() > 7 || tail.len() > 7 - head.len() {
                return None;
            }
            let zeros: usize = 8 - head.len() - tail.len();
            let mut all: Vec<u16> = Vec::new();
            let mut i: usize = 0;
            while i < head.len()
                invariant
                    i <= head@.len(),
                    all@ == head@.take(i as int),
                decreases head@.len() - i,
            {
                all.push(head[i]);
                assert(head@.take(i + 1) =~= head@.take(i as int).push(head@[i as int]));
                i += 1;
            }
            assert(head@.take(head@.len() as int) =~= head@);
            let mut z: usize = 0;
            while z < zeros
                invariant
                    z <= zeros,
                    all@ == head@ + Seq::new(z as nat, |i: int| 0u16),
                decreases zeros - z,
            {
                all.push(0u16);
                assert(all@ =~= head@ + Seq::new((z + 1) as nat, |i: int| 0u16));
                z += 1;
            }
            let mut j: usize = 0;
            while j < tail.len()
                invariant
                    j <= tail@.len(),
                    all@ == head@ + Seq::new(zeros as nat, |i: int| 0u16) + tail@.take(j as int),
                decreases tail@.len() - j,
            {
                all.push(tail[j]);
                assert(tail@.take(j + 1) =~= tail@.take(j as int).push(tail@[j as int]));
                assert(all@ =~= head@ + Seq::new(zeros as nat, |i: int| 0u16) + tail@.take(j + 1));
                j += 1;
            }
            assert(tail@.take(tail@.len() as int) =~= tail@);
            Some(fold_groups(all.as_slice()))
        },
        None => {
            let g = match parse_groups(s, true) {
                Some(g) => g,
                None => {
                    return None;
                },
            };
            if g.len() != 8 {
                return None;
            }
            Some(fold_groups(g.as_slice()))
        },
    }
}

/// Reads a literal IP address of either version.
pub fn parse_ip(s: &[char]) -> (r: Option<IpLiteral>)
    ensures
        r == ip_value(s@),
{
    match parse_ipv4(s) {
        Some(v) => Some(IpLiteral::V4(v)),
        None => match parse_ipv6(s) {
            Some(v) => Some(IpLiteral::V6(v)),
            None => None,
        },
    }
}

} // verus!
