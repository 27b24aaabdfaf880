use vstd::prelude::*;

use crate::config::Ipv6PrefixLen;
use crate::text::{decimal_text, hex_text, push_decimal, push_hex};

verus! {

/// All ones in the low `hostlen` bits of an IPv6 address (all 128 bits when `hostlen >= 128`).
pub open spec fn host_mask(hostlen: nat) -> u128 {
    if hostlen >= 128 {
        u128::MAX
    } else {
        ((1u128 << (hostlen as u128)) - 1) as u128
    }
}

/// The top `prefixlen` bits of `prefix` followed by the remaining low bits of `suffix`.
pub open spec fn splice(prefixlen: nat, prefix: u128, suffix: u128) -> u128 {
    let mask = host_mask((128 - prefixlen) as nat);
    (prefix & !mask) | (suffix & mask)
}

/// Combines a network prefix and a host suffix into one IPv6 address: the top
/// `prefixlen` bits come from `prefix`, the others from `suffix`.
pub fn splice_ipv6_addrs(prefixlen: &Ipv6PrefixLen, prefix: u128, suffix: u128) -> (r: u128)
    ensures
        r == splice(prefixlen@ as nat, prefix, suffix),
{
    let l = prefixlen.value();
    let hostlen: u32 = 128 - l as u32;
    let mask: u128 = if hostlen >= 128 {
        u128::MAX
    } else {
        assert((1u128 << hostlen) >= 1) by (bit_vector)
            requires
                hostlen < 128,
        ;
        (1u128 << hostlen) - 1
    };
    assert(mask == host_mask((128 - l) as nat));
    (prefix & !mask) | (suffix & mask)
}

/// For a prefix length from 1 to 128, the spliced address agrees with `prefix` in its
/// top `prefixlen` bits and with `suffix` in all the bits below.
pub proof fn lemma_splice_takes_prefix_and_suffix(prefixlen: nat, prefix: u128, suffix: u128)
    requires
        1 <= prefixlen <= 128,
    ensures
        splice(prefixlen, prefix, suffix) >> ((128 - prefixlen) as u128) == prefix >> ((128
            - prefixlen) as u128),
        splice(prefixlen, prefix, suffix) & host_mask((128 - prefixlen) as nat) == suffix
            & host_mask((128 - prefixlen) as nat),
{
    let h = (128 - prefixlen) as u128;
    let m = host_mask((128 - prefixlen) as nat);
    assert(m == ((1u128 << h) - 1) as u128);
    assert(((prefix & !m) | (suffix & m)) >> h == prefix >> h) by (bit_vector)
        requires
            h < 128,
            m == ((1u128 << h) - 1) as u128,
    ;
    assert(((prefix & !m) | (suffix & m)) & m == suffix & m) by (bit_vector);
}

/// Byte `i` (0 to 3, most significant first) of an IPv4 address.
pub open spec fn octet(a: u32, i: int) -> nat {
    ((a >> ((24 - 8 * i) as u32)) & 0xff) as nat
}

/// An IPv4 address in dotted decimal.
pub open spec fn ipv4_text(a: u32) -> Seq<char> {
    decimal_text(octet(a, 0)) + seq!['.'] + decimal_text(octet(a, 1)) + seq!['.']
        + decimal_text(octet(a, 2)) + seq!['.'] + decimal_text(octet(a, 3))
}

/// Group `i` (0 to 7, most significant first) of 16 bits of an IPv6 address.
pub open spec fn group(a: u128, i: int) -> nat {
    ((a >> ((112 - 16 * i) as u32)) & 0xffff) as nat
}

/// Groups `start..start + len` of an IPv6 address are all zero.
pub open spec fn zero_groups(a: u128, start: int, len: int) -> bool {
    &&& 0 <= start
    &&& 0 <= len
    &&& start + len <= 8
    &&& forall|k: int| start <= k < start + len ==> group(a, k) == 0
}

/// `start..start + len` is the first longest run of zero groups: all its groups are zero,
/// no run of zero groups is longer, and no run as long starts earlier.
pub open spec fn is_first_longest_zero_run(a: u128, start: int, len: int) -> bool {
    &&& zero_groups(a, start, len)
    &&& forall|s: int, l: int| #[trigger] zero_groups(a, s, l) ==> l <= len
    &&& forall|s: int| 0 <= s < start ==> !#[trigger] zero_groups(a, s, len)
}

/// The first longest run of zero groups of an IPv6 address, as (start, length).
pub open spec fn zero_run(a: u128) -> (int, int) {
    choose|r: (int, int)| is_first_longest_zero_run(a, r.0, r.1)
}

/// There is one first longest run of zero groups.
pub proof fn lemma_first_longest_zero_run_is_unique(a: u128, s1: int, l1: int, s2: int, l2: int)
    requires
        is_first_longest_zero_run(a, s1, l1),
        is_first_longest_zero_run(a, s2, l2),
    ensures
        s1 == s2,
        l1 == l2,
{
    assert(l1 <= l2 && l2 <= l1);
    if s1 < s2 {
        assert(!zero_groups(a, s1, l2));
    }
    if s2 < s1 {
        assert(!zero_groups(a, s2, l1));
    }
}

/// Groups `from..to` of an IPv6 address in hexadecimal, separated by colons.
pub open spec fn groups_text(a: u128, from: int, to: int) -> Seq<char>
    decreases to - from,
{
    if to <= from {
        seq![]
    } else if to == from + 1 {
        hex_text(group(a, from))
    } else {
        groups_text(a, from, to - 1) + seq![':'] + hex_text(group(a, to - 1))
    }
}

/// Whether an IPv6 address is an IPv4-mapped address (`::ffff:0:0/96`).
pub open spec fn is_ipv4_mapped(a: u128) -> bool {
    a >> 32u32 == 0xffffu128
}

/// The canonical text of an IPv6 address: lower-case hexadecimal groups, the first
/// longest run of two or more zero groups shortened to `::`, and an IPv4-mapped
/// address written as `::ffff:` followed by its IPv4 address in dotted decimal.
pub open spec fn ipv6_text(a: u128) -> Seq<char> {
    if is_ipv4_mapped(a) {
        "::ffff:"@ + ipv4_text((a & 0xffff_ffffu128) as u32)
    } else {
        let (s, l) = zero_run(a);
        if l > 1 {
            groups_text(a, 0, s) + "::"@ + groups_text(a, s + l, 8)
        } else {
            groups_text(a, 0, 8)
        }
    }
}

fn octet_of(a: u32, i: u32) -> (r: u32)
    requires
        i < 4,
    ensures
        r as nat == octet(a, i as int),
        r < 256,
{
    let shift: u32 = 24 - 8 * i;
    let r = (a >> shift) & 0xff;
    assert(((a >> shift) & 0xff) < 256) by (bit_vector);
    r
}

fn push_ipv4(out: &mut String, a: u32)
    ensures
        final(out)@ == old(out)@ + ipv4_text(a),
{
    proof {
        reveal_strlit(".");
    }
    let ghost start = out@;
    push_decimal(out, octet_of(a, 0));
    out.append(".");
    push_decimal(out, octet_of(a, 1));
    out.append(".");
    push_decimal(out, octet_of(a, 2));
    out.append(".");
    push_decimal(out, octet_of(a, 3));
    assert(out@ =~= start + ipv4_text(a));
}

/// The dotted-decimal text of an IPv4 address.
pub fn ipv4_string(a: u32) -> (r: String)
    ensures
        r@ == ipv4_text(a),
{
    let mut out = String::new();
    push_ipv4(&mut out, a);
    assert(out@ =~= ipv4_text(a));
    out
}

fn group_of(a: u128, i: usize) -> (r: u32)
    requires
        i < 8,
    ensures
        r as nat == group(a, i as int),
        r < 65536,
{
    let shift: u32 = 112 - 16 * i as u32;
    let g = (a >> shift) & 0xffff;
    assert(((a >> shift) & 0xffff) < 65536) by (bit_vector);
    g as u32
}

fn push_groups(out: &mut String, a: u128, from: usize, to: usize)
    requires
        from <= to <= 8,
    ensures
        final(out)@ == old(out)@ + groups_text(a, from as int, to as int),
{
    let ghost start = out@;
    let mut k: usize = from;
    assert(groups_text(a, from as int, from as int) =~= Seq::<char>::empty());
    while k < to
        invariant
            from <= k <= to <= 8,
            out@ == start + groups_text(a, from as int, k as int),
        decreases to - k,
    {
        if k > from {
            out.append(":");
            proof {
                reveal_strlit(":");
            }
        }
        push_hex(out, group_of(a, k));
        k = k + 1;
        assert(out@ =~= start + groups_text(a, from as int, k as int));
    }
}

/// The start and length of the first longest run of zero groups.
fn longest_zero_run(a: u128) -> (r: (usize, usize))
    ensures
        is_first_longest_zero_run(a, r.0 as int, r.1 as int),
{
    let mut cur_start: usize = 0;
    let mut cur_len: usize = 0;
    let mut best_start: usize = 0;
    let mut best_len: usize = 0;
    let mut i: usize = 0;
    while i < 8
        invariant
            i <= 8,
            cur_len <= best_len,
            cur_start + cur_len == i,
            zero_groups(a, cur_start as int, cur_len as int),
            cur_start == 0 || group(a, cur_start - 1) != 0,
            zero_groups(a, best_start as int, best_len as int),
            best_start + best_len <= i,
            forall|s: int, l: int| #[trigger]
                zero_groups(a, s, l) && s + l <= i ==> l <= best_len,
            forall|s: int| 0 <= s < best_start ==> !#[trigger] zero_groups(a, s, best_len as int),
        decreases 8 - i,
    {
        if group_of(a, i) == 0 {
            cur_len = cur_len + 1;
            assert forall|s: int, l: int| #[trigger]
                zero_groups(a, s, l) && s + l == i + 1 implies l <= cur_len by {
                if s < cur_start {
                    assert(group(a, cur_start - 1) == 0);
                }
            }
            if cur_len > best_len {
                assert forall|s: int| 0 <= s < cur_start implies !#[trigger] zero_groups(
                    a,
                    s,
                    cur_len as int,
                ) by {
                    if zero_groups(a, s, cur_len as int) {
                        assert(zero_groups(a, s, cur_len as int) && s + cur_len <= i);
                    }
                }
                best_start = cur_start;
                best_len = cur_len;
            }
        } else {
            assert forall|s: int, l: int| #[trigger]
                zero_groups(a, s, l) && s + l == i + 1 implies l <= best_len by {
                if l > 0 {
                    assert(group(a, i as int) == 0);
                }
            }
            cur_start = i + 1;
            cur_len = 0;
        }
        i = i + 1;
    }
    (best_start, best_len)
}

/// The canonical text of an IPv6 address (see `ipv6_text`).
pub fn ipv6_string(a: u128) -> (r: String)
    ensures
        r@ == ipv6_text(a),
{
    let mut out = String::new();
    if a >> 32u32 == 0xffffu128 {
        out.append("::ffff:");
        push_ipv4(&mut out, (a & 0xffff_ffffu128) as u32);
    } else {
        let (s, l) = longest_zero_run(a);
        proof {
            let r = zero_run(a);
            lemma_first_longest_zero_run_is_unique(a, s as int, l as int, r.0, r.1);
        }
        if l > 1 {
            push_groups(&mut out, a, 0, s);
            out.append("::");
            push_groups(&mut out, a, s + l, 8);
        } else {
            push_groups(&mut out, a, 0, 8);
        }
    }
    assert(out@ =~= ipv6_text(a));
    out
}

} // verus!
