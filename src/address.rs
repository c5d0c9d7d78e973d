//! IP addresses as plain numbers, their address family, their order and their text.

use vstd::prelude::*;
use crate::text::{append_radix, dec_text, hex_text};

verus! {

/// An IP address: an IPv4 address as its 32 bits, an IPv6 address as its 128 bits
/// (the first octet or group in the most significant place).
#[derive(Debug, Clone, Copy, PartialEq, Eq, Structural)]
pub enum IpAddress {
    V4(u32),
    V6(u128),
}

/// The address family of an IP address; it decides which rule table a rule goes to.
#[derive(Debug, Clone, Copy, PartialEq, Eq, Structural)]
pub enum AddressFamily {
    V4,
    V6,
}

impl IpAddress {
    pub open spec fn family(self) -> AddressFamily {
        match self {
            IpAddress::V4(_) => AddressFamily::V4,
            IpAddress::V6(_) => AddressFamily::V6,
        }
    }

    /// The position of the address in the order of addresses: every IPv4 address comes
    /// before every IPv6 address, and within a family the order is that of the octets.
    pub open spec fn rank(self) -> int {
        match self {
            IpAddress::V4(x) => x as int,
            IpAddress::V6(x) => 0x1_0000_0000 + x as int,
        }
    }

    /// The usual text of the address (dotted decimal, or RFC 5952 groups).
    pub open spec fn text(self) -> Seq<char> {
        match self {
            IpAddress::V4(x) => ipv4_text(x),
            IpAddress::V6(x) => ipv6_text(x),
        }
    }

    /// The address family of this address.
    pub fn get_family(&self) -> (r: AddressFamily)
        ensures
            r == self.family(),
    {
        match self {
            IpAddress::V4(_) => AddressFamily::V4,
            IpAddress::V6(_) => AddressFamily::V6,
        }
    }

    /// Whether this address comes strictly before `other`.
    pub fn is_before(&self, other: &IpAddress) -> (r: bool)
        ensures
            r == (self.rank() < other.rank()),
    {
        match (self, other) {
            (IpAddress::V4(a), IpAddress::V4(b)) => *a < *b,
            (IpAddress::V4(_), IpAddress::V6(_)) => true,
            (IpAddress::V6(_), IpAddress::V4(_)) => false,
            (IpAddress::V6(a), IpAddress::V6(b)) => *a < *b,
        }
    }

    /// The text of the address.
    pub fn to_text(&self) -> (r: String)
        ensures
            r@ == self.text(),
    {
        let mut out = String::new();
        match self {
            IpAddress::V4(x) => append_ipv4(&mut out, *x),
            IpAddress::V6(x) => append_ipv6(&mut out, *x),
        }
        assert(out@ =~= self.text());
        out
    }
}

/// Two addresses of equal rank are the same address.
pub proof fn lemma_rank_injective(a: IpAddress, b: IpAddress)
    requires
        a.rank() == b.rank(),
    ensures
        a == b,
{
}

/// Octet `i` (0 to 3, from the left) of an IPv4 address.
pub open spec fn octet(x: u32, i: int) -> nat {
    if i == 0 {
        (x as nat / 0x100_0000) % 256
    } else if i == 1 {
        (x as nat / 0x1_0000) % 256
    } else if i == 2 {
        (x as nat / 0x100) % 256
    } else {
        x as nat % 256
    }
}

/// Dotted decimal text of an IPv4 address.
pub open spec fn ipv4_text(x: u32) -> Seq<char> {
    dec_text(octet(x, 0)) + seq!['.'] + dec_text(octet(x, 1)) + seq!['.'] + dec_text(octet(x, 2))
        + seq!['.'] + dec_text(octet(x, 3))
}

/// The divisor that brings group `i` (0 to 7, from the left) of an IPv6 address to the
/// lowest place.
pub open spec fn group_divisor(i: int) -> nat {
    if i == 0 {
        0x1_0000_0000_0000_0000_0000_0000_0000
    } else if i == 1 {
        0x1_0000_0000_0000_0000_0000_0000
    } else if i == 2 {
        0x1_0000_0000_0000_0000_0000
    } else if i == 3 {
        0x1_0000_0000_0000_0000
    } else if i == 4 {
        0x1_0000_0000_0000
    } else if i == 5 {
        0x1_0000_0000
    } else if i == 6 {
        0x1_0000
    } else {
        1
    }
}

/// The eight 16-bit groups of an IPv6 address.
pub open spec fn groups(x: u128) -> Seq<nat> {
    Seq::new(8, |i: int| (x as nat / group_divisor(i)) % 0x1_0000)
}

/// Groups `s .. s + l` are all zero.
pub open spec fn zeros_in(g: Seq<nat>, s: int, l: int) -> bool {
    &&& 0 <= s
    &&& 0 <= l
    &&& s + l <= g.len()
    &&& forall|k: int| s <= k < s + l ==> g[k] == 0
}

/// `s .. s + l` is the longest run of zero groups, the leftmost one among the longest.
pub open spec fn is_longest_zero_run(g: Seq<nat>, s: int, l: int) -> bool {
    &&& zeros_in(g, s, l)
    &&& forall|s2: int, l2: int| zeros_in(g, s2, l2) ==> l2 <= l
    &&& forall|s2: int| zeros_in(g, s2, l) ==> s <= s2
}

/// The longest run of zero groups, leftmost among the longest (start, length).
pub open spec fn longest_zero_run(g: Seq<nat>) -> (int, int) {
    choose|p: (int, int)| is_longest_zero_run(g, p.0, p.1)
}

/// Groups in hexadecimal, separated by colons.
pub open spec fn groups_text(g: Seq<nat>) -> Seq<char>
    decreases g.len(),
{
    if g.len() == 0 {
        Seq::empty()
    } else if g.len() == 1 {
        hex_text(g[0])
    } else {
        groups_text(g.drop_last()) + seq![':'] + hex_text(g.last())
    }
}

/// The address is an IPv4 address mapped into IPv6 (`::ffff:a.b.c.d`).
pub open spec fn is_ipv4_mapped(x: u128) -> bool {
    x as nat / 0x1_0000_0000 == 0xffff
}

/// Text of an IPv6 address: an IPv4-mapped address as `::ffff:` and dotted decimal;
/// otherwise lower-case hexadecimal groups without leading zeros, where the longest run of
/// two or more zero groups (the leftmost of equal ones) is written `::`.
pub open spec fn ipv6_text(x: u128) -> Seq<char> {
    let g = groups(x);
    let run = longest_zero_run(g);
    if is_ipv4_mapped(x) {
        seq![':', ':', 'f', 'f', 'f', 'f', ':'] + ipv4_text((x as nat % 0x1_0000_0000) as u32)
    } else if run.1 > 1 {
        groups_text(g.subrange(0, run.0)) + seq![':', ':'] + groups_text(g.subrange(run.0 + run.1, 8))
    } else {
        groups_text(g)
    }
}

fn append_ipv4(out: &mut String, x: u32)
    ensures
        final(out)@ == old(out)@ + ipv4_text(x),
{
    proof { reveal_strlit("."); }
    append_radix(out, (x / 0x100_0000) % 256, 10);
    out.append(".");
    append_radix(out, (x / 0x1_0000) % 256, 10);
    out.append(".");
    append_radix(out, (x / 0x100) % 256, 10);
    out.append(".");
    append_radix(out, x % 256, 10);
    assert(final(out)@ =~= old(out)@ + ipv4_text(x));
}

/// The run found is the only longest one.
proof fn lemma_longest_zero_run_unique(g: Seq<nat>, s: int, l: int)
    requires
        is_longest_zero_run(g, s, l),
    ensures
        longest_zero_run(g) == (s, l),
{
    assert(exists|q: (int, int)| #[trigger] is_longest_zero_run(g, q.0, q.1)) by {
        let w = (s, l);
        assert(is_longest_zero_run(g, w.0, w.1));
    }
    let p = longest_zero_run(g);
    assert(is_longest_zero_run(g, p.0, p.1));
    assert(zeros_in(g, s, l));
    assert(zeros_in(g, p.0, p.1));
    assert(p.1 <= l && l <= p.1);
    assert(zeros_in(g, s, p.1));
    assert(p.0 <= s && s <= p.0);
}

fn group_divisor_exec(i: usize) -> (r: u128)
    requires
        i < 8,
    ensures
        r as nat == group_divisor(i as int),
{
    match i {
        0 => 0x1_0000_0000_0000_0000_0000_0000_0000,
        1 => 0x1_0000_0000_0000_0000_0000_0000,
        2 => 0x1_0000_0000_0000_0000_0000,
        3 => 0x1_0000_0000_0000_0000,
        4 => 0x1_0000_0000_0000,
        5 => 0x1_0000_0000,
        6 => 0x1_0000,
        _ => 1,
    }
}

fn ipv6_groups(x: u128) -> (g: Vec<u32>)
    ensures
        g@.len() == 8,
        forall|i: int| 0 <= i < 8 ==> g@[i] as nat == #[trigger] groups(x)[i],
{
    let mut g: Vec<u32> = Vec::new();
    let mut i: usize = 0;
    while i < 8
        invariant
            i <= 8,
            g@.len() == i,
            forall|j: int| 0 <= j < i ==> g@[j] as nat == #[trigger] groups(x)[j],
        decreases 8 - i,
    {
        let d = group_divisor_exec(i);
        let v = ((x / d) % 0x1_0000) as u32;
        g.push(v);
        i = i + 1;
    }
    g
}

/// Finds the longest run of zero groups, the leftmost among the longest.
fn find_longest_zero_run(g: &Vec<u32>, gs: Ghost<Seq<nat>>) -> (r: (usize, usize))
    requires
        g@.len() == 8,
        gs@.len() == 8,
        forall|i: int| 0 <= i < 8 ==> g@[i] as nat == #[trigger] gs@[i],
    ensures
        is_longest_zero_run(gs@, r.0 as int, r.1 as int),
{
    let ghost gv = gs@;
    let mut best_s: usize = 0;
    let mut best_l: usize = 0;
    let mut cur_l: usize = 0;
    let mut i: usize = 0;
    while i < 8
        invariant
            i <= 8,
            g@.len() == 8,
            gv.len() == 8,
            forall|j: int| 0 <= j < 8 ==> g@[j] as nat == #[trigger] gv[j],
            cur_l <= i,
            zeros_in(gv, i - cur_l, cur_l as int),
            cur_l < i ==> gv[i - cur_l - 1] != 0,
            zeros_in(gv, best_s as int, best_l as int),
            best_s + best_l <= i,
            best_l == 0 ==> best_s == 0,
            forall|s2: int, l2: int| zeros_in(gv, s2, l2) && s2 + l2 <= i ==> l2 <= best_l,
            forall|s2: int| zeros_in(gv, s2, best_l as int) && s2 + best_l <= i ==> best_s <= s2,
        decreases 8 - i,
    {
        let ghost old_cur = cur_l;
        let ghost old_best_s = best_s;
        let ghost old_best_l = best_l;
        if g[i] == 0 {
            cur_l = cur_l + 1;
            if cur_l > best_l {
                best_l = cur_l;
                best_s = i + 1 - cur_l;
            }
            assert forall|s2: int, l2: int| zeros_in(gv, s2, l2) && s2 + l2 == i + 1 implies l2 <= cur_l by {
                if s2 < i - old_cur {
                    assert(gv[i - old_cur - 1] == 0);
                }
            }
        } else {
            cur_l = 0;
            assert forall|s2: int, l2: int| zeros_in(gv, s2, l2) && s2 + l2 == i + 1 implies l2 == 0 by {
                if l2 > 0 {
                    assert(gv[i as int] == 0);
                }
            }
        }
        i = i + 1;
        assert(zeros_in(gv, i - cur_l, cur_l as int));
    }
    (best_s, best_l)
}

/// Appends groups `from .. to`, in hexadecimal and separated by colons.
fn append_groups(out: &mut String, g: &Vec<u32>, gs: Ghost<Seq<nat>>, from: usize, to: usize)
    requires
        from <= to <= g@.len(),
        g@.len() == gs@.len(),
        forall|i: int| 0 <= i < g@.len() ==> g@[i] as nat == #[trigger] gs@[i],
        forall|i: int| 0 <= i < g@.len() ==> g@[i] < 0x1_0000,
    ensures
        final(out)@ == old(out)@ + groups_text(gs@.subrange(from as int, to as int)),
{
    let mut i: usize = from;
    while i < to
        invariant
            from <= i <= to,
            to <= g@.len(),
            g@.len() == gs@.len(),
            forall|j: int| 0 <= j < g@.len() ==> g@[j] as nat == #[trigger] gs@[j],
            out@ == old(out)@ + groups_text(gs@.subrange(from as int, i as int)),
        decreases to - i,
    {
        let ghost before = gs@.subrange(from as int, i as int);
        let ghost after = gs@.subrange(from as int, i + 1);
        assert(after.drop_last() =~= before);
        proof { reveal_strlit(":"); }
        if i > from {
            out.append(":");
        }
        append_radix(out, g[i], 16);
        proof {
            if i == from {
                assert(before =~= Seq::<nat>::empty());
                assert(groups_text(before) =~= Seq::<char>::empty());
                assert(after.len() == 1);
                assert(after[0] == gs@[i as int]);
                assert(out@ =~= old(out)@ + groups_text(after));
            } else {
                assert(after.len() >= 2);
                assert(after.last() == gs@[i as int]);
                assert(groups_text(after) == groups_text(before) + seq![':'] + hex_text(gs@[i as int]));
                assert(out@ =~= old(out)@ + groups_text(after));
            }
        }
        i = i + 1;
    }
}

fn append_ipv6(out: &mut String, x: u128)
    ensures
        final(out)@ == old(out)@ + ipv6_text(x),
{
    proof { reveal_strlit("::ffff:"); reveal_strlit("::"); }
    if x / 0x1_0000_0000 == 0xffff {
        out.append("::ffff:");
        append_ipv4(out, (x % 0x1_0000_0000) as u32);
        assert(final(out)@ =~= old(out)@ + ipv6_text(x));
        return;
    }
    let g = ipv6_groups(x);
    let ghost gs = groups(x);
    assert forall|i: int| 0 <= i < 8 implies g@[i] < 0x1_0000 by {
        assert(g@[i] as nat == groups(x)[i]);
    }
    let (s, l) = find_longest_zero_run(&g, Ghost(gs));
    proof { lemma_longest_zero_run_unique(gs, s as int, l as int); }
    if l > 1 {
        append_groups(out, &g, Ghost(gs), 0, s);
        out.append("::");
        append_groups(out, &g, Ghost(gs), s + l, 8);
    } else {
        append_groups(out, &g, Ghost(gs), 0, 8);
        assert(gs.subrange(0, 8) =~= gs);
    }
    assert(final(out)@ =~= old(out)@ + ipv6_text(x));
}

} // verus!
