//! IP addresses as text.

use crate::number::{decimal, digits, format_decimal, format_number};
use crate::text::{copy, join, joined, texts};
use vstd::prelude::*;
use vstd::string::*;

verus! {

/// The dotted form of the four octets of an IPv4 address.
pub open spec fn ipv4_text(o: Seq<u8>) -> Seq<char> {
    decimal(o[0] as nat) + "."@ + decimal(o[1] as nat) + "."@ + decimal(o[2] as nat) + "."@
        + decimal(o[3] as nat)
}

/// The sixteen octets of an IPv6 address as eight groups of 16 bits.
pub open spec fn groups(o: Seq<u8>) -> Seq<nat> {
    Seq::new(8, |i: int| (o[2 * i] * 256 + o[2 * i + 1]) as nat)
}

/// How many groups from position `i` on are zero.
pub open spec fn zero_run(g: Seq<nat>, i: int) -> nat
    decreases g.len() - i,
{
    if 0 <= i < g.len() && g[i] == 0 {
        1 + zero_run(g, i + 1)
    } else {
        0
    }
}

/// The first of the positions up to `n` at which the longest run of zero groups
/// starts.
pub open spec fn longest_run(g: Seq<nat>, n: nat) -> int
    decreases n,
{
    if n == 0 {
        0
    } else {
        let b = longest_run(g, (n - 1) as nat);
        if zero_run(g, n as int) > zero_run(g, b) {
            n as int
        } else {
            b
        }
    }
}

/// Groups in hexadecimal, with colons between them.
pub open spec fn groups_text(g: Seq<nat>) -> Seq<char> {
    joined(g.map_values(|x: nat| digits(x, 16)), ":"@)
}

/// The canonical text of the sixteen octets of an IPv6 address. The first of the
/// longest runs of two or more zero groups is written as `::`, and the last four
/// octets of an IPv4-mapped address in dotted form.
pub open spec fn ipv6_text(o: Seq<u8>) -> Seq<char> {
    let g = groups(o);
    let b = longest_run(g, 7);
    let n = zero_run(g, b) as int;
    if (forall|i: int| 0 <= i < 5 ==> g[i] == 0) && g[5] == 0xffff {
        "::ffff:"@ + ipv4_text(o.skip(12))
    } else if n > 1 {
        groups_text(g.take(b)) + "::"@ + groups_text(g.skip(b + n))
    } else {
        groups_text(g)
    }
}

/// Writes an IPv4 address.
pub fn format_ipv4(a: u8, b: u8, c: u8, d: u8) -> (r: String)
    ensures
        r@ == ipv4_text(seq![a, b, c, d]),
{
    let mut r = format_decimal(a as u32);
    r.append(".");
    r.append(format_decimal(b as u32).as_str());
    r.append(".");
    r.append(format_decimal(c as u32).as_str());
    r.append(".");
    r.append(format_decimal(d as u32).as_str());
    r
}

spec fn group_views(v: Seq<u32>) -> Seq<nat> {
    v.map_values(|x: u32| x as nat)
}

proof fn lemma_zero_run_bounds(g: Seq<nat>, i: int)
    requires
        0 <= i <= g.len(),
    ensures
        i + zero_run(g, i) <= g.len(),
    decreases g.len() - i,
{
    if i < g.len() && g[i] == 0 {
        lemma_zero_run_bounds(g, i + 1);
    }
}

fn count_zeros(g: &Vec<u32>, i: usize) -> (r: usize)
    requires
        i <= g@.len(),
    ensures
        r == zero_run(group_views(g@), i as int),
        i + r <= g@.len(),
{
    let mut j: usize = i;
    while j < g.len() && g[j] == 0
        invariant
            i <= j <= g@.len(),
            zero_run(group_views(g@), i as int) == (j - i) + zero_run(group_views(g@), j as int),
        decreases g@.len() - j,
    {
        assert(group_views(g@)[j as int] == g@[j as int]);
        j += 1;
    }
    assert(j < g@.len() ==> group_views(g@)[j as int] == g@[j as int]);
    j - i
}

fn format_groups(g: &Vec<u32>, from: usize, to: usize) -> (r: String)
    requires
        from <= to <= g@.len(),
    ensures
        r@ == groups_text(group_views(g@).subrange(from as int, to as int)),
{
    let mut parts: Vec<String> = Vec::new();
    let ghost want = group_views(g@).subrange(from as int, to as int).map_values(
        |x: nat| digits(x, 16),
    );
    let mut i: usize = from;
    assert(texts(parts@) =~= want.take(0));
    while i < to
        invariant
            from <= i <= to <= g@.len(),
            want == group_views(g@).subrange(from as int, to as int).map_values(
                |x: nat| digits(x, 16),
            ),
            texts(parts@) == want.take(i - from),
        decreases to - i,
    {
        let ghost before = texts(parts@);
        let p = format_number(g[i], 16);
        parts.push(p);
        assert(texts(parts@) =~= before.push(p@));
        assert(want[i - from] == p@);
        assert(want.take(i + 1 - from) =~= want.take(i - from).push(p@));
        i += 1;
    }
    assert(want.take(i - from) =~= want);
    join(&parts, ":")
}

/// Writes an IPv6 address.
pub fn format_ipv6(o: &Vec<u8>) -> (r: String)
    requires
        o@.len() == 16,
    ensures
        r@ == ipv6_text(o@),
{
    let mut g: Vec<u32> = Vec::new();
    let mut i: usize = 0;
    while i < 8
        invariant
            i <= 8,
            o@.len() == 16,
            g@.len() == i,
            forall|k: int| 0 <= k < i ==> g@[k] as nat == groups(o@)[k],
        decreases 8 - i,
    {
        let x: u32 = o[2 * i] as u32 * 256 + o[2 * i + 1] as u32;
        g.push(x);
        i += 1;
    }
    let ghost gs = groups(o@);
    assert(group_views(g@) =~= gs);
    if g[0] == 0 && g[1] == 0 && g[2] == 0 && g[3] == 0 && g[4] == 0 && g[5] == 0xffff {
        assert(forall|k: int| 0 <= k < 5 ==> gs[k] == 0);
        let mut r = copy("::ffff:");
        r.append(format_ipv4(o[12], o[13], o[14], o[15]).as_str());
        assert(o@.skip(12) =~= seq![o@[12], o@[13], o@[14], o@[15]]);
        return r;
    }
    assert(!((forall|k: int| 0 <= k < 5 ==> gs[k] == 0) && gs[5] == 0xffff)) by {
        assert(gs[0] == g@[0] && gs[1] == g@[1] && gs[2] == g@[2] && gs[3] == g@[3] && gs[4]
            == g@[4] && gs[5] == g@[5]);
    }
    let mut b: usize = 0;
    let mut n: usize = count_zeros(&g, 0);
    let mut k: usize = 1;
    while k < 8
        invariant
            1 <= k <= 8,
            b < k,
            g@.len() == 8,
            group_views(g@) == gs,
            b == longest_run(gs, (k - 1) as nat),
            n == zero_run(gs, b as int),
        decreases 8 - k,
    {
        let m = count_zeros(&g, k);
        if m > n {
            b = k;
            n = m;
        }
        k += 1;
    }
    proof {
        lemma_zero_run_bounds(gs, b as int);
    }
    if n > 1 {
        let mut r = format_groups(&g, 0, b);
        assert(gs.subrange(0, b as int) =~= gs.take(b as int));
        r.append("::");
        let tail = format_groups(&g, b + n, 8);
        assert(gs.subrange(b + n, 8) =~= gs.skip(b + n));
        r.append(tail.as_str());
        r
    } else {
        assert(gs.subrange(0, 8) =~= gs);
        format_groups(&g, 0, 8)
    }
}

} // verus!
