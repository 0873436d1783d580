//! The texts of addresses, and the addresses of automatic tunnels.

use crate::addr::{groups, ipv4_text, ipv6_text, longest_run, zero_run};
use crate::auto_tun::link_local;
use crate::number::{
    decimal, digit_value, digits, lemma_digits, number, written_number_reads_back, IntError,
};
use crate::text::{joined, pieces};
use crate::written::{free_of, lemma_first_piece, lemma_last_piece};
use vstd::prelude::*;
use vstd::string::*;

verus! {

proof fn lemma_digits_are_free(n: nat, radix: nat, c: char)
    requires
        2 <= radix <= 16,
        c == '.' || c == ':',
    ensures
        free_of(digits(n, radix), c),
        digits(n, radix).len() > 0,
{
    lemma_digits(n, radix);
    let s = digits(n, radix);
    assert forall|k: int| 0 <= k < s.len() implies #[trigger] s[k] != c by {
        assert(digit_value(s[k]) < radix);
    }
}

/// Two numbers that are written alike are the same.
pub proof fn written_numbers_differ(a: nat, b: nat, radix: nat)
    requires
        2 <= radix <= 16,
        digits(a, radix) == digits(b, radix),
    ensures
        a == b,
{
    lemma_digits(a, radix);
    lemma_digits(b, radix);
}

/// The text of an IPv4 address has four fields with dots between them, and each
/// reads as its octet.
pub proof fn ipv4_text_reads_back(o: Seq<u8>)
    requires
        o.len() == 4,
    ensures
        pieces(ipv4_text(o), '.').len() == 4,
        forall|i: int|
            0 <= i < 4 ==> number(#[trigger] pieces(ipv4_text(o), '.')[i], 10, 255) == Ok::<
                nat,
                IntError,
            >(o[i] as nat),
{
    reveal_strlit(".");
    let d = Seq::new(4, |i: int| decimal(o[i] as nat));
    assert("."@ =~= seq!['.']);
    assert forall|i: int| 0 <= i < 4 implies free_of(#[trigger] d[i], '.') by {
        lemma_digits_are_free(o[i] as nat, 10, '.');
    }
    let tail = d[2] + seq!['.'] + d[3];
    let mid = d[1] + seq!['.'] + tail;
    assert(ipv4_text(o) =~= d[0] + seq!['.'] + mid);
    lemma_first_piece(d[0], mid, '.');
    lemma_first_piece(d[1], tail, '.');
    lemma_first_piece(d[2], d[3], '.');
    lemma_last_piece(d[3], '.');
    assert(pieces(ipv4_text(o), '.') =~= d);
    assert forall|i: int| 0 <= i < 4 implies number(
        #[trigger] pieces(ipv4_text(o), '.')[i],
        10,
        255,
    ) == Ok::<nat, IntError>(o[i] as nat) by {
        assert(pieces(ipv4_text(o), '.')[i] == d[i]);
        written_number_reads_back(o[i] as nat, 10, 255);
    }
}

/// Different IPv4 addresses have different texts.
pub proof fn ipv4_texts_differ(a: Seq<u8>, b: Seq<u8>)
    requires
        a.len() == 4,
        b.len() == 4,
        ipv4_text(a) == ipv4_text(b),
    ensures
        a == b,
{
    ipv4_text_reads_back(a);
    ipv4_text_reads_back(b);
    assert forall|i: int| 0 <= i < 4 implies a[i] == b[i] by {
        let p = pieces(ipv4_text(a), '.')[i];
        let q = pieces(ipv4_text(b), '.')[i];
        assert(p == q);
        assert(number(p, 10, 255) == Ok::<nat, IntError>(a[i] as nat));
        assert(number(q, 10, 255) == Ok::<nat, IntError>(b[i] as nat));
    }
    assert(a =~= b);
}

/// The link-local address of an identifier is `169.254.` and its two bytes.
pub proof fn link_local_is_the_identifier(id: nat)
    requires
        id < 0x10000,
    ensures
        link_local(id) == "169.254."@ + decimal(id / 256) + "."@ + decimal(id % 256),
{
    reveal_strlit("169.254.");
    reveal_strlit(".");
    reveal_strlit("0123456789abcdef");
    reveal_with_fuel(digits, 4);
    assert(digits(169, 10) =~= seq!['1', '6', '9']);
    assert(digits(254, 10) =~= seq!['2', '5', '4']);
    assert(link_local(id) =~= "169.254."@ + decimal(id / 256) + "."@ + decimal(id % 256));
}

/// Different identifiers have different link-local addresses.
pub proof fn link_locals_differ(a: nat, b: nat)
    requires
        a < 0x10000,
        b < 0x10000,
        link_local(a) == link_local(b),
    ensures
        a == b,
{
    let p = seq![169u8, 254u8, (a / 256) as u8, (a % 256) as u8];
    let q = seq![169u8, 254u8, (b / 256) as u8, (b % 256) as u8];
    ipv4_texts_differ(p, q);
    assert(p[2] == q[2] && p[3] == q[3]);
}

/// A run of zero groups is as long as it can be.
pub proof fn zero_runs_are_whole(g: Seq<nat>, i: int)
    requires
        0 <= i <= g.len(),
    ensures
        i + zero_run(g, i) <= g.len(),
        forall|k: int| i <= k < i + zero_run(g, i) ==> #[trigger] g[k] == 0,
        i + zero_run(g, i) < g.len() ==> g[i + zero_run(g, i)] != 0,
    decreases g.len() - i,
{
    if i < g.len() && g[i] == 0 {
        zero_runs_are_whole(g, i + 1);
    }
}

/// The longest run of zero groups is at least as long as every other one, and longer
/// than those before it.
pub proof fn longest_run_is_the_first(g: Seq<nat>, n: nat, i: int)
    requires
        0 <= i <= n,
    ensures
        0 <= longest_run(g, n) <= n,
        zero_run(g, i) <= zero_run(g, longest_run(g, n)),
        i < longest_run(g, n) ==> zero_run(g, i) < zero_run(g, longest_run(g, n)),
    decreases n,
{
    if n > 0 {
        let k = if i < n {
            i
        } else {
            n - 1
        };
        longest_run_is_the_first(g, (n - 1) as nat, k);
        longest_run_is_the_first(g, (n - 1) as nat, longest_run(g, (n - 1) as nat));
    }
}

/// Whether `m` groups from position `i` on are zero.
pub open spec fn zeros(g: Seq<nat>, i: int, m: int) -> bool {
    &&& 0 <= i <= i + m <= g.len()
    &&& forall|k: int| i <= k < i + m ==> #[trigger] g[k] == 0
}

proof fn lemma_zero_run_reaches(g: Seq<nat>, i: int, m: int)
    requires
        zeros(g, i, m),
    ensures
        zero_run(g, i) >= m,
    decreases m,
{
    if m > 0 {
        assert(g[i] == 0);
        lemma_zero_run_reaches(g, i + 1, m - 1);
    }
}

/// The groups of an IPv6 address are its bytes, two by two, the high one first.
pub proof fn groups_are_pairs_of_bytes(o: Seq<u8>, i: int)
    requires
        o.len() == 16,
        0 <= i < 8,
    ensures
        groups(o).len() == 8,
        groups(o)[i] == o[2 * i] * 256 + o[2 * i + 1],
{
}

/// An IPv6 address is written in hexadecimal groups with colons between them. Where
/// two or more groups in a row are zero, `::` stands for the first of the longest
/// runs of them. An IPv4-mapped address ends in dotted form.
pub proof fn ipv6_text_is_canonical(o: Seq<u8>, b: int, n: int)
    requires
        o.len() == 16,
        zeros(groups(o), b, n),
        forall|i: int, m: int| #[trigger] zeros(groups(o), i, m) ==> m <= n && (i < b ==> m < n),
    ensures
        ({
            let g = groups(o);
            let hex = |x: nat| digits(x, 16);
            let mapped = (forall|i: int| 0 <= i < 5 ==> g[i] == 0) && g[5] == 0xffff;
            &&& mapped ==> ipv6_text(o) == "::ffff:"@ + ipv4_text(o.skip(12))
            &&& !mapped && n <= 1 ==> ipv6_text(o) == joined(g.map_values(hex), ":"@)
            &&& !mapped && n > 1 ==> ipv6_text(o) == joined(g.take(b).map_values(hex), ":"@)
                + "::"@ + joined(g.skip(b + n).map_values(hex), ":"@)
        }),
{
    let g = groups(o);
    let l = longest_run(g, 7);
    longest_run_is_the_first(g, 7, 0);
    zero_runs_are_whole(g, l);
    assert(zeros(g, l, zero_run(g, l) as int));
    if n > 1 {
        lemma_zero_run_reaches(g, b, n);
        longest_run_is_the_first(g, 7, b);
    }
}

} // verus!
