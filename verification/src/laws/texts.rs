//! Texts: what trimming, splitting and joining give back.

use crate::text::{
    decoded, drop_char, is_white, joined, lower_text, pieces, skip_char, trim_end, trim_start,
    trimmed, unquoted, without_prefix, without_suffix, word_len, words,
};
use crate::written::{
    blank, free_of, lemma_first_piece, lemma_last_piece, lemma_one_word, lemma_word_len, solid,
};
use vstd::prelude::*;
use vstd::utf8::*;

verus! {

/// The white space of Unicode is these twenty-five characters.
pub proof fn white_space_is_that_of_unicode(c: char)
    ensures
        is_white(c) <==> seq![
            0x9u32,
            0xa,
            0xb,
            0xc,
            0xd,
            0x20,
            0x85,
            0xa0,
            0x1680,
            0x2000,
            0x2001,
            0x2002,
            0x2003,
            0x2004,
            0x2005,
            0x2006,
            0x2007,
            0x2008,
            0x2009,
            0x200a,
            0x2028,
            0x2029,
            0x202f,
            0x205f,
            0x3000,
        ].contains(c as u32),
{
    let all = seq![
        0x9u32,
        0xa,
        0xb,
        0xc,
        0xd,
        0x20,
        0x85,
        0xa0,
        0x1680,
        0x2000,
        0x2001,
        0x2002,
        0x2003,
        0x2004,
        0x2005,
        0x2006,
        0x2007,
        0x2008,
        0x2009,
        0x200a,
        0x2028,
        0x2029,
        0x202f,
        0x205f,
        0x3000,
    ];
    let n = c as u32;
    if 0x9 <= n <= 0xd {
        assert(all[n as int - 9] == n);
    }
    if 0x2000 <= n <= 0x200a {
        assert(all[n as int - 0x2000 + 9] == n);
    }
    assert(all[5] == 0x20 && all[6] == 0x85 && all[7] == 0xa0 && all[8] == 0x1680);
    assert(all[20] == 0x2028 && all[21] == 0x2029 && all[22] == 0x202f && all[23] == 0x205f
        && all[24] == 0x3000);
}

/// What is trimmed at the start of a text.
pub proof fn lemma_start_of(s: Seq<char>) -> (a: Seq<char>)
    ensures
        blank(a),
        s == a + trim_start(s),
        trim_start(s).len() > 0 ==> !is_white(trim_start(s)[0]),
    decreases s.len(),
{
    if s.len() > 0 && is_white(s[0]) {
        let a = lemma_start_of(s.drop_first());
        let b = seq![s[0]] + a;
        assert forall|k: int| 0 <= k < b.len() implies is_white(#[trigger] b[k]) by {
            if k > 0 {
                assert(b[k] == a[k - 1]);
            }
        }
        assert(s =~= seq![s[0]] + s.drop_first());
        assert(seq![s[0]] + (a + trim_start(s)) =~= b + trim_start(s));
        b
    } else {
        assert(s =~= Seq::<char>::empty() + s);
        Seq::empty()
    }
}

/// What is trimmed at the end of a text.
pub proof fn lemma_end_of(s: Seq<char>) -> (b: Seq<char>)
    ensures
        blank(b),
        s == trim_end(s) + b,
        trim_end(s).len() > 0 ==> !is_white(trim_end(s).last()),
        trim_end(s).len() > 0 ==> trim_end(s)[0] == s[0],
    decreases s.len(),
{
    if s.len() > 0 && is_white(s.last()) {
        let a = lemma_end_of(s.drop_last());
        let b = a.push(s.last());
        assert forall|k: int| 0 <= k < b.len() implies is_white(#[trigger] b[k]) by {
            if k < a.len() {
                assert(b[k] == a[k]);
            }
        }
        assert(s =~= s.drop_last().push(s.last()));
        assert((trim_end(s) + a).push(s.last()) =~= trim_end(s) + b);
        b
    } else {
        assert(s =~= s + Seq::<char>::empty());
        Seq::empty()
    }
}

/// Trimming takes away white space at the two ends, and all of it: what is left
/// neither begins nor ends with any.
pub proof fn trimming_takes_the_ends(s: Seq<char>)
    ensures
        exists|a: Seq<char>, b: Seq<char>| #[trigger]
            (a + trimmed(s) + b) == s && blank(a) && blank(b),
        trimmed(s).len() > 0 ==> !is_white(trimmed(s)[0]) && !is_white(trimmed(s).last()),
{
    let a = lemma_start_of(s);
    let t = trim_start(s);
    let b = lemma_end_of(t);
    assert(a + trimmed(s) + b =~= s);
}

/// The words of a text come one after the other: white space in front of a word
/// makes no difference, and any white space ends it.
pub proof fn words_come_in_order(a: Seq<char>, w: Seq<char>, c: char, rest: Seq<char>)
    requires
        blank(a),
        solid(w),
        w.len() > 0,
        is_white(c),
    ensures
        words(a + w + seq![c] + rest) == seq![w] + words(rest),
        words(a + w) == seq![w],
        words(a) == Seq::<Seq<char>>::empty(),
{
    let s = w + seq![c] + rest;
    assert forall|k: int| 0 <= k < w.len() implies !is_white(#[trigger] s[k]) by {
        assert(s[k] == w[k]);
    }
    assert(s[w.len() as int] == c);
    lemma_word_len(s, w.len() as int);
    assert(!is_white(s[0]));
    assert(s.take(w.len() as int) == w);
    let t = s.skip(w.len() as int);
    assert(t[0] == c);
    assert(t.drop_first() == rest);
    assert(words(t) == words(rest));
    assert(words(s) == seq![w] + words(t));
    lemma_words_skip_blank(a, s);
    assert(a + w + seq![c] + rest == a + s);
    lemma_words_skip_blank(a, w);
    lemma_one_word(w);
    lemma_words_skip_blank(a, Seq::empty());
    assert(a + Seq::<char>::empty() == a);
}

/// White space before a text makes no difference to its words.
pub proof fn lemma_words_skip_blank(a: Seq<char>, s: Seq<char>)
    requires
        blank(a),
    ensures
        words(a + s) == words(s),
    decreases a.len(),
{
    if a.len() == 0 {
        assert(a + s == s);
    } else {
        assert(is_white(a[0]));
        let t = a.drop_first();
        assert forall|k: int| 0 <= k < t.len() implies is_white(#[trigger] t[k]) by {
            assert(t[k] == a[k + 1]);
        }
        assert((a + s).drop_first() == t + s);
        lemma_words_skip_blank(t, s);
    }
}

proof fn lemma_word_len_bound(s: Seq<char>)
    ensures
        word_len(s) <= s.len(),
        forall|k: int| 0 <= k < word_len(s) ==> !is_white(#[trigger] s[k]),
        word_len(s) < s.len() ==> is_white(s[word_len(s) as int]),
    decreases s.len(),
{
    if s.len() > 0 && !is_white(s[0]) {
        let t = s.drop_first();
        lemma_word_len_bound(t);
        assert forall|k: int| 0 <= k < word_len(s) implies !is_white(#[trigger] s[k]) by {
            if k > 0 {
                assert(s[k] == t[k - 1]);
            }
        }
    }
}

/// White space behind a text makes no difference to its words.
pub proof fn lemma_words_drop_blank(s: Seq<char>, b: Seq<char>)
    requires
        blank(b),
    ensures
        words(s + b) == words(s),
    decreases s.len(),
{
    if s.len() == 0 {
        lemma_words_skip_blank(b, s);
        assert(s + b == b + s);
    } else if is_white(s[0]) {
        assert((s + b).drop_first() == s.drop_first() + b);
        lemma_words_drop_blank(s.drop_first(), b);
    } else {
        lemma_word_len_bound(s);
        let n = word_len(s) as int;
        let t = s + b;
        assert forall|k: int| 0 <= k < n implies !is_white(#[trigger] t[k]) by {
            assert(t[k] == s[k]);
        }
        if n < t.len() {
            if n < s.len() {
                assert(t[n] == s[n]);
            } else {
                assert(t[n] == b[0]);
            }
        }
        lemma_word_len(t, n);
        assert(t.take(n) == s.take(n));
        assert(t.skip(n) == s.skip(n) + b);
        assert(n > 0);
        lemma_words_drop_blank(s.skip(n), b);
    }
}

/// White space around a text makes no difference to its words.
pub proof fn padded_text_has_the_same_words(a: Seq<char>, s: Seq<char>, b: Seq<char>)
    requires
        blank(a),
        blank(b),
    ensures
        words(a + s + b) == words(s),
        words(trimmed(s)) == words(s),
{
    lemma_words_drop_blank(a + s, b);
    lemma_words_skip_blank(a, s);
    let h = lemma_start_of(s);
    let t = trim_start(s);
    let e = lemma_end_of(t);
    lemma_words_skip_blank(h, t);
    lemma_words_drop_blank(trimmed(s), e);
}

/// Every word is a run of characters without white space, and not empty.
pub proof fn words_are_solid(s: Seq<char>, i: int)
    requires
        0 <= i < words(s).len(),
    ensures
        words(s)[i].len() > 0,
        solid(words(s)[i]),
    decreases s.len(),
{
    if is_white(s[0]) {
        words_are_solid(s.drop_first(), i);
    } else {
        lemma_word_len_bound(s);
        let n = word_len(s) as int;
        assert(n > 0);
        if i == 0 {
            let w = s.take(n);
            assert(words(s)[0] == w);
            assert forall|k: int| 0 <= k < w.len() implies !is_white(#[trigger] w[k]) by {
                assert(w[k] == s[k]);
            }
        } else {
            words_are_solid(s.skip(n), i - 1);
            assert(words(s)[i] == words(s.skip(n))[i - 1]);
        }
    }
}

/// Splitting at a character undoes joining with it.
pub proof fn split_undoes_join(v: Seq<Seq<char>>, c: char)
    requires
        v.len() > 0,
        forall|i: int| 0 <= i < v.len() ==> free_of(#[trigger] v[i], c),
    ensures
        pieces(joined(v, seq![c]), c) == v,
    decreases v.len(),
{
    lemma_split_join(v, c, Seq::empty());
    assert(joined(v, seq![c]) + Seq::<char>::empty() == joined(v, seq![c]));
    assert(v.last() == v[v.len() - 1]);
    assert(v.last() + Seq::<char>::empty() == v.last());
    lemma_last_piece(v.last(), c);
    assert(v.drop_last() + seq![v.last()] == v);
}

proof fn lemma_split_join(v: Seq<Seq<char>>, c: char, tail: Seq<char>)
    requires
        v.len() > 0,
        forall|i: int| 0 <= i < v.len() ==> free_of(#[trigger] v[i], c),
    ensures
        pieces(joined(v, seq![c]) + tail, c) == v.drop_last() + pieces(v.last() + tail, c),
    decreases v.len(),
{
    if v.len() == 1 {
        assert(v.drop_last() == Seq::<Seq<char>>::empty());
        assert(v.last() == v[0]);
        assert(Seq::<Seq<char>>::empty() + pieces(v[0] + tail, c) == pieces(v[0] + tail, c));
    } else {
        let head = v.drop_last();
        assert forall|i: int| 0 <= i < head.len() implies free_of(#[trigger] head[i], c) by {
            assert(head[i] == v[i]);
        }
        let rest = seq![c] + v.last() + tail;
        assert(joined(v, seq![c]) + tail == joined(head, seq![c]) + rest);
        lemma_split_join(head, c, rest);
        assert(head.last() == v[v.len() - 2]);
        assert(head.last() + rest == head.last() + seq![c] + (v.last() + tail));
        lemma_first_piece(head.last(), v.last() + tail, c);
        assert(head.drop_last() + (seq![head.last()] + pieces(v.last() + tail, c)) == head
            + pieces(v.last() + tail, c));
    }
}

/// Joining puts the separator between each two neighbours and nowhere else.
pub proof fn join_separates_neighbours(v: Seq<Seq<char>>, x: Seq<char>, sep: Seq<char>)
    requires
        v.len() > 0,
    ensures
        joined(Seq::empty(), sep).len() == 0,
        joined(seq![x], sep) == x,
        joined(v.push(x), sep) == joined(v, sep) + sep + x,
{
    assert(v.push(x).drop_last() == v);
}

/// Whether `s` is `c` alone.
pub open spec fn all_are(s: Seq<char>, c: char) -> bool {
    forall|k: int| 0 <= k < s.len() ==> #[trigger] s[k] == c
}

proof fn lemma_skip_run(q: Seq<char>, s: Seq<char>, c: char)
    requires
        all_are(q, c),
    ensures
        skip_char(q + s, c) == skip_char(s, c),
    decreases q.len(),
{
    if q.len() == 0 {
        assert(q + s == s);
    } else {
        assert(q[0] == c);
        let t = q.drop_first();
        assert forall|k: int| 0 <= k < t.len() implies #[trigger] t[k] == c by {
            assert(t[k] == q[k + 1]);
        }
        assert((q + s).drop_first() == t + s);
        lemma_skip_run(t, s, c);
    }
}

proof fn lemma_drop_run(s: Seq<char>, r: Seq<char>, c: char)
    requires
        all_are(r, c),
    ensures
        drop_char(s + r, c) == drop_char(s, c),
    decreases r.len(),
{
    if r.len() == 0 {
        assert(s + r == s);
    } else {
        assert(r[r.len() - 1] == c);
        let t = r.drop_last();
        assert forall|k: int| 0 <= k < t.len() implies #[trigger] t[k] == c by {
            assert(t[k] == r[k]);
        }
        assert((s + r).last() == c);
        assert((s + r).drop_last() == s + t);
        lemma_drop_run(s, t, c);
    }
}

/// Quotes around a text are taken away, however many there are, and nothing else
/// is.
pub proof fn quotes_are_taken_away(q: Seq<char>, s: Seq<char>, r: Seq<char>, c: char)
    requires
        all_are(q, c),
        all_are(r, c),
        s.len() > 0,
        s[0] != c,
        s.last() != c,
    ensures
        unquoted(q + s + r, c) == s,
        unquoted(q, c).len() == 0,
{
    assert(q + s + r == q + (s + r));
    lemma_skip_run(q, s + r, c);
    assert(skip_char(s + r, c) == s + r);
    lemma_drop_run(s, r, c);
    lemma_skip_run(q, Seq::empty(), c);
    assert(q + Seq::<char>::empty() == q);
}

/// A prefix is taken away as often as it stands there, and nothing else is.
pub proof fn prefixes_are_taken_away(p: Seq<char>, s: Seq<char>)
    requires
        p.len() > 0,
    ensures
        without_prefix(p + s, p) == without_prefix(s, p),
        !p.is_prefix_of(s) ==> without_prefix(s, p) == s,
        !p.is_prefix_of(without_prefix(s, p)),
    decreases s.len(),
{
    assert(p.is_prefix_of(p + s)) by {
        assert(p =~= (p + s).subrange(0, p.len() as int));
    }
    assert((p + s).skip(p.len() as int) == s);
    if p.is_prefix_of(s) {
        prefixes_are_taken_away(p, s.skip(p.len() as int));
    }
}

/// A suffix is taken away as often as it stands there, and nothing else is.
pub proof fn suffixes_are_taken_away(s: Seq<char>, p: Seq<char>)
    requires
        p.len() > 0,
    ensures
        without_suffix(s + p, p) == without_suffix(s, p),
        !p.is_suffix_of(s) ==> without_suffix(s, p) == s,
        !p.is_suffix_of(without_suffix(s, p)),
    decreases s.len(),
{
    assert(p.is_suffix_of(s + p)) by {
        assert(p =~= (s + p).subrange(s.len() as int, (s + p).len() as int));
    }
    assert((s + p).take(s.len() as int) == s);
    if p.is_suffix_of(s) {
        suffixes_are_taken_away(s.take(s.len() - p.len()), p);
    }
}

/// Of a text in ASCII, lower case changes the capital letters, each to the small
/// one 32 places behind it, and nothing else.
pub proof fn lower_case_changes_capitals(s: Seq<char>, i: int)
    requires
        is_ascii_chars(s),
        0 <= i < s.len(),
    ensures
        lower_text(s).len() == s.len(),
        'A' <= s[i] <= 'Z' ==> lower_text(s)[i] as int == s[i] as int + 32,
        !('A' <= s[i] <= 'Z') ==> lower_text(s)[i] == s[i],
{
    assert('\0' <= s[i] <= '\u{7f}');
}

/// Bytes that are the UTF-8 form of a text are decoded to that text.
pub proof fn decoding_undoes_encoding(s: Seq<char>)
    ensures
        decoded(encode_utf8(s)) == s,
{
    encode_utf8_valid_utf8(s);
    encode_utf8_decode_utf8(s);
}

} // verus!
