//! Text as a sequence of characters: trimming, splitting, searching.

use crate::outside::{ascii_lower, from_utf8_lossy, lowercase, to_lowercase, utf8_lossy};
use vstd::prelude::*;
use vstd::string::*;
use vstd::utf8::*;

verus! {

/// The views of a sequence of strings.
pub open spec fn texts(v: Seq<String>) -> Seq<Seq<char>> {
    v.map_values(|s: String| s@)
}

/// The view of an optional string.
pub open spec fn opt_text(o: Option<String>) -> Option<Seq<char>> {
    match o {
        Some(s) => Some(s@),
        None => None,
    }
}

/// The characters with the Unicode property `White_Space`.
pub open spec fn is_white(c: char) -> bool {
    ||| '\u{9}' <= c <= '\u{d}'
    ||| c == ' '
    ||| c == '\u{85}'
    ||| c == '\u{a0}'
    ||| c == '\u{1680}'
    ||| '\u{2000}' <= c <= '\u{200a}'
    ||| c == '\u{2028}'
    ||| c == '\u{2029}'
    ||| c == '\u{202f}'
    ||| c == '\u{205f}'
    ||| c == '\u{3000}'
}

/// How many characters at the start of `s` are not white space.
pub open spec fn word_len(s: Seq<char>) -> nat
    decreases s.len(),
{
    if s.len() > 0 && !is_white(s[0]) {
        1 + word_len(s.drop_first())
    } else {
        0
    }
}

/// `s` without the white space at its start.
pub open spec fn trim_start(s: Seq<char>) -> Seq<char>
    decreases s.len(),
{
    if s.len() > 0 && is_white(s[0]) {
        trim_start(s.drop_first())
    } else {
        s
    }
}

/// `s` without the white space at its end.
pub open spec fn trim_end(s: Seq<char>) -> Seq<char>
    decreases s.len(),
{
    if s.len() > 0 && is_white(s.last()) {
        trim_end(s.drop_last())
    } else {
        s
    }
}

/// `s` without the white space at either end.
pub open spec fn trimmed(s: Seq<char>) -> Seq<char> {
    trim_end(trim_start(s))
}

/// The maximal runs of characters of `s` that are not white space, in order.
pub open spec fn words(s: Seq<char>) -> Seq<Seq<char>>
    decreases s.len(),
{
    if s.len() == 0 {
        seq![]
    } else if is_white(s[0]) {
        words(s.drop_first())
    } else {
        let n = word_len(s) as int;
        if 0 < n <= s.len() {
            seq![s.take(n)] + words(s.skip(n))
        } else {
            seq![]
        }
    }
}

/// The position of the first `c` in `s`, or the length of `s` where there is none.
pub open spec fn first_index(s: Seq<char>, c: char) -> int
    decreases s.len(),
{
    if s.len() == 0 || s[0] == c {
        0
    } else {
        1 + first_index(s.drop_first(), c)
    }
}

/// The position of the last `c` in `s`, or -1 where there is none.
pub open spec fn last_index(s: Seq<char>, c: char) -> int
    decreases s.len(),
{
    if s.len() == 0 {
        -1
    } else if s.last() == c {
        s.len() - 1
    } else {
        last_index(s.drop_last(), c)
    }
}

/// The parts of `s` between the occurrences of `c`.
pub open spec fn pieces(s: Seq<char>, c: char) -> Seq<Seq<char>>
    decreases s.len(),
{
    let n = first_index(s, c);
    if 0 <= n < s.len() {
        seq![s.take(n)] + pieces(s.skip(n + 1), c)
    } else {
        seq![s]
    }
}

/// `s` without the run of `c` at its start.
pub open spec fn skip_char(s: Seq<char>, c: char) -> Seq<char>
    decreases s.len(),
{
    if s.len() > 0 && s[0] == c {
        skip_char(s.drop_first(), c)
    } else {
        s
    }
}

/// `s` without the run of `c` at its end.
pub open spec fn drop_char(s: Seq<char>, c: char) -> Seq<char>
    decreases s.len(),
{
    if s.len() > 0 && s.last() == c {
        drop_char(s.drop_last(), c)
    } else {
        s
    }
}

/// `s` without the runs of `c` at its two ends.
pub open spec fn unquoted(s: Seq<char>, c: char) -> Seq<char> {
    drop_char(skip_char(s, c), c)
}

/// `s` without `p` at its start, as often as it stands there.
pub open spec fn without_prefix(s: Seq<char>, p: Seq<char>) -> Seq<char>
    decreases s.len(),
{
    if p.len() > 0 && p.is_prefix_of(s) {
        without_prefix(s.skip(p.len() as int), p)
    } else {
        s
    }
}

/// `s` without `p` at its end, as often as it stands there.
pub open spec fn without_suffix(s: Seq<char>, p: Seq<char>) -> Seq<char>
    decreases s.len(),
{
    if p.len() > 0 && p.is_suffix_of(s) {
        without_suffix(s.take(s.len() - p.len()), p)
    } else {
        s
    }
}

/// The elements of `v` with `sep` between each two neighbours.
pub open spec fn joined(v: Seq<Seq<char>>, sep: Seq<char>) -> Seq<char>
    decreases v.len(),
{
    if v.len() == 0 {
        seq![]
    } else if v.len() == 1 {
        v[0]
    } else {
        joined(v.drop_last(), sep) + sep + v.last()
    }
}

/// `s` in lower case.
pub open spec fn lower_text(s: Seq<char>) -> Seq<char> {
    if is_ascii_chars(s) {
        s.map_values(|c: char| ascii_lower(c))
    } else {
        lowercase(s)
    }
}

/// The text that UTF-8 bytes stand for. Of bytes that are not UTF-8, it is the
/// text with the invalid parts replaced.
pub open spec fn decoded(bytes: Seq<u8>) -> Seq<char> {
    if valid_utf8(bytes) {
        decode_utf8(bytes)
    } else {
        utf8_lossy(bytes)
    }
}

/// `s` in lower case.
pub fn lower(s: &str) -> (r: String)
    ensures
        r@ == lower_text(s@),
{
    to_lowercase(s)
}

/// The text that UTF-8 bytes stand for.
pub fn decode(bytes: &Vec<u8>) -> (r: String)
    ensures
        r@ == decoded(bytes@),
{
    from_utf8_lossy(bytes)
}

fn white(c: char) -> (r: bool)
    ensures
        r == is_white(c),
{
    ('\u{9}' <= c && c <= '\u{d}') || c == ' ' || c == '\u{85}' || c == '\u{a0}' || c == '\u{1680}'
        || ('\u{2000}' <= c && c <= '\u{200a}') || c == '\u{2028}' || c == '\u{2029}' || c
        == '\u{202f}' || c == '\u{205f}' || c == '\u{3000}'
}

/// The characters of `s`.
pub fn chars(s: &str) -> (r: Vec<char>)
    ensures
        r@ == s@,
{
    let mut r: Vec<char> = Vec::new();
    for c in it: s.chars()
        invariant
            r@ == s@.take(it.index() as int),
            it.seq() == s@,
    {
        r.push(c);
        assert(s@.take(it.index() + 1) == s@.take(it.index() as int).push(c));
    }
    assert(s@.take(s@.len() as int) == s@);
    r
}

/// The characters of `s` from position `i` up to position `j`.
pub fn slice(s: &str, i: usize, j: usize) -> (r: String)
    requires
        i <= j <= s@.len(),
    ensures
        r@ == s@.subrange(i as int, j as int),
{
    s.substring_char(i, j).to_owned()
}

/// A copy of `s`.
pub fn copy(s: &str) -> (r: String)
    ensures
        r@ == s@,
{
    s.to_owned()
}

/// A copy of an optional string.
pub fn copy_opt(o: &Option<String>) -> (r: Option<String>)
    ensures
        opt_text(r) == opt_text(*o),
{
    match o {
        Some(s) => Some(s.clone()),
        None => None,
    }
}

/// Copies of the strings of `v`, in order.
pub fn copy_all(v: &Vec<String>) -> (r: Vec<String>)
    ensures
        texts(r@) == texts(v@),
{
    let mut r: Vec<String> = Vec::new();
    let mut i: usize = 0;
    while i < v.len()
        invariant
            i <= v.len(),
            texts(r@) == texts(v@).take(i as int),
        decreases v.len() - i,
    {
        let ghost before = texts(r@);
        let s = copy(v[i].as_str());
        r.push(s);
        i += 1;
        assert(texts(r@) == before.push(s@));
        assert(texts(r@) == texts(v@).take(i as int));
    }
    assert(texts(v@).take(i as int) == texts(v@));
    r
}

/// Whether `a` and `b` hold the same characters.
pub fn same(a: &str, b: &str) -> (r: bool)
    ensures
        r == (a@ == b@),
{
    let x = chars(a);
    let y = chars(b);
    if x.len() != y.len() {
        return false;
    }
    let mut i: usize = 0;
    while i < x.len()
        invariant
            i <= x.len(),
            x.len() == y.len(),
            x@ == a@,
            y@ == b@,
            forall|k: int| 0 <= k < i ==> x@[k] == y@[k],
        decreases x.len() - i,
    {
        if x[i] != y[i] {
            return false;
        }
        i += 1;
    }
    assert(a@ =~= b@);
    true
}

/// `s` without the white space at either end.
pub fn trim(s: &str) -> (r: String)
    ensures
        r@ == trimmed(s@),
{
    let cs = chars(s);
    let mut i: usize = 0;
    assert(s@.skip(0) == s@);
    while i < cs.len() && white(cs[i])
        invariant
            i <= cs.len(),
            cs@ == s@,
            trim_start(s@) == trim_start(s@.skip(i as int)),
        decreases cs.len() - i,
    {
        assert(s@.skip(i as int).drop_first() == s@.skip(i + 1));
        i += 1;
    }
    let ghost t = s@.skip(i as int);
    assert(trim_start(s@) == t);
    let mut j: usize = cs.len();
    assert(t.take(j - i) == t);
    while i < j && white(cs[j - 1])
        invariant
            i <= j <= cs.len(),
            cs@ == s@,
            t == s@.skip(i as int),
            trim_end(t) == trim_end(t.take(j - i)),
        decreases j - i,
    {
        assert(t.take(j - i).drop_last() == t.take(j - 1 - i));
        j -= 1;
    }
    assert(t.take(j - i) == s@.subrange(i as int, j as int));
    slice(s, i, j)
}

/// The maximal runs of characters of `s` that are not white space, in order.
pub fn split_whitespace(s: &str) -> (r: Vec<String>)
    ensures
        texts(r@) == words(s@),
{
    let cs = chars(s);
    let mut r: Vec<String> = Vec::new();
    let mut i: usize = 0;
    assert(s@.skip(0) == s@);
    assert(texts(r@) + words(s@) == words(s@));
    while i < cs.len()
        invariant
            i <= cs.len(),
            cs@ == s@,
            texts(r@) + words(s@.skip(i as int)) == words(s@),
        decreases cs.len() - i,
    {
        let ghost t = s@.skip(i as int);
        if white(cs[i]) {
            assert(t.drop_first() == s@.skip(i + 1));
            i += 1;
        } else {
            let mut j: usize = i;
            while j < cs.len() && !white(cs[j])
                invariant
                    i <= j <= cs.len(),
                    cs@ == s@,
                    t == s@.skip(i as int),
                    word_len(t) == (j - i) + word_len(s@.skip(j as int)),
                decreases cs.len() - j,
            {
                assert(s@.skip(j as int).drop_first() == s@.skip(j + 1));
                j += 1;
            }
            let ghost before = texts(r@);
            r.push(slice(s, i, j));
            proof {
                assert(t.take(j - i) == s@.subrange(i as int, j as int));
                assert(t.skip(j - i) == s@.skip(j as int));
                assert(texts(r@) == before.push(s@.subrange(i as int, j as int)));
                assert(words(t) == seq![t.take(j - i)] + words(s@.skip(j as int)));
                assert(texts(r@) + words(s@.skip(j as int)) == before + words(t));
            }
            i = j;
        }
    }
    assert(words(s@.skip(i as int)) == Seq::<Seq<char>>::empty());
    assert(texts(r@) + words(s@.skip(i as int)) == texts(r@));
    r
}

/// The first occurrence of `c` in `s` is at `n` where there is none before it.
pub proof fn lemma_first_index(s: Seq<char>, c: char, n: int)
    requires
        0 <= n <= s.len(),
        forall|k: int| 0 <= k < n ==> s[k] != c,
        n < s.len() ==> s[n] == c,
    ensures
        first_index(s, c) == n,
    decreases s.len(),
{
    if n > 0 {
        lemma_first_index(s.drop_first(), c, n - 1);
    }
}

/// The position of the first `c` in `s`.
pub fn find_char(s: &str, c: char) -> (r: Option<usize>)
    ensures
        match r {
            Some(i) => i < s@.len() && first_index(s@, c) == i,
            None => first_index(s@, c) == s@.len(),
        },
{
    let cs = chars(s);
    let mut i: usize = 0;
    while i < cs.len()
        invariant
            i <= cs.len(),
            cs@ == s@,
            forall|k: int| 0 <= k < i ==> s@[k] != c,
        decreases cs.len() - i,
    {
        if cs[i] == c {
            proof {
                lemma_first_index(s@, c, i as int);
            }
            return Some(i);
        }
        i += 1;
    }
    proof {
        lemma_first_index(s@, c, i as int);
    }
    None
}

/// The position of the last `c` in `s`.
pub fn rfind_char(s: &str, c: char) -> (r: Option<usize>)
    ensures
        match r {
            Some(i) => i < s@.len() && last_index(s@, c) == i,
            None => last_index(s@, c) == -1,
        },
{
    let cs = chars(s);
    let mut j: usize = cs.len();
    assert(s@.take(j as int) == s@);
    while j > 0
        invariant
            j <= cs.len(),
            cs@ == s@,
            last_index(s@, c) == last_index(s@.take(j as int), c),
        decreases j,
    {
        if cs[j - 1] == c {
            return Some(j - 1);
        }
        assert(s@.take(j as int).drop_last() == s@.take(j - 1));
        j -= 1;
    }
    None
}

/// The parts of `s` between the occurrences of `c`.
pub fn split_on(s: &str, c: char) -> (r: Vec<String>)
    ensures
        texts(r@) == pieces(s@, c),
        r@.len() > 0,
{
    let cs = chars(s);
    let mut r: Vec<String> = Vec::new();
    let mut i: usize = 0;
    let mut j: usize = 0;
    assert(s@.skip(0) == s@);
    assert(texts(r@) + pieces(s@, c) == pieces(s@, c));
    while j < cs.len()
        invariant
            i <= j <= cs.len(),
            cs@ == s@,
            texts(r@) + pieces(s@.skip(i as int), c) == pieces(s@, c),
            forall|k: int| i <= k < j ==> s@[k] != c,
        decreases cs.len() - j,
    {
        if cs[j] == c {
            let ghost t = s@.skip(i as int);
            let ghost before = texts(r@);
            r.push(slice(s, i, j));
            proof {
                lemma_first_index(t, c, j - i);
                assert(t.take(j - i) == s@.subrange(i as int, j as int));
                assert(t.skip(j - i + 1) == s@.skip(j + 1));
                assert(texts(r@) == before.push(s@.subrange(i as int, j as int)));
                assert(texts(r@) + pieces(s@.skip(j + 1), c) == before + pieces(t, c));
            }
            i = j + 1;
        }
        j += 1;
    }
    let ghost t = s@.skip(i as int);
    let ghost before = texts(r@);
    r.push(slice(s, i, j));
    proof {
        lemma_first_index(t, c, j - i);
        assert(t == s@.subrange(i as int, j as int));
        assert(texts(r@) == before.push(t));
        assert(texts(r@) == before + pieces(t, c));
    }
    r
}

/// Whether `s` starts with `p`.
pub fn starts_with(s: &str, p: &str) -> (r: bool)
    ensures
        r == p@.is_prefix_of(s@),
{
    let x = chars(s);
    let y = chars(p);
    if y.len() > x.len() {
        return false;
    }
    let mut i: usize = 0;
    while i < y.len()
        invariant
            i <= y.len() <= x.len(),
            x@ == s@,
            y@ == p@,
            forall|k: int| 0 <= k < i ==> x@[k] == y@[k],
        decreases y.len() - i,
    {
        if x[i] != y[i] {
            assert(s@.subrange(0, p@.len() as int)[i as int] != p@[i as int]);
            return false;
        }
        i += 1;
    }
    assert(p@ =~= s@.subrange(0, p@.len() as int));
    true
}

/// Whether `s` ends with `p`.
pub fn ends_with(s: &str, p: &str) -> (r: bool)
    ensures
        r == p@.is_suffix_of(s@),
{
    let x = chars(s);
    let y = chars(p);
    if y.len() > x.len() {
        return false;
    }
    let d: usize = x.len() - y.len();
    let mut i: usize = 0;
    while i < y.len()
        invariant
            i <= y.len() <= x.len(),
            d == x.len() - y.len(),
            x@ == s@,
            y@ == p@,
            forall|k: int| 0 <= k < i ==> x@[d + k] == y@[k],
        decreases y.len() - i,
    {
        if x[d + i] != y[i] {
            assert(s@.subrange(d as int, s@.len() as int)[i as int] != p@[i as int]);
            return false;
        }
        i += 1;
    }
    assert(p@ =~= s@.subrange(d as int, s@.len() as int));
    true
}

/// What follows `p` in `s`, where `s` starts with `p`.
pub fn strip_prefix(s: &str, p: &str) -> (r: Option<String>)
    ensures
        r is Some == p@.is_prefix_of(s@),
        r is Some ==> r->0@ == s@.skip(p@.len() as int),
{
    if starts_with(s, p) {
        let n = p.unicode_len();
        let m = s.unicode_len();
        assert(s@.skip(n as int) == s@.subrange(n as int, m as int));
        Some(slice(s, n, m))
    } else {
        None
    }
}

/// `s` without the runs of `c` at its two ends.
pub fn trim_matches(s: &str, c: char) -> (r: String)
    ensures
        r@ == unquoted(s@, c),
{
    let cs = chars(s);
    let mut i: usize = 0;
    assert(s@.skip(0) == s@);
    while i < cs.len() && cs[i] == c
        invariant
            i <= cs.len(),
            cs@ == s@,
            skip_char(s@, c) == skip_char(s@.skip(i as int), c),
        decreases cs.len() - i,
    {
        assert(s@.skip(i as int).drop_first() == s@.skip(i + 1));
        i += 1;
    }
    let ghost t = s@.skip(i as int);
    let mut j: usize = cs.len();
    assert(t.take(j - i) == t);
    while i < j && cs[j - 1] == c
        invariant
            i <= j <= cs.len(),
            cs@ == s@,
            t == s@.skip(i as int),
            drop_char(t, c) == drop_char(t.take(j - i), c),
        decreases j - i,
    {
        assert(t.take(j - i).drop_last() == t.take(j - 1 - i));
        j -= 1;
    }
    assert(t.take(j - i) == s@.subrange(i as int, j as int));
    slice(s, i, j)
}

/// `s` without `p` at its start, as often as it stands there.
pub fn trim_start_matches(s: &str, p: &str) -> (r: String)
    ensures
        r@ == without_prefix(s@, p@),
{
    let mut r = copy(s);
    let n = p.unicode_len();
    while n > 0 && starts_with(r.as_str(), p)
        invariant
            n == p@.len(),
            without_prefix(r@, p@) == without_prefix(s@, p@),
        decreases r@.len(),
    {
        let m = r.as_str().unicode_len();
        assert(r@.skip(n as int) == r@.subrange(n as int, m as int));
        r = slice(r.as_str(), n, m);
    }
    r
}

/// `s` without `p` at its end, as often as it stands there.
pub fn trim_end_matches(s: &str, p: &str) -> (r: String)
    ensures
        r@ == without_suffix(s@, p@),
{
    let mut r = copy(s);
    let n = p.unicode_len();
    while n > 0 && ends_with(r.as_str(), p)
        invariant
            n == p@.len(),
            without_suffix(r@, p@) == without_suffix(s@, p@),
        decreases r@.len(),
    {
        let m = r.as_str().unicode_len();
        assert(r@.take(m - n) == r@.subrange(0, m - n));
        r = slice(r.as_str(), 0, m - n);
    }
    r
}

/// The strings of `v` with `sep` between each two neighbours.
pub fn join(v: &Vec<String>, sep: &str) -> (r: String)
    ensures
        r@ == joined(texts(v@), sep@),
{
    let mut r = String::new();
    let mut i: usize = 0;
    let ghost t = texts(v@);
    while i < v.len()
        invariant
            i <= v.len(),
            t == texts(v@),
            r@ == joined(t.take(i as int), sep@),
        decreases v.len() - i,
    {
        let ghost before = t.take(i as int);
        let ghost after = t.take(i + 1);
        assert(after.drop_last() == before);
        assert(after.last() == v@[i as int]@);
        if i > 0 {
            r.append(sep);
        } else {
            assert(r@ == Seq::<char>::empty());
            assert(Seq::<char>::empty() + v@[i as int]@ == v@[i as int]@);
        }
        r.append(v[i].as_str());
        i += 1;
    }
    assert(t.take(i as int) == t);
    r
}

} // verus!
