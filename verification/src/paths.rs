//! Paths of a Linux file system, as text.

use crate::text::{
    copy, ends_with, find_char, first_index, last_index, opt_text, pieces, rfind_char, same, slice,
    split_on, starts_with, strip_prefix, texts,
};
use vstd::prelude::*;
use vstd::string::*;

verus! {

/// `rel` taken from the directory `base`: an absolute `rel` stands for itself.
pub open spec fn path_join(base: Seq<char>, rel: Seq<char>) -> Seq<char> {
    if "/"@.is_prefix_of(rel) {
        rel
    } else if base.len() == 0 || "/"@.is_suffix_of(base) {
        base + rel
    } else {
        base + "/"@ + rel
    }
}

/// Takes `rel` from the directory `base`.
pub fn join_path(base: &str, rel: &str) -> (r: String)
    ensures
        r@ == path_join(base@, rel@),
{
    if starts_with(rel, "/") {
        return copy(rel);
    }
    let mut r = copy(base);
    if base.unicode_len() != 0 && !ends_with(base, "/") {
        r.append("/");
    }
    r.append(rel);
    r
}

/// Whether a part of a path between slashes names nothing.
pub open spec fn idle_part(s: Seq<char>) -> bool {
    s.len() == 0 || s == "."@
}

/// A relative path without the parts at its start that name nothing.
pub open spec fn body_start(s: Seq<char>) -> Seq<char>
    decreases s.len(),
{
    let n = first_index(s, '/');
    if s.len() == 0 || !idle_part(s.take(n)) {
        s
    } else if 0 <= n < s.len() {
        body_start(s.skip(n + 1))
    } else {
        seq![]
    }
}

/// A relative path without the parts at its end that name nothing.
pub open spec fn body_end(s: Seq<char>) -> Seq<char>
    decreases s.len(),
{
    let n = last_index(s, '/');
    if s.len() == 0 || !idle_part(s.skip(n + 1)) {
        s
    } else if 0 <= n < s.len() {
        body_end(s.take(n))
    } else {
        seq![]
    }
}

/// What follows in a path whose first part is `~`.
pub open spec fn behind_tilde(p: Seq<char>) -> Option<Seq<char>> {
    if p == "~"@ {
        Some(seq![])
    } else if "~/"@.is_prefix_of(p) {
        Some(body_end(body_start(p.skip(2))))
    } else {
        None
    }
}

fn idle(s: &str) -> (r: bool)
    ensures
        r == idle_part(s@),
{
    s.unicode_len() == 0 || same(s, ".")
}

fn trim_body_start(s: &str) -> (r: String)
    ensures
        r@ == body_start(s@),
{
    let mut rest = copy(s);
    loop
        invariant
            body_start(rest@) == body_start(s@),
        decreases rest@.len(),
    {
        let len = rest.as_str().unicode_len();
        let n = match find_char(rest.as_str(), '/') {
            Some(i) => i,
            None => len,
        };
        let part = slice(rest.as_str(), 0, n);
        assert(part@ == rest@.take(n as int));
        if len == 0 || !idle(part.as_str()) {
            return rest;
        }
        if n == len {
            return String::new();
        }
        let next = slice(rest.as_str(), n + 1, len);
        assert(next@ == rest@.skip(n + 1));
        rest = next;
    }
}

fn trim_body_end(s: &str) -> (r: String)
    ensures
        r@ == body_end(s@),
{
    let mut rest = copy(s);
    loop
        invariant
            body_end(rest@) == body_end(s@),
        decreases rest@.len(),
    {
        let len = rest.as_str().unicode_len();
        match rfind_char(rest.as_str(), '/') {
            Some(n) => {
                let part = slice(rest.as_str(), n + 1, len);
                assert(part@ == rest@.skip(n + 1));
                if !idle(part.as_str()) {
                    return rest;
                }
                let next = slice(rest.as_str(), 0, n);
                assert(next@ == rest@.take(n as int));
                rest = next;
            },
            None => {
                assert(rest@.skip(0) == rest@);
                if len == 0 || !idle(rest.as_str()) {
                    return rest;
                }
                return String::new();
            },
        }
    }
}

/// What follows in a path whose first part is `~`.
pub fn strip_tilde(p: &str) -> (r: Option<String>)
    ensures
        opt_text(r) == behind_tilde(p@),
{
    if same(p, "~") {
        return Some(String::new());
    }
    proof {
        reveal_strlit("~/");
    }
    match strip_prefix(p, "~/") {
        Some(rest) => {
            let start = trim_body_start(rest.as_str());
            Some(trim_body_end(start.as_str()))
        },
        None => None,
    }
}

/// What a path says: whether it starts at the root, whether it starts at the
/// current directory and says so, and the names in it.
#[verifier::ext_equal]
pub struct PathView {
    pub rooted: bool,
    pub dotted: bool,
    pub names: Seq<Seq<char>>,
}

/// The parts but for those that name nothing.
pub open spec fn named_parts(v: Seq<Seq<char>>) -> Seq<Seq<char>>
    decreases v.len(),
{
    if v.len() == 0 {
        seq![]
    } else if idle_part(v.last()) {
        named_parts(v.drop_last())
    } else {
        named_parts(v.drop_last()).push(v.last())
    }
}

/// What a path says.
pub open spec fn path_view(p: Seq<char>) -> PathView {
    let rooted = "/"@.is_prefix_of(p);
    PathView {
        rooted,
        dotted: !rooted && pieces(p, '/')[0] == "."@,
        names: named_parts(pieces(p, '/')),
    }
}

/// Whether two texts are the same path: slashes in a row, and a `.` that is not at
/// the start, make no difference.
pub open spec fn same_path(p: Seq<char>, q: Seq<char>) -> bool {
    path_view(p) == path_view(q)
}

/// Whether a path is among some.
pub open spec fn has_path(v: Seq<Seq<char>>, p: Seq<char>) -> bool {
    exists|i: int| 0 <= i < v.len() && same_path(#[trigger] v[i], p)
}

fn list_names(p: &str) -> (r: Vec<String>)
    ensures
        texts(r@) == path_view(p@).names,
{
    let parts = split_on(p, '/');
    let ghost all = texts(parts@);
    let mut r: Vec<String> = Vec::new();
    let mut i: usize = 0;
    assert(texts(r@) =~= seq![]);
    while i < parts.len()
        invariant
            i <= parts.len(),
            all == texts(parts@),
            texts(r@) == named_parts(all.take(i as int)),
        decreases parts.len() - i,
    {
        let ghost before = texts(r@);
        assert(all.take(i + 1).drop_last() == all.take(i as int));
        assert(all.take(i + 1).last() == parts@[i as int]@);
        if !idle(parts[i].as_str()) {
            let name = copy(parts[i].as_str());
            r.push(name);
            assert(texts(r@) =~= before.push(name@));
        }
        i += 1;
    }
    assert(all.take(i as int) == all);
    r
}

fn is_dotted(p: &str) -> (r: bool)
    ensures
        r == path_view(p@).dotted,
{
    let parts = split_on(p, '/');
    assert(texts(parts@)[0] == parts@[0]@);
    !starts_with(p, "/") && same(parts[0].as_str(), ".")
}

fn same_texts(a: &Vec<String>, b: &Vec<String>) -> (r: bool)
    ensures
        r == (texts(a@) == texts(b@)),
{
    assert(texts(a@).len() == a@.len() && texts(b@).len() == b@.len());
    if a.len() != b.len() {
        return false;
    }
    let mut i: usize = 0;
    while i < a.len()
        invariant
            i <= a.len() == b.len(),
            forall|k: int| 0 <= k < i ==> texts(a@)[k] == texts(b@)[k],
        decreases a.len() - i,
    {
        if !same(a[i].as_str(), b[i].as_str()) {
            assert(texts(a@)[i as int] != texts(b@)[i as int]);
            return false;
        }
        assert(texts(a@)[i as int] == texts(b@)[i as int]);
        i += 1;
    }
    assert(texts(a@) =~= texts(b@));
    true
}

/// Whether two texts are the same path.
pub fn is_same_path(p: &str, q: &str) -> (r: bool)
    ensures
        r == same_path(p@, q@),
{
    starts_with(p, "/") == starts_with(q, "/") && is_dotted(p) == is_dotted(q) && same_texts(
        &list_names(p),
        &list_names(q),
    )
}

/// Whether a path is among some.
pub fn holds_path(v: &Vec<String>, p: &str) -> (r: bool)
    ensures
        r == has_path(texts(v@), p@),
{
    let mut i: usize = 0;
    while i < v.len()
        invariant
            i <= v.len(),
            forall|k: int| 0 <= k < i ==> !same_path(#[trigger] texts(v@)[k], p@),
        decreases v.len() - i,
    {
        assert(texts(v@)[i as int] == v@[i as int]@);
        if is_same_path(v[i].as_str(), p) {
            return true;
        }
        i += 1;
    }
    false
}

} // verus!
