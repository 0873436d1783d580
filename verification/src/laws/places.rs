//! Paths, and what is known of the places that they lead to.

use crate::facts::{place, Answer, Facts, QuestionView};
use crate::host::present_identity;
use crate::laws::reading::{lemma_no_slash_first, lemma_no_slash_last};
use crate::paths::{
    behind_tilde, body_end, body_start, named_parts, path_join, path_view, same_path,
};
use crate::text::{lemma_first_index, opt_text, pieces, texts};
use crate::written::{free_of, lemma_no_last, lemma_split_at_last};
use vstd::prelude::*;
use vstd::string::*;

verus! {

/// A path is taken from a directory with one slash between them, unless it begins
/// with a slash of its own; the directory may end with its slash, or be empty.
pub proof fn paths_are_joined(base: Seq<char>, rel: Seq<char>)
    ensures
        path_join(base, "/"@ + rel) == "/"@ + rel,
        rel.len() > 0 && rel[0] != '/' ==> {
            &&& path_join(seq![], rel) == rel
            &&& path_join(base + "/"@, rel) == base + "/"@ + rel
            &&& base.len() > 0 && base.last() != '/' ==> path_join(base, rel) == base + "/"@ + rel
        },
{
    reveal_strlit("/");
    assert("/"@ =~= ("/"@ + rel).subrange(0, 1));
    if rel.len() > 0 && rel[0] != '/' {
        lemma_no_slash_first(rel);
        let b = base + "/"@;
        assert("/"@ =~= b.subrange(b.len() - 1, b.len() as int));
        assert(Seq::<char>::empty() + rel =~= rel);
        if base.len() > 0 && base.last() != '/' {
            lemma_no_slash_last(base);
        }
    }
}

proof fn lemma_named_parts(v: Seq<Seq<char>>)
    ensures
        named_parts(v) == v.filter(|s: Seq<char>| s.len() > 0 && s != "."@),
    decreases v.len(),
{
    reveal(Seq::filter);
    if v.len() > 0 {
        lemma_named_parts(v.drop_last());
    }
}

/// Two texts are the same path where both begin with a slash or neither does, where
/// both begin with the part `.` or neither does, but for a slash, and where they have
/// the same parts between slashes, but for those that are empty or `.`.
pub proof fn same_paths_have_the_same_names(p: Seq<char>, q: Seq<char>)
    ensures
        same_path(p, q) <==> {
            let names = |s: Seq<char>| s.len() > 0 && s != "."@;
            &&& "/"@.is_prefix_of(p) <==> "/"@.is_prefix_of(q)
            &&& pieces(p, '/').filter(names) == pieces(q, '/').filter(names)
            &&& "/"@.is_prefix_of(p) || (pieces(p, '/')[0] == "."@ <==> pieces(q, '/')[0] == "."@)
        },
{
    let names = |s: Seq<char>| s.len() > 0 && s != "."@;
    lemma_named_parts(pieces(p, '/'));
    lemma_named_parts(pieces(q, '/'));
    assert(path_view(p).names == pieces(p, '/').filter(names));
    assert(path_view(q).names == pieces(q, '/').filter(names));
    if "/"@.is_prefix_of(p) == "/"@.is_prefix_of(q) && pieces(p, '/').filter(names) == pieces(
        q,
        '/',
    ).filter(names) && ("/"@.is_prefix_of(p) || (pieces(p, '/')[0] == "."@) == (pieces(q, '/')[0]
        == "."@)) {
        assert(path_view(p) == path_view(q));
    }
}

/// The parts at the start of what follows a `~` are passed over while they are empty
/// or `.`, and no further.
pub proof fn idle_parts_are_passed_over(a: Seq<char>, rest: Seq<char>)
    requires
        free_of(a, '/'),
    ensures
        a.len() == 0 || a == "."@ ==> body_start(a + "/"@ + rest) == body_start(rest),
        a.len() > 0 && a != "."@ ==> body_start(a + "/"@ + rest) == a + "/"@ + rest,
        a.len() > 0 && a != "."@ ==> body_start(a) == a,
        a.len() == 0 || a == "."@ ==> body_start(a) == Seq::<char>::empty(),
{
    reveal_strlit("/");
    let s = a + "/"@ + rest;
    assert(s[a.len() as int] == '/');
    assert forall|k: int| 0 <= k < a.len() implies #[trigger] s[k] != '/' by {
        assert(s[k] == a[k]);
    }
    lemma_first_index(s, '/', a.len() as int);
    lemma_first_index(a, '/', a.len() as int);
    assert(s.take(a.len() as int) =~= a);
    assert(a.take(a.len() as int) =~= a);
    assert(s.skip(a.len() as int + 1) =~= rest);
}

/// So are those at the end.
pub proof fn idle_parts_are_dropped(rest: Seq<char>, a: Seq<char>)
    requires
        free_of(a, '/'),
    ensures
        a.len() == 0 || a == "."@ ==> body_end(rest + "/"@ + a) == body_end(rest),
        a.len() > 0 && a != "."@ ==> body_end(rest + "/"@ + a) == rest + "/"@ + a,
        a.len() > 0 && a != "."@ ==> body_end(a) == a,
        a.len() == 0 || a == "."@ ==> body_end(a) == Seq::<char>::empty(),
{
    reveal_strlit("/");
    assert("/"@ =~= seq!['/']);
    let s = rest + "/"@ + a;
    lemma_split_at_last(rest, a, '/');
    lemma_no_last(a, '/');
    assert(s.take(rest.len() as int) =~= rest);
    assert(s.skip(rest.len() as int + 1) =~= a);
    assert(a.skip(0) =~= a);
}

/// Only a path whose first part is `~` is taken from the home directory.
pub proof fn tilde_stands_for_home(p: Seq<char>)
    ensures
        behind_tilde("~"@) == Some(Seq::<char>::empty()),
        behind_tilde("~/"@ + p) == Some(body_end(body_start(p))),
        p != "~"@ && !"~/"@.is_prefix_of(p) ==> behind_tilde(p) is None,
{
    reveal_strlit("~/");
    reveal_strlit("~");
    assert("~/"@ =~= ("~/"@ + p).subrange(0, 2));
    assert(("~/"@ + p).skip(2) =~= p);
    assert(("~/"@ + p).len() >= 2);
}

/// An identity file that is there counts under the name that it has in the
/// configuration; one under `~` that is not there under that name counts where it is
/// in the home directory.
pub proof fn identities_are_found(f: Facts, home: Seq<char>, a: Seq<char>)
    requires
        opt_text(f.home) == Some(home),
        home.len() > 0,
        home.last() != '/',
        free_of(a, '/'),
        a.len() > 0,
        a != "."@,
    ensures
        f.presence("~/"@ + a) == Some(true) ==> present_identity(f, "~/"@ + a) == Ok::<
            Option<Seq<char>>,
            QuestionView,
        >(Some("~/"@ + a)),
        f.presence("~/"@ + a) == Some(false) ==> present_identity(f, "~/"@ + a) == (match f.presence(
            home + "/"@ + a,
        ) {
            Some(true) => Ok::<Option<Seq<char>>, QuestionView>(
                Some(home + "/"@ + a),
            ),
            Some(false) => Ok(None),
            None => Err(QuestionView::Presence(home + "/"@ + a)),
        }),
{
    tilde_stands_for_home(a);
    idle_parts_are_passed_over(a, Seq::empty());
    idle_parts_are_dropped(Seq::empty(), a);
    assert(a[0] != '/');
    lemma_no_slash_first(a);
    lemma_no_slash_last(home);
}

proof fn lemma_first_place<T>(v: Seq<Answer<T>>, name: Seq<char>, i: int)
    requires
        0 <= i < v.len(),
        v[i].name@ == name,
        forall|k: int| 0 <= k < i ==> (#[trigger] v[k]).name@ != name,
    ensures
        place(v, name) == i,
    decreases i,
{
    if i > 0 {
        assert(v[0].name@ != name);
        let w = v.drop_first();
        assert(w[i - 1] == v[i]);
        assert forall|k: int| 0 <= k < i - 1 implies (#[trigger] w[k]).name@ != name by {
            assert(w[k] == v[k + 1]);
        }
        lemma_first_place(w, name, i - 1);
    }
}

/// Whether the answer at a position is the first one with a name.
pub open spec fn first_with<T>(v: Seq<Answer<T>>, name: Seq<char>, i: int) -> bool {
    &&& 0 <= i < v.len()
    &&& v[i].name@ == name
    &&& forall|k: int| 0 <= k < i ==> (#[trigger] v[k]).name@ != name
}

/// Of several answers to a question the first one counts.
pub proof fn first_answer_counts(f: Facts, name: Seq<char>, i: int)
    ensures
        first_with(f.config_files@, name, i) ==> f.config_file(name) == Some(
            f.config_files@[i].value@,
        ),
        first_with(f.listings@, name, i) ==> f.listing(name) == Some(
            texts(f.listings@[i].value@),
        ),
        first_with(f.presences@, name, i) ==> f.presence(name) == Some(f.presences@[i].value),
        first_with(f.documents@, name, i) ==> f.document(name) == Some(
            opt_text(f.documents@[i].value),
        ),
        first_with(f.variables@, name, i) ==> f.variable(name) == Some(
            opt_text(f.variables@[i].value),
        ),
{
    if first_with(f.config_files@, name, i) {
        lemma_first_place(f.config_files@, name, i);
    }
    if first_with(f.listings@, name, i) {
        lemma_first_place(f.listings@, name, i);
    }
    if first_with(f.presences@, name, i) {
        lemma_first_place(f.presences@, name, i);
    }
    if first_with(f.documents@, name, i) {
        lemma_first_place(f.documents@, name, i);
    }
    if first_with(f.variables@, name, i) {
        lemma_first_place(f.variables@, name, i);
    }
}

proof fn lemma_no_place<T>(v: Seq<Answer<T>>, name: Seq<char>)
    requires
        forall|k: int| 0 <= k < v.len() ==> (#[trigger] v[k]).name@ != name,
    ensures
        place(v, name) == v.len(),
    decreases v.len(),
{
    if v.len() > 0 {
        assert(v[0].name@ != name);
        let w = v.drop_first();
        assert forall|k: int| 0 <= k < w.len() implies (#[trigger] w[k]).name@ != name by {
            assert(w[k] == v[k + 1]);
        }
        lemma_no_place(w, name);
    }
}

/// What nothing was said of is not known.
pub proof fn nothing_is_made_up(f: Facts, name: Seq<char>)
    ensures
        (forall|k: int|
            0 <= k < f.config_files@.len() ==> (#[trigger] f.config_files@[k]).name@ != name)
            ==> f.config_file(name) is None,
        (forall|k: int|
            0 <= k < f.presences@.len() ==> (#[trigger] f.presences@[k]).name@ != name)
            ==> f.presence(name) is None,
{
    if forall|k: int|
        0 <= k < f.config_files@.len() ==> (#[trigger] f.config_files@[k]).name@ != name {
        lemma_no_place(f.config_files@, name);
    }
    if forall|k: int|
        0 <= k < f.presences@.len() ==> (#[trigger] f.presences@[k]).name@ != name {
        lemma_no_place(f.presences@, name);
    }
}

} // verus!
