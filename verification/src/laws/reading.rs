//! Reading the SSH configuration: what a line says, and what files say together.

use crate::laws::texts::{
    all_are, lemma_end_of, lemma_start_of, lemma_words_drop_blank,
    padded_text_has_the_same_words, quotes_are_taken_away,
};
use crate::number::number_u16;
use crate::outside::wildcard;
use crate::ssh_config::{
    config_line, identity_path, include_pattern, line_parts, match_section, pattern_accepts,
    pattern_rejects, ExtractedView, LineView,
};
use crate::text::{
    is_white, joined, lemma_first_index, lower_text, trim_end, trim_start, trimmed, words,
};
use crate::written::{
    blank, free_of, lemma_first_word, lemma_nothing_to_trim, lemma_one_word,
    lemma_padding_is_trimmed, lemma_skip_blank, solid,
};
use vstd::prelude::*;
use vstd::string::*;

verus! {

/// White space around a line makes no difference.
pub proof fn padded_line_says_the_same(a: Seq<char>, line: Seq<char>, b: Seq<char>)
    requires
        blank(a),
        blank(b),
    ensures
        line_parts(a + line + b) == line_parts(line),
{
    lemma_padding_is_trimmed(a, line, b);
}

proof fn lemma_trimmed_is_free(s: Seq<char>, c: char)
    requires
        free_of(s, c),
    ensures
        free_of(trimmed(s), c),
{
    let a = lemma_start_of(s);
    let t = trim_start(s);
    let b = lemma_end_of(t);
    assert forall|k: int| 0 <= k < trimmed(s).len() implies #[trigger] trimmed(s)[k] != c by {
        assert(trimmed(s)[k] == t[k]);
        assert(t[k] == s[a.len() + k]);
    }
}

/// What follows a `#` is no part of what a line says.
pub proof fn text_behind_hash_is_ignored(s: Seq<char>, c: Seq<char>)
    requires
        free_of(s, '#'),
    ensures
        line_parts(s + "#"@ + c) == line_parts(s),
{
    reveal_strlit("#");
    let full = s + "#"@ + c;
    let a = lemma_start_of(s);
    let t = trim_start(s);
    let u = t + "#"@ + c;
    assert(full =~= a + u);
    lemma_skip_blank(a, u);
    assert(u[t.len() as int] == '#');
    assert(u[0] == if t.len() > 0 {
        t[0]
    } else {
        '#'
    });
    assert(trim_start(u) == u);
    let v = trim_end(u);
    let b = lemma_end_of(u);
    assert(v == trimmed(full));
    assert(t.len() < v.len()) by {
        if t.len() >= v.len() {
            assert(b[t.len() - v.len()] == u[t.len() as int]);
            assert(is_white(b[t.len() - v.len()]));
        }
    }
    assert(v[t.len() as int] == u[t.len() as int]);
    assert forall|k: int| 0 <= k < t.len() implies #[trigger] v[k] != '#' by {
        assert(v[k] == u[k]);
        assert(t[k] == s[a.len() + k]);
    }
    lemma_first_index(v, '#', t.len() as int);
    assert(v.take(t.len() as int) =~= t) by {
        assert forall|k: int| 0 <= k < t.len() implies #[trigger] v[k] == t[k] by {
            assert(v[k] == u[k]);
        }
    }
    lemma_skip_blank(a, t);
    assert(trimmed(t) == trimmed(s));
    lemma_trimmed_is_free(s, '#');
    let w = trimmed(s);
    lemma_first_index(w, '#', w.len() as int);
    if t.len() == 0 {
        assert(w.len() == 0);
    } else {
        let e = lemma_end_of(t);
        if w.len() == 0 {
            assert(e =~= t);
            assert(is_white(e[0]));
        }
        assert(w[0] == t[0]);
    }
}

/// A line is a keyword and its arguments, with white space between them.
pub proof fn keyword_comes_first(k: Seq<char>, rest: Seq<char>)
    requires
        solid(k),
        k.len() > 0,
        free_of(k, '#'),
        free_of(k, '='),
        free_of(rest, '#'),
        free_of(rest, '='),
    ensures
        line_parts(k + " "@ + rest) == seq![k] + words(rest),
        line_parts(k) == seq![k],
{
    reveal_strlit(" ");
    let s = k + " "@ + rest;
    assert forall|i: int| 0 <= i < s.len() implies #[trigger] s[i] != '#' && s[i] != '=' by {
        if i < k.len() {
            assert(s[i] == k[i]);
        } else if i > k.len() {
            assert(s[i] == rest[i - k.len() - 1]);
        }
    }
    lemma_first_word(k, rest);
    lemma_plain_line(s);
    lemma_one_word(k);
    lemma_plain_line(k);
}

proof fn lemma_plain_line(s: Seq<char>)
    requires
        free_of(s, '#'),
        free_of(s, '='),
        words(s).len() > 0,
    ensures
        line_parts(s) == words(s),
{
    let t = trimmed(s);
    padded_text_has_the_same_words(Seq::empty(), s, Seq::empty());
    if t.len() == 0 {
        assert(words(t).len() == 0);
    }
    lemma_trimmed_is_free(s, '#');
    lemma_trimmed_is_free(s, '=');
    assert(t[0] != '#');
    lemma_first_index(t, '#', t.len() as int);
    lemma_first_index(t, '=', t.len() as int);
}

/// A `=` may stand between the keyword and its arguments, with white space around it
/// or without.
pub proof fn equals_sign_separates(k: Seq<char>, w: Seq<char>, rest: Seq<char>)
    requires
        solid(k),
        k.len() > 0,
        free_of(k, '#'),
        free_of(k, '='),
        blank(w),
        free_of(rest, '#'),
    ensures
        line_parts(k + w + "="@ + rest) == seq![k] + words(rest),
{
    reveal_strlit("=");
    let h = k + w;
    let s = h + "="@ + rest;
    let n = h.len() as int;
    assert forall|i: int| 0 <= i < n implies #[trigger] h[i] != '#' && h[i] != '=' by {
        if i < k.len() {
            assert(h[i] == k[i]);
        } else {
            assert(is_white(w[i - k.len()]));
        }
    }
    assert(s[0] == k[0]);
    assert(s[n] == '=');
    assert(trim_start(s) == s);
    let t = trim_end(s);
    let b = lemma_end_of(s);
    assert(n < t.len()) by {
        if n >= t.len() {
            assert(b[n - t.len()] == s[n]);
            assert(is_white(b[n - t.len()]));
        }
    }
    assert forall|i: int| 0 <= i < t.len() implies #[trigger] t[i] != '#' by {
        assert(t[i] == s[i]);
        if i < n {
            assert(s[i] == h[i]);
        } else if i > n {
            assert(s[i] == rest[i - n - 1]);
        }
    }
    lemma_first_index(t, '#', t.len() as int);
    assert forall|i: int| 0 <= i < n implies #[trigger] t[i] != '=' by {
        assert(t[i] == s[i] && s[i] == h[i]);
    }
    assert(t[n] == s[n]);
    lemma_first_index(t, '=', n);
    assert(t.take(n) =~= h) by {
        assert forall|i: int| 0 <= i < n implies #[trigger] t[i] == h[i] by {
            assert(t[i] == s[i]);
        }
    }
    lemma_padding_is_trimmed(Seq::empty(), k, w);
    assert(Seq::<char>::empty() + k + w =~= h);
    lemma_nothing_to_trim(k);
    let r = t.skip(n + 1);
    assert(s.skip(n + 1) =~= rest);
    assert(s.skip(n + 1) =~= r + b);
    lemma_words_drop_blank(r, b);
}

/// The keywords of settings are different texts.
pub proof fn lemma_keywords_differ()
    ensures
        "host"@.len() == 4,
        "match"@.len() == 5,
        "include"@.len() == 7,
        "hostname"@.len() == 8,
        "user"@.len() == 4,
        "port"@.len() == 4,
        "identityfile"@.len() == 12,
        "localforward"@.len() == 12,
        "remoteforward"@.len() == 13,
        "dynamicforward"@.len() == 14,
        "tunneldevice"@.len() == 12,
        "tunnel"@.len() == 6,
        "proxyjump"@.len() == 9,
        "host"@[0] == 'h',
        "user"@[0] == 'u',
        "port"@[0] == 'p',
        "identityfile"@[0] == 'i',
        "localforward"@[0] == 'l',
        "tunneldevice"@[0] == 't',
{
    reveal_strlit("host");
    reveal_strlit("match");
    reveal_strlit("include");
    reveal_strlit("hostname");
    reveal_strlit("user");
    reveal_strlit("port");
    reveal_strlit("identityfile");
    reveal_strlit("localforward");
    reveal_strlit("remoteforward");
    reveal_strlit("dynamicforward");
    reveal_strlit("tunneldevice");
    reveal_strlit("tunnel");
    reveal_strlit("proxyjump");
}

/// In a section about the host, each line of a list adds exactly one entry to its
/// list, whatever is in it: the arguments with a space between them. Nothing else
/// changes.
pub proof fn list_lines_add_one_entry(
    line: Seq<char>,
    host: Seq<char>,
    home: Option<Seq<char>>,
    x: ExtractedView,
)
    requires
        line_parts(line).len() >= 2,
    ensures
        ({
            let key = lower_text(line_parts(line)[0]);
            let entry = joined(line_parts(line).drop_first(), " "@);
            let y = config_line(line, host, home, true, x).extracted;
            &&& key == "localforward"@ ==> y == (ExtractedView {
                local_forwards: x.local_forwards.push(entry),
                ..x
            })
            &&& key == "remoteforward"@ ==> y == (ExtractedView {
                remote_forwards: x.remote_forwards.push(entry),
                ..x
            })
            &&& key == "dynamicforward"@ ==> y == (ExtractedView {
                dynamic_forwards: x.dynamic_forwards.push(entry),
                ..x
            })
        }),
{
    lemma_keywords_differ();
}

/// In a section about the host, a line with a single value counts where there was
/// none, and not otherwise. Nothing else changes.
pub proof fn first_single_value_counts(
    line: Seq<char>,
    host: Seq<char>,
    home: Option<Seq<char>>,
    x: ExtractedView,
)
    requires
        line_parts(line).len() >= 2,
    ensures
        ({
            let key = lower_text(line_parts(line)[0]);
            let value = line_parts(line)[1];
            let entry = joined(line_parts(line).drop_first(), " "@);
            let y = config_line(line, host, home, true, x).extracted;
            &&& key == "hostname"@ && x.hostname is None ==> y == (ExtractedView {
                hostname: Some(value),
                ..x
            })
            &&& key == "hostname"@ && x.hostname is Some ==> y == x
            &&& key == "user"@ && x.user is None ==> y == (ExtractedView { user: Some(value), ..x })
            &&& key == "user"@ && x.user is Some ==> y == x
            &&& key == "port"@ && x.port is None ==> match number_u16(value) {
                Ok(n) => y == (ExtractedView { port: Some(n), ..x }),
                Err(_) => y == x,
            }
            &&& key == "port"@ && x.port is Some ==> y == x
            &&& (key == "tunnel"@ || key == "tunneldevice"@) && x.tun_forward is None ==> y == (
            ExtractedView { tun_forward: Some(entry), ..x })
            &&& (key == "tunnel"@ || key == "tunneldevice"@) && x.tun_forward is Some ==> y == x
            &&& key == "proxyjump"@ && x.proxy_jump is None ==> y == (ExtractedView {
                proxy_jump: Some(entry),
                ..x
            })
            &&& key == "proxyjump"@ && x.proxy_jump is Some ==> y == x
        }),
{
    lemma_keywords_differ();
}

/// In a section about the host, each argument of an `IdentityFile` line adds one
/// file, in order, and each argument of an `Include` line one pattern of files to
/// read there. Nothing else changes.
pub proof fn file_lines_add_each_argument(
    line: Seq<char>,
    host: Seq<char>,
    home: Option<Seq<char>>,
    x: ExtractedView,
    i: int,
)
    requires
        line_parts(line).len() >= 2,
        0 <= i < line_parts(line).len() - 1,
    ensures
        ({
            let key = lower_text(line_parts(line)[0]);
            let n = line_parts(line).len() - 1;
            let arg = line_parts(line)[i + 1];
            let l = config_line(line, host, home, true, x);
            let y = l.extracted;
            let m = x.identity_files.len();
            &&& key == "identityfile"@ ==> {
                &&& l.includes.len() == 0
                &&& y == (ExtractedView { identity_files: y.identity_files, ..x })
                &&& y.identity_files.len() == m + n
                &&& y.identity_files.take(m as int) == x.identity_files
                &&& y.identity_files[m + i] == identity_path(arg, home)
            }
            &&& key == "include"@ ==> {
                &&& y == x
                &&& l.includes.len() == n
                &&& l.includes[i] == include_pattern(arg, home)
            }
            &&& key != "include"@ ==> l.includes.len() == 0
        }),
{
    lemma_keywords_differ();
    let y = config_line(line, host, home, true, x).extracted;
    if lower_text(line_parts(line)[0]) == "identityfile"@ {
        assert(y.identity_files.take(x.identity_files.len() as int) =~= x.identity_files);
    }
}

/// A line with another keyword, and one without arguments, says nothing.
pub proof fn other_lines_say_nothing(
    line: Seq<char>,
    host: Seq<char>,
    home: Option<Seq<char>>,
    active: bool,
    x: ExtractedView,
)
    requires
        line_parts(line).len() > 0,
        ({
            let key = lower_text(line_parts(line)[0]);
            ||| line_parts(line).len() == 1 && key != "host"@ && key != "match"@
            ||| ![
                "host"@,
                "match"@,
                "include"@,
                "hostname"@,
                "user"@,
                "port"@,
                "identityfile"@,
                "localforward"@,
                "remoteforward"@,
                "dynamicforward"@,
                "tunneldevice"@,
                "tunnel"@,
                "proxyjump"@,
            ]@.contains(key)
        }),
    ensures
        config_line(line, host, home, active, x) == (LineView {
            active,
            extracted: x,
            includes: seq![],
        }),
{
    let key = lower_text(line_parts(line)[0]);
    let known = [
        "host"@,
        "match"@,
        "include"@,
        "hostname"@,
        "user"@,
        "port"@,
        "identityfile"@,
        "localforward"@,
        "remoteforward"@,
        "dynamicforward"@,
        "tunneldevice"@,
        "tunnel"@,
        "proxyjump"@,
    ]@;
    assert(known[0] == "host"@ && known[1] == "match"@ && known[2] == "include"@ && known[3]
        == "hostname"@ && known[4] == "user"@ && known[5] == "port"@ && known[6] == "identityfile"@
        && known[7] == "localforward"@ && known[8] == "remoteforward"@ && known[9]
        == "dynamicforward"@ && known[10] == "tunneldevice"@ && known[11] == "tunnel"@ && known[12]
        == "proxyjump"@);
    let args = line_parts(line).drop_first();
    if args.len() == 0 {
        assert(args.map_values(|a: Seq<char>| include_pattern(a, home)) =~= seq![]);
    }
}

/// The section under a `Host` line is about the host where a pattern without `!`
/// matches it and none with `!` does. The line says nothing else.
pub proof fn host_line_opens_a_section(
    line: Seq<char>,
    host: Seq<char>,
    home: Option<Seq<char>>,
    active: bool,
    x: ExtractedView,
)
    requires
        line_parts(line).len() > 0,
        lower_text(line_parts(line)[0]) == "host"@,
    ensures
        ({
            let p = line_parts(line);
            let l = config_line(line, host, home, active, x);
            &&& l.extracted == x
            &&& l.includes.len() == 0
            &&& l.active <==> {
                &&& exists|i: int|
                    1 <= i < p.len() && !"!"@.is_prefix_of(#[trigger] p[i]) && wildcard(p[i], host)
                &&& !exists|i: int|
                    1 <= i < p.len() && "!"@.is_prefix_of(#[trigger] p[i]) && wildcard(
                        p[i].skip(1),
                        host,
                    )
            }
        }),
{
    reveal_strlit("!");
    let p = line_parts(line);
    let a = p.drop_first();
    assert forall|i: int| 1 <= i < p.len() implies "!"@.is_prefix_of(#[trigger] p[i]) == (p[i].len()
        > 0 && p[i][0] == '!') && p[i] == a[i - 1] && p[i].skip(1) == p[i].drop_first() by {
        if p[i].len() > 0 && p[i][0] == '!' {
            assert("!"@ =~= p[i].subrange(0, 1));
        }
        if "!"@.is_prefix_of(p[i]) {
            assert(p[i].subrange(0, 1)[0] == '!');
        }
        assert(p[i].len() > 0 ==> p[i].skip(1) =~= p[i].drop_first());
    }
    if config_line(line, host, home, active, x).active {
        let i = choose|i: int| 0 <= i < a.len() && pattern_accepts(
            #[trigger] a[i],
            host,
        );
        assert(p[i + 1] == a[i]);
        assert forall|i: int| 1 <= i < p.len() && "!"@.is_prefix_of(#[trigger] p[i]) implies !wildcard(
            p[i].skip(1),
            host,
        ) by {
            assert(!pattern_rejects(a[i - 1], host));
        }
    } else if exists|i: int|
        1 <= i < p.len() && !"!"@.is_prefix_of(#[trigger] p[i]) && wildcard(p[i], host) {
        let i = choose|i: int|
            1 <= i < p.len() && !"!"@.is_prefix_of(#[trigger] p[i]) && wildcard(p[i], host);
        assert(pattern_accepts(a[i - 1], host));
        let j = choose|j: int| 0 <= j < a.len() && pattern_rejects(
            #[trigger] a[j],
            host,
        );
        assert(p[j + 1] == a[j]);
    }
}

/// The section under a `Match` line is about the host where each pattern behind a
/// `host` criterion matches it. Everything else on the line makes no difference.
pub proof fn match_line_opens_a_section(
    a: Seq<Seq<char>>,
    criterion: Seq<char>,
    pattern: Seq<char>,
    b: Seq<Seq<char>>,
    host: Seq<char>,
)
    requires
        forall|i: int| 0 <= i < a.len() ==> lower_text(#[trigger] a[i]) != "host"@,
        lower_text(criterion) == "host"@,
    ensures
        match_section(a, host),
        match_section(a.push(criterion), host),
        match_section(a + seq![criterion, pattern] + b, host) <==> wildcard(pattern, host)
            && match_section(b, host),
    decreases a.len(),
{
    let all = a + seq![criterion, pattern] + b;
    let one = a.push(criterion);
    if a.len() == 0 {
        assert(all.skip(2) =~= b);
        assert(one.drop_first() =~= Seq::<Seq<char>>::empty());
        assert(match_section(one.drop_first(), host));
    } else {
        let t = a.drop_first();
        assert forall|i: int| 0 <= i < t.len() implies lower_text(#[trigger] t[i]) != "host"@ by {
            assert(t[i] == a[i + 1]);
        }
        match_line_opens_a_section(t, criterion, pattern, b, host);
        assert(lower_text(a[0]) != "host"@);
        assert(all.drop_first() =~= t + seq![criterion, pattern] + b);
        assert(one.drop_first() =~= t.push(criterion));
    }
}

/// A `Match` line decides by its criteria and says nothing else.
pub proof fn match_line_says_nothing_else(
    line: Seq<char>,
    host: Seq<char>,
    home: Option<Seq<char>>,
    active: bool,
    x: ExtractedView,
)
    requires
        line_parts(line).len() > 0,
        lower_text(line_parts(line)[0]) == "match"@,
    ensures
        config_line(line, host, home, active, x) == (LineView {
            active: match_section(line_parts(line).drop_first(), host),
            extracted: x,
            includes: seq![],
        }),
{
    lemma_keywords_differ();
}

/// Paths under `~/` are taken from the home directory, a relative pattern of an
/// `Include` from the `.ssh` directory in it, and an absolute path stands for
/// itself, with quotes around them or without.
pub proof fn paths_are_taken_from_home(home: Seq<char>, p: Seq<char>, q: Seq<char>)
    requires
        home.len() > 0,
        home.last() != '/',
        p.len() > 0,
        p[0] != '/',
        p[0] != '~',
        p[0] != '"',
        p.last() != '"',
        q == Seq::<char>::empty() || q == "\""@,
    ensures
        identity_path(q + "~/"@ + p + q, Some(home)) == home + "/"@ + p,
        identity_path(q + "~/"@ + p + q, None) == "~/"@ + p,
        identity_path(q + p + q, Some(home)) == p,
        identity_path(q + "/"@ + p + q, Some(home)) == "/"@ + p,
        include_pattern(q + "~/"@ + p + q, Some(home)) == home + "/"@ + p,
        include_pattern(q + "~/"@ + p + q, None) == "~/"@ + p,
        include_pattern(q + p + q, Some(home)) == home + "/"@ + ".ssh"@ + "/"@ + p,
        include_pattern(q + p + q, None) == p,
        include_pattern(q + "/"@ + p + q, Some(home)) == "/"@ + p,
{
    reveal_strlit("\"");
    reveal_strlit("~/");
    reveal_strlit("/");
    reveal_strlit(".ssh");
    assert(all_are(q, '"'));
    let t = "~/"@ + p;
    let r = "/"@ + p;
    quotes_are_taken_away(q, p, q, '"');
    quotes_are_taken_away(q, t, q, '"');
    quotes_are_taken_away(q, r, q, '"');
    assert(q + t + q =~= q + "~/"@ + p + q);
    assert(q + r + q =~= q + "/"@ + p + q);
    assert("~/"@ =~= t.subrange(0, 2));
    assert(t.skip(2) =~= p);
    assert("/"@ =~= r.subrange(0, 1));
    lemma_no_slash_first(p);
    assert(!"~/"@.is_prefix_of(p)) by {
        if "~/"@.is_prefix_of(p) {
            assert(p.subrange(0, 2)[0] == '~');
        }
    }
    assert(!"~/"@.is_prefix_of(r)) by {
        if "~/"@.is_prefix_of(r) {
            assert(r.subrange(0, 2)[0] == '~');
        }
    }
    lemma_no_slash_first(".ssh"@);
    lemma_no_slash_last(home);
    lemma_no_slash_last(home + "/"@ + ".ssh"@);
    assert(!"/"@.is_prefix_of(t)) by {
        lemma_no_slash_first(t);
    }
}

/// A text that begins with something else does not begin with a slash.
pub proof fn lemma_no_slash_first(p: Seq<char>)
    requires
        p.len() > 0,
        p[0] != '/',
    ensures
        !"/"@.is_prefix_of(p),
{
    reveal_strlit("/");
    if "/"@.is_prefix_of(p) {
        assert(p.subrange(0, 1)[0] == '/');
    }
}

/// A text that ends with something else does not end with a slash.
pub proof fn lemma_no_slash_last(p: Seq<char>)
    requires
        p.len() > 0,
        p.last() != '/',
    ensures
        !"/"@.is_suffix_of(p),
{
    reveal_strlit("/");
    if "/"@.is_suffix_of(p) {
        assert(p.subrange(p.len() - 1, p.len() as int)[0] == '/');
    }
}

/// In a pattern `?` stands for any one character, `*` for any number of them, and
/// every other character for itself, case and all. The whole host must match.
pub proof fn patterns_are_wildcards(c: char, p: Seq<char>, host: Seq<char>)
    ensures
        wildcard(seq![], host) <==> host.len() == 0,
        wildcard(seq!['?'] + p, host) <==> host.len() > 0 && wildcard(p, host.skip(1)),
        wildcard(seq!['*'] + p, host) <==> exists|k: int|
            0 <= k <= host.len() && wildcard(p, #[trigger] host.skip(k)),
        c != '?' && c != '*' ==> (wildcard(seq![c] + p, host) <==> host.len() > 0 && host[0] == c
            && wildcard(p, host.skip(1))),
    decreases host.len(),
{
    assert((seq!['?'] + p).drop_first() =~= p);
    assert((seq!['*'] + p).drop_first() =~= p);
    assert((seq![c] + p).drop_first() =~= p);
    assert(host.skip(0) =~= host);
    if host.len() > 0 {
        let t = host.drop_first();
        assert(host.skip(1) =~= t);
        patterns_are_wildcards(c, p, t);
        if exists|k: int| 0 <= k <= t.len() && wildcard(p, #[trigger] t.skip(k)) {
            let k = choose|k: int| 0 <= k <= t.len() && wildcard(p, #[trigger] t.skip(k));
            assert(t.skip(k) =~= host.skip(k + 1));
        }
        if exists|k: int| 0 <= k <= host.len() && wildcard(p, #[trigger] host.skip(k)) {
            let k = choose|k: int| 0 <= k <= host.len() && wildcard(p, #[trigger] host.skip(k));
            if k > 0 {
                assert(t.skip(k - 1) =~= host.skip(k));
            }
        }
    }
}

} // verus!
