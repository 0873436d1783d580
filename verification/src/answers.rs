//! Asking only for what is needed: a question is put only where its answer is not
//! known, and answers that are added change nothing that was settled without
//! them.

use crate::auto_tun::{auto_tun_id, device_info, document_text, network_info};
use crate::facts::{place, Answer, Facts, QuestionView};
use crate::forward::TunView;
use crate::host::{
    default_identities, destination, host_connection, host_settings, identities, login_user,
    present_identities, present_identity, present_paths, scan_start,
};
use crate::paths::{has_path, path_join};
use crate::resolve::{
    all_forwards, assigned_tun, given_addrs, jump_connections, jump_specs, resolved, CliArgs,
    ResolveErrorView, TunAddrsView,
};
use crate::scan::{
    config_file, config_includes, config_lines, config_paths, depth_does_not_matter,
    lemma_unvisited_bound, ScanView,
};
use crate::ssh_config::config_line;
use crate::text::{opt_text, texts};
use vstd::prelude::*;

verus! {

/// Whether `g` is `f` with answers added.
pub open spec fn adds_to(f: Facts, g: Facts) -> bool {
    &&& f.home == g.home
    &&& f.config_files@.is_prefix_of(g.config_files@)
    &&& f.listings@.is_prefix_of(g.listings@)
    &&& f.presences@.is_prefix_of(g.presences@)
    &&& f.documents@.is_prefix_of(g.documents@)
    &&& f.variables@.is_prefix_of(g.variables@)
}

/// Whether the answer to a question is known.
pub open spec fn answered(f: Facts, q: QuestionView) -> bool {
    match q {
        QuestionView::ConfigFile(path) => f.config_file(path) is Some,
        QuestionView::Listing(pattern) => f.listing(pattern) is Some,
        QuestionView::Presence(path) => f.presence(path) is Some,
        QuestionView::Document(path) => f.document(path) is Some,
        QuestionView::Variable(name) => f.variable(name) is Some,
    }
}

proof fn lemma_place_kept<T>(v: Seq<Answer<T>>, w: Seq<Answer<T>>, name: Seq<char>)
    requires
        v.is_prefix_of(w),
        place(v, name) < v.len(),
    ensures
        place(w, name) == place(v, name),
        0 <= place(v, name),
        w[place(v, name)] == v[place(v, name)],
    decreases v.len(),
{
    assert(v == w.take(v.len() as int));
    if v.len() > 0 {
        assert(v[0] == w[0]);
        if v[0].name@ != name {
            let (s, t) = (v.drop_first(), w.drop_first());
            assert(s == t.take(s.len() as int)) by {
                assert forall|k: int| 0 <= k < s.len() implies s[k] == t[k] by {
                    assert(v[k + 1] == w.take(v.len() as int)[k + 1]);
                }
            }
            lemma_place_kept(s, t, name);
        }
    }
}

proof fn lemma_answers_kept(f: Facts, g: Facts)
    requires
        adds_to(f, g),
    ensures
        forall|p: Seq<char>| #[trigger]
            f.config_file(p) is Some ==> g.config_file(p) == f.config_file(p),
        forall|p: Seq<char>| #[trigger] f.listing(p) is Some ==> g.listing(p) == f.listing(p),
        forall|p: Seq<char>| #[trigger] f.presence(p) is Some ==> g.presence(p) == f.presence(p),
        forall|p: Seq<char>| #[trigger] f.document(p) is Some ==> g.document(p) == f.document(p),
        forall|p: Seq<char>| #[trigger] f.variable(p) is Some ==> g.variable(p) == f.variable(p),
{
    assert forall|p: Seq<char>| #[trigger] f.config_file(p) is Some implies g.config_file(p)
        == f.config_file(p) by {
        lemma_place_kept(f.config_files@, g.config_files@, p);
    }
    assert forall|p: Seq<char>| #[trigger] f.listing(p) is Some implies g.listing(p) == f.listing(
        p,
    ) by {
        lemma_place_kept(f.listings@, g.listings@, p);
    }
    assert forall|p: Seq<char>| #[trigger] f.presence(p) is Some implies g.presence(p)
        == f.presence(p) by {
        lemma_place_kept(f.presences@, g.presences@, p);
    }
    assert forall|p: Seq<char>| #[trigger] f.document(p) is Some implies g.document(p)
        == f.document(p) by {
        lemma_place_kept(f.documents@, g.documents@, p);
    }
    assert forall|p: Seq<char>| #[trigger] f.variable(p) is Some implies g.variable(p)
        == f.variable(p) by {
        lemma_place_kept(f.variables@, g.variables@, p);
    }
}

proof fn lemma_file_missing(f: Facts, host: Seq<char>, path: Seq<char>, s: ScanView, depth: nat)
    requires
        s.missing matches Some(q) ==> !answered(f, q),
    ensures
        config_file(f, host, path, s, depth).missing matches Some(q) ==> !answered(f, q),
    decreases depth, 0nat, 0nat,
{
    if s.missing is None {
        if let Some(c) = f.config_file(path) {
            if !has_path(s.visited, c.canonical) && c.lines is Some && depth > 0 {
                let opened = ScanView { visited: s.visited.push(c.canonical), ..s };
                lemma_lines_missing(f, host, c.lines->0, true, opened, (depth - 1) as nat);
            }
        }
    }
}

proof fn lemma_lines_missing(
    f: Facts,
    host: Seq<char>,
    lines: Seq<Seq<char>>,
    active: bool,
    s: ScanView,
    depth: nat,
)
    requires
        s.missing matches Some(q) ==> !answered(f, q),
    ensures
        config_lines(f, host, lines, active, s, depth).missing matches Some(q) ==> !answered(f, q),
    decreases depth, 3nat, lines.len(),
{
    if lines.len() > 0 && s.missing is None {
        let l = config_line(lines[0], host, opt_text(f.home), active, s.extracted);
        let next = ScanView { extracted: l.extracted, ..s };
        let after = config_includes(f, host, l.includes, next, depth);
        lemma_includes_missing(f, host, l.includes, next, depth);
        lemma_lines_missing(f, host, lines.drop_first(), l.active, after, depth);
    }
}

proof fn lemma_includes_missing(
    f: Facts,
    host: Seq<char>,
    patterns: Seq<Seq<char>>,
    s: ScanView,
    depth: nat,
)
    requires
        s.missing matches Some(q) ==> !answered(f, q),
    ensures
        config_includes(f, host, patterns, s, depth).missing matches Some(q) ==> !answered(f, q),
    decreases depth, 2nat, patterns.len(),
{
    if patterns.len() > 0 && s.missing is None {
        if let Some(paths) = f.listing(patterns[0]) {
            let after = config_paths(f, host, paths, s, depth);
            lemma_paths_missing(f, host, paths, s, depth);
            lemma_includes_missing(f, host, patterns.drop_first(), after, depth);
        }
    }
}

proof fn lemma_paths_missing(
    f: Facts,
    host: Seq<char>,
    paths: Seq<Seq<char>>,
    s: ScanView,
    depth: nat,
)
    requires
        s.missing matches Some(q) ==> !answered(f, q),
    ensures
        config_paths(f, host, paths, s, depth).missing matches Some(q) ==> !answered(f, q),
    decreases depth, 1nat, paths.len(),
{
    if paths.len() > 0 && s.missing is None {
        let after = config_file(f, host, paths[0], s, depth);
        lemma_file_missing(f, host, paths[0], s, depth);
        lemma_paths_missing(f, host, paths.drop_first(), after, depth);
    }
}

proof fn lemma_file_kept(
    f: Facts,
    g: Facts,
    host: Seq<char>,
    path: Seq<char>,
    s: ScanView,
    depth: nat,
)
    requires
        adds_to(f, g),
        config_file(f, host, path, s, depth).missing is None,
    ensures
        config_file(g, host, path, s, depth) == config_file(f, host, path, s, depth),
        s.missing is None,
    decreases depth, 0nat, 0nat,
{
    lemma_answers_kept(f, g);
    if s.missing is None {
        if let Some(c) = f.config_file(path) {
            if !has_path(s.visited, c.canonical) && c.lines is Some && depth > 0 {
                let opened = ScanView { visited: s.visited.push(c.canonical), ..s };
                lemma_lines_kept(f, g, host, c.lines->0, true, opened, (depth - 1) as nat);
            }
        }
    }
}

proof fn lemma_lines_kept(
    f: Facts,
    g: Facts,
    host: Seq<char>,
    lines: Seq<Seq<char>>,
    active: bool,
    s: ScanView,
    depth: nat,
)
    requires
        adds_to(f, g),
        config_lines(f, host, lines, active, s, depth).missing is None,
    ensures
        config_lines(g, host, lines, active, s, depth) == config_lines(
            f,
            host,
            lines,
            active,
            s,
            depth,
        ),
        s.missing is None,
    decreases depth, 3nat, lines.len(),
{
    if lines.len() > 0 && s.missing is None {
        let l = config_line(lines[0], host, opt_text(f.home), active, s.extracted);
        let next = ScanView { extracted: l.extracted, ..s };
        let after = config_includes(f, host, l.includes, next, depth);
        lemma_lines_kept(f, g, host, lines.drop_first(), l.active, after, depth);
        lemma_includes_kept(f, g, host, l.includes, next, depth);
    }
}

proof fn lemma_includes_kept(
    f: Facts,
    g: Facts,
    host: Seq<char>,
    patterns: Seq<Seq<char>>,
    s: ScanView,
    depth: nat,
)
    requires
        adds_to(f, g),
        config_includes(f, host, patterns, s, depth).missing is None,
    ensures
        config_includes(g, host, patterns, s, depth) == config_includes(
            f,
            host,
            patterns,
            s,
            depth,
        ),
        s.missing is None,
    decreases depth, 2nat, patterns.len(),
{
    lemma_answers_kept(f, g);
    if patterns.len() > 0 && s.missing is None {
        if let Some(paths) = f.listing(patterns[0]) {
            let after = config_paths(f, host, paths, s, depth);
            lemma_includes_kept(f, g, host, patterns.drop_first(), after, depth);
            lemma_paths_kept(f, g, host, paths, s, depth);
        }
    }
}

proof fn lemma_paths_kept(
    f: Facts,
    g: Facts,
    host: Seq<char>,
    paths: Seq<Seq<char>>,
    s: ScanView,
    depth: nat,
)
    requires
        adds_to(f, g),
        config_paths(f, host, paths, s, depth).missing is None,
    ensures
        config_paths(g, host, paths, s, depth) == config_paths(f, host, paths, s, depth),
        s.missing is None,
    decreases depth, 1nat, paths.len(),
{
    if paths.len() > 0 && s.missing is None {
        let after = config_file(f, host, paths[0], s, depth);
        lemma_paths_kept(f, g, host, paths.drop_first(), after, depth);
        lemma_file_kept(f, g, host, paths[0], s, depth);
    }
}

proof fn lemma_settings(f: Facts, g: Facts, host: Seq<char>)
    requires
        adds_to(f, g),
    ensures
        host_settings(f, host) is Ok ==> host_settings(g, host) == host_settings(f, host),
        host_settings(f, host) matches Err(q) ==> !answered(f, q),
{
    if let Some(home) = f.home {
        let path = path_join(path_join(home@, ".ssh"@), "config"@);
        let (d, e) = (f.config_files@.len(), g.config_files@.len());
        lemma_file_missing(f, host, path, scan_start(), d);
        lemma_unvisited_bound(f, scan_start().visited, d);
        depth_does_not_matter(f, host, path, scan_start(), d, e);
        if config_file(f, host, path, scan_start(), d).missing is None {
            lemma_file_kept(f, g, host, path, scan_start(), e);
        }
    }
}

proof fn lemma_present_identities(f: Facts, g: Facts, paths: Seq<Seq<char>>)
    requires
        adds_to(f, g),
    ensures
        present_identities(f, paths) is Ok ==> present_identities(g, paths) == present_identities(
            f,
            paths,
        ),
        present_identities(f, paths) matches Err(q) ==> !answered(f, q),
    decreases paths.len(),
{
    lemma_answers_kept(f, g);
    if paths.len() > 0 {
        lemma_present_identities(f, g, paths.drop_last());
        let p = paths.last();
        assert(present_identity(f, p) is Ok ==> present_identity(g, p) == present_identity(f, p));
        assert(present_identity(f, p) matches Err(q) ==> !answered(f, q));
    }
}

proof fn lemma_present_paths(f: Facts, g: Facts, paths: Seq<Seq<char>>)
    requires
        adds_to(f, g),
    ensures
        present_paths(f, paths) is Ok ==> present_paths(g, paths) == present_paths(f, paths),
        present_paths(f, paths) matches Err(q) ==> !answered(f, q),
    decreases paths.len(),
{
    lemma_answers_kept(f, g);
    if paths.len() > 0 {
        lemma_present_paths(f, g, paths.drop_last());
    }
}

proof fn lemma_connection(
    f: Facts,
    g: Facts,
    spec_text: Seq<char>,
    cli_port: Option<u16>,
    ids: Seq<Seq<char>>,
)
    requires
        adds_to(f, g),
    ensures
        host_connection(f, spec_text, cli_port, ids) is Ok ==> host_connection(
            g,
            spec_text,
            cli_port,
            ids,
        ) == host_connection(f, spec_text, cli_port, ids),
        host_connection(f, spec_text, cli_port, ids) matches Err(q) ==> !answered(f, q),
{
    let d = destination(spec_text, cli_port);
    lemma_answers_kept(f, g);
    lemma_settings(f, g, d.host);
    if let Ok(x) = host_settings(f, d.host) {
        lemma_present_identities(f, g, x.identity_files);
        if f.home is Some {
            lemma_present_paths(f, g, default_identities(f.home->0@));
        }
        assert(login_user(f, d.user, x.user) is Ok ==> login_user(g, d.user, x.user) == login_user(
            f,
            d.user,
            x.user,
        ));
        assert(identities(f, ids, x.identity_files) is Ok ==> identities(g, ids, x.identity_files)
            == identities(f, ids, x.identity_files));
    }
}

proof fn lemma_jumps(f: Facts, g: Facts, specs: Seq<Seq<char>>, ids: Seq<Seq<char>>)
    requires
        adds_to(f, g),
    ensures
        jump_connections(f, specs, ids) is Ok ==> jump_connections(g, specs, ids)
            == jump_connections(f, specs, ids),
        jump_connections(f, specs, ids) matches Err(q) ==> !answered(f, q),
    decreases specs.len(),
{
    if specs.len() > 0 {
        lemma_jumps(f, g, specs.drop_last(), ids);
        lemma_connection(f, g, specs.last(), None, ids);
    }
}

proof fn lemma_identifier(f: Facts, g: Facts, host: Seq<char>, port: u16)
    requires
        adds_to(f, g),
    ensures
        auto_tun_id(f, host, port) matches Err(q) ==> !answered(f, q),
        auto_tun_id(f, host, port) is Ok ==> auto_tun_id(g, host, port) == auto_tun_id(
            f,
            host,
            port,
        ),
{
    lemma_answers_kept(f, g);
    assert(forall|p: Seq<char>| #[trigger]
        document_text(f, p) is Ok ==> document_text(g, p) == document_text(f, p));
    assert(device_info(f) is Ok ==> device_info(g) == device_info(f));
    assert(network_info(f) is Ok ==> network_info(g) == network_info(f));
}

proof fn lemma_tunnel(
    f: Facts,
    g: Facts,
    host: Seq<char>,
    port: u16,
    tun: Option<TunView>,
    given: TunAddrsView,
)
    requires
        adds_to(f, g),
    ensures
        assigned_tun(f, host, port, tun, given) is Ok ==> assigned_tun(g, host, port, tun, given)
            == assigned_tun(f, host, port, tun, given),
        assigned_tun(f, host, port, tun, given) matches Err(q) ==> !answered(f, q),
{
    lemma_identifier(f, g, host, port);
}

/// A configuration, or the refusal of a text, that needs no more answers stays
/// what it is when more answers become known.
pub proof fn more_answers_change_nothing(f: Facts, g: Facts, args: CliArgs)
    requires
        adds_to(f, g),
        !(resolved(f, args) matches Err(ResolveErrorView::Unanswered(_))),
    ensures
        resolved(g, args) == resolved(f, args),
{
    lemma_resolved(f, g, args);
}

/// Nothing is asked whose answer is known, so each answer brings the
/// configuration closer.
pub proof fn only_open_questions_are_asked(f: Facts, args: CliArgs)
    ensures
        resolved(f, args) matches Err(ResolveErrorView::Unanswered(q)) ==> !answered(f, q),
{
    lemma_resolved(f, f, args);
}

proof fn lemma_resolved(f: Facts, g: Facts, args: CliArgs)
    requires
        adds_to(f, g),
    ensures
        !(resolved(f, args) matches Err(ResolveErrorView::Unanswered(_))) ==> resolved(g, args)
            == resolved(f, args),
        resolved(f, args) matches Err(ResolveErrorView::Unanswered(q)) ==> !answered(f, q),
{
    let ids = texts(args.identity@);
    lemma_connection(f, g, args.destination@, args.port, ids);
    if let Ok(target) = host_connection(f, args.destination@, args.port, ids) {
        lemma_settings(f, g, target.host);
        if let Ok(x) = host_settings(f, target.host) {
            lemma_jumps(f, g, jump_specs(texts(args.jump_hosts@), x.proxy_jump), ids);
            if let Ok(w) = all_forwards(args, x) {
                lemma_tunnel(f, g, target.host, target.port, w.tun, given_addrs(args));
            }
        }
    }
}

/// Reading files asks only for what is not known.
pub proof fn files_ask_only_open_questions(
    f: Facts,
    host: Seq<char>,
    path: Seq<char>,
    s: ScanView,
    depth: nat,
)
    requires
        s.missing is None,
    ensures
        config_file(f, host, path, s, depth).missing matches Some(q) ==> !answered(f, q),
{
    lemma_file_missing(f, host, path, s, depth);
}

/// What files say without a question left open they still say when more answers
/// become known.
pub proof fn more_answers_keep_files(
    f: Facts,
    g: Facts,
    host: Seq<char>,
    path: Seq<char>,
    s: ScanView,
)
    requires
        adds_to(f, g),
        config_file(f, host, path, s, f.config_files@.len()).missing is None,
    ensures
        config_file(g, host, path, s, g.config_files@.len()) == config_file(
            f,
            host,
            path,
            s,
            f.config_files@.len(),
        ),
{
    let (d, e) = (f.config_files@.len(), g.config_files@.len());
    lemma_unvisited_bound(f, s.visited, d);
    depth_does_not_matter(f, host, path, s, d, e);
    lemma_file_kept(f, g, host, path, s, e);
}

/// The connection to a host is asked about only where an answer is not known, and
/// one that needs no more answers stays what it is when more become known.
pub proof fn host_asks_only_open_questions(
    f: Facts,
    g: Facts,
    spec_text: Seq<char>,
    cli_port: Option<u16>,
    ids: Seq<Seq<char>>,
)
    requires
        adds_to(f, g),
    ensures
        host_connection(f, spec_text, cli_port, ids) matches Err(q) ==> !answered(f, q),
        host_connection(f, spec_text, cli_port, ids) is Ok ==> host_connection(
            g,
            spec_text,
            cli_port,
            ids,
        ) == host_connection(f, spec_text, cli_port, ids),
{
    lemma_connection(f, g, spec_text, cli_port, ids);
}

/// The identifier of a tunnel is asked about only where an answer is not known,
/// and one that needs no more answers stays what it is when more become known.
pub proof fn identifier_asks_only_open_questions(f: Facts, g: Facts, host: Seq<char>, port: u16)
    requires
        adds_to(f, g),
    ensures
        auto_tun_id(f, host, port) matches Err(q) ==> !answered(f, q),
        auto_tun_id(f, host, port) is Ok ==> auto_tun_id(g, host, port) == auto_tun_id(
            f,
            host,
            port,
        ),
{
    lemma_identifier(f, g, host, port);
}

} // verus!
