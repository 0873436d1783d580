//! The configuration as a whole: files that bring in other files.

use crate::facts::{lemma_place_bounds, place, Facts, Question, QuestionView};
use crate::paths::{has_path, holds_path, same_path};
use crate::ssh_config::{apply_config_line, config_line, ExtractedSshConfig, ExtractedView};
use crate::text::{copy, opt_text, texts};
use vstd::prelude::*;
use vstd::string::*;

verus! {

/// How far the reading of the configuration has come.
#[verifier::ext_equal]
pub struct ScanView {
    /// What has been said of the host so far.
    pub extracted: ExtractedView,
    /// The files that have been looked at, by their canonical paths.
    pub visited: Seq<Seq<char>>,
    /// The first thing that is needed and not known. Nothing is read behind it.
    pub missing: Option<QuestionView>,
}

/// Reads the file at a path, unless it has been looked at before. `depth` bounds
/// how many files can be open at a time.
pub open spec fn config_file(
    f: Facts,
    host: Seq<char>,
    path: Seq<char>,
    s: ScanView,
    depth: nat,
) -> ScanView
    decreases depth, 0nat, 0nat,
{
    if s.missing is Some {
        s
    } else {
        match f.config_file(path) {
            None => ScanView { missing: Some(QuestionView::ConfigFile(path)), ..s },
            Some(c) => if has_path(s.visited, c.canonical) {
                s
            } else {
                let opened = ScanView { visited: s.visited.push(c.canonical), ..s };
                match c.lines {
                    Some(lines) => if depth > 0 {
                        config_lines(f, host, lines, true, opened, (depth - 1) as nat)
                    } else {
                        opened
                    },
                    None => opened,
                }
            },
        }
    }
}

/// Reads lines, one after the other.
pub open spec fn config_lines(
    f: Facts,
    host: Seq<char>,
    lines: Seq<Seq<char>>,
    active: bool,
    s: ScanView,
    depth: nat,
) -> ScanView
    decreases depth, 3nat, lines.len(),
{
    if lines.len() == 0 || s.missing is Some {
        s
    } else {
        let l = config_line(lines[0], host, opt_text(f.home), active, s.extracted);
        let next = ScanView { extracted: l.extracted, ..s };
        config_lines(
            f,
            host,
            lines.drop_first(),
            l.active,
            config_includes(f, host, l.includes, next, depth),
            depth,
        )
    }
}

/// Reads the files that match patterns, one pattern after the other.
pub open spec fn config_includes(
    f: Facts,
    host: Seq<char>,
    patterns: Seq<Seq<char>>,
    s: ScanView,
    depth: nat,
) -> ScanView
    decreases depth, 2nat, patterns.len(),
{
    if patterns.len() == 0 || s.missing is Some {
        s
    } else {
        match f.listing(patterns[0]) {
            None => ScanView { missing: Some(QuestionView::Listing(patterns[0])), ..s },
            Some(paths) => config_includes(
                f,
                host,
                patterns.drop_first(),
                config_paths(f, host, paths, s, depth),
                depth,
            ),
        }
    }
}

/// Reads the files at paths, one after the other.
pub open spec fn config_paths(
    f: Facts,
    host: Seq<char>,
    paths: Seq<Seq<char>>,
    s: ScanView,
    depth: nat,
) -> ScanView
    decreases depth, 1nat, paths.len(),
{
    if paths.len() == 0 || s.missing is Some {
        s
    } else {
        config_paths(f, host, paths.drop_first(), config_file(f, host, paths[0], s, depth), depth)
    }
}

/// How many of the first `n` known files have not been looked at.
pub open spec fn unvisited(f: Facts, visited: Seq<Seq<char>>, n: nat) -> nat
    decreases n,
{
    if n == 0 {
        0
    } else if has_path(visited, f.config_files@[n - 1].value@.canonical) {
        unvisited(f, visited, (n - 1) as nat)
    } else {
        1 + unvisited(f, visited, (n - 1) as nat)
    }
}

/// A depth that no nesting of files exceeds: there is room for every known file
/// that has not been looked at.
pub open spec fn deep_enough(f: Facts, visited: Seq<Seq<char>>, depth: nat) -> bool {
    unvisited(f, visited, f.config_files@.len()) <= depth
}

/// `t` says everything that `s` says: a single value that is set stays as it is,
/// and a collection keeps its values, in order, at its start.
pub open spec fn extends(s: ExtractedView, t: ExtractedView) -> bool {
    &&& s.hostname is Some ==> t.hostname == s.hostname
    &&& s.user is Some ==> t.user == s.user
    &&& s.port is Some ==> t.port == s.port
    &&& s.tun_forward is Some ==> t.tun_forward == s.tun_forward
    &&& s.proxy_jump is Some ==> t.proxy_jump == s.proxy_jump
    &&& s.identity_files.is_prefix_of(t.identity_files)
    &&& s.local_forwards.is_prefix_of(t.local_forwards)
    &&& s.remote_forwards.is_prefix_of(t.remote_forwards)
    &&& s.dynamic_forwards.is_prefix_of(t.dynamic_forwards)
}

/// Whether no file occurs twice.
pub open spec fn distinct_files(v: Seq<Seq<char>>) -> bool {
    forall|i: int, j: int|
        0 <= i < j < v.len() ==> !same_path(#[trigger] v[i], #[trigger] v[j])
}

/// `t` is further on than `s`.
pub open spec fn proceeds(s: ScanView, t: ScanView) -> bool {
    &&& extends(s.extracted, t.extracted)
    &&& s.visited.is_prefix_of(t.visited)
    &&& distinct_files(s.visited) ==> distinct_files(t.visited)
    &&& s.missing is Some ==> t == s
}

/// No more files have not been looked at than there are.
pub proof fn lemma_unvisited_bound(f: Facts, visited: Seq<Seq<char>>, n: nat)
    ensures
        unvisited(f, visited, n) <= n,
    decreases n,
{
    if n > 0 {
        lemma_unvisited_bound(f, visited, (n - 1) as nat);
    }
}

proof fn lemma_unvisited_shrinks(f: Facts, v: Seq<Seq<char>>, w: Seq<Seq<char>>, n: nat)
    requires
        forall|p: Seq<char>| #[trigger] has_path(v, p) ==> has_path(w, p),
    ensures
        unvisited(f, w, n) <= unvisited(f, v, n),
    decreases n,
{
    if n > 0 {
        lemma_unvisited_shrinks(f, v, w, (n - 1) as nat);
    }
}

proof fn lemma_unvisited_drops(f: Facts, v: Seq<Seq<char>>, n: nat, i: int)
    requires
        0 <= i < n,
        !has_path(v, f.config_files@[i].value@.canonical),
    ensures
        unvisited(f, v.push(f.config_files@[i].value@.canonical), n) < unvisited(f, v, n),
    decreases n,
{
    let c = f.config_files@[i].value@.canonical;
    let w = v.push(c);
    assert(w[v.len() as int] == c);
    assert(has_path(w, c));
    assert forall|p: Seq<char>| #[trigger] has_path(v, p) implies has_path(w, p) by {
        let k = choose|k: int| 0 <= k < v.len() && same_path(#[trigger] v[k], p);
        assert(w[k] == v[k]);
    }
    if n - 1 == i {
        lemma_unvisited_shrinks(f, v, w, (n - 1) as nat);
    } else {
        lemma_unvisited_drops(f, v, (n - 1) as nat, i);
    }
}

proof fn lemma_prefix_contains(v: Seq<Seq<char>>, w: Seq<Seq<char>>)
    requires
        v.is_prefix_of(w),
    ensures
        forall|p: Seq<char>| #[trigger] has_path(v, p) ==> has_path(w, p),
{
    assert forall|p: Seq<char>| #[trigger] has_path(v, p) implies has_path(w, p) by {
        let k = choose|k: int| 0 <= k < v.len() && same_path(#[trigger] v[k], p);
        assert(w.subrange(0, v.len() as int)[k] == w[k]);
    }
}

/// Looking at more files keeps a depth deep enough.
proof fn lemma_still_deep(f: Facts, v: Seq<Seq<char>>, w: Seq<Seq<char>>, depth: nat)
    requires
        v.is_prefix_of(w),
        deep_enough(f, v, depth),
    ensures
        deep_enough(f, w, depth),
{
    lemma_prefix_contains(v, w);
    lemma_unvisited_shrinks(f, v, w, f.config_files@.len());
}

/// Opening a file leaves room for the others.
proof fn lemma_room_below(f: Facts, path: Seq<char>, visited: Seq<Seq<char>>, depth: nat)
    requires
        f.config_file(path) is Some,
        !has_path(visited, f.config_file(path)->0.canonical),
        deep_enough(f, visited, depth),
    ensures
        depth > 0,
        deep_enough(f, visited.push(f.config_file(path)->0.canonical), (depth - 1) as nat),
{
    lemma_place_bounds(f.config_files@, path);
    let i = place(f.config_files@, path);
    lemma_unvisited_drops(f, visited, f.config_files@.len(), i);
}

proof fn lemma_prefix_trans<A>(a: Seq<A>, b: Seq<A>, c: Seq<A>)
    requires
        a.is_prefix_of(b),
        b.is_prefix_of(c),
    ensures
        a.is_prefix_of(c),
{
    assert(a =~= c.subrange(0, a.len() as int)) by {
        assert forall|k: int| 0 <= k < a.len() implies a[k] == c[k] by {
            assert(a[k] == b.subrange(0, a.len() as int)[k]);
            assert(b[k] == c.subrange(0, b.len() as int)[k]);
        }
    }
}

proof fn lemma_proceeds_trans(a: ScanView, b: ScanView, c: ScanView)
    requires
        proceeds(a, b),
        proceeds(b, c),
    ensures
        proceeds(a, c),
{
    lemma_prefix_trans(a.visited, b.visited, c.visited);
    lemma_prefix_trans(
        a.extracted.identity_files,
        b.extracted.identity_files,
        c.extracted.identity_files,
    );
    lemma_prefix_trans(
        a.extracted.local_forwards,
        b.extracted.local_forwards,
        c.extracted.local_forwards,
    );
    lemma_prefix_trans(
        a.extracted.remote_forwards,
        b.extracted.remote_forwards,
        c.extracted.remote_forwards,
    );
    lemma_prefix_trans(
        a.extracted.dynamic_forwards,
        b.extracted.dynamic_forwards,
        c.extracted.dynamic_forwards,
    );
}

proof fn lemma_self_prefix<A>(a: Seq<A>)
    ensures
        a.is_prefix_of(a),
{
    assert(a =~= a.subrange(0, a.len() as int));
}

proof fn lemma_extends_self(x: ExtractedView)
    ensures
        extends(x, x),
{
    lemma_self_prefix(x.identity_files);
    lemma_self_prefix(x.local_forwards);
    lemma_self_prefix(x.remote_forwards);
    lemma_self_prefix(x.dynamic_forwards);
}

/// A line takes nothing back of what has been said of the host.
pub proof fn line_keeps_what_is_set(
    line: Seq<char>,
    host: Seq<char>,
    home: Option<Seq<char>>,
    active: bool,
    x: ExtractedView,
)
    ensures
        extends(x, config_line(line, host, home, active, x).extracted),
{
    let l = config_line(line, host, home, active, x);
    lemma_extends_self(x);
    if l.extracted != x {
        let t = l.extracted;
        assert(x.identity_files =~= t.identity_files.subrange(0, x.identity_files.len() as int));
        assert(x.local_forwards =~= t.local_forwards.subrange(0, x.local_forwards.len() as int));
        assert(x.remote_forwards =~= t.remote_forwards.subrange(0, x.remote_forwards.len() as int));
        assert(x.dynamic_forwards =~= t.dynamic_forwards.subrange(
            0,
            x.dynamic_forwards.len() as int,
        ));
    }
}

/// Reading a file, and the files that it brings in, takes nothing back: the
/// first value of a setting counts, what is collected stays in order, no file is
/// looked at twice, and nothing is read once something is missing.
pub proof fn reading_keeps_what_is_set(
    f: Facts,
    host: Seq<char>,
    path: Seq<char>,
    s: ScanView,
    depth: nat,
)
    ensures
        proceeds(s, config_file(f, host, path, s, depth)),
    decreases depth, 0nat, 0nat,
{
    lemma_extends_self(s.extracted);
    lemma_self_prefix(s.visited);
    if s.missing is None {
        if let Some(c) = f.config_file(path) {
            if !has_path(s.visited, c.canonical) {
                let opened = ScanView { visited: s.visited.push(c.canonical), ..s };
                assert(s.visited =~= opened.visited.subrange(0, s.visited.len() as int));
                assert(proceeds(s, opened));
                if c.lines is Some && depth > 0 {
                    lemma_lines_proceed(f, host, c.lines->0, true, opened, (depth - 1) as nat);
                    lemma_proceeds_trans(s, opened, config_file(f, host, path, s, depth));
                }
            }
        }
    }
}

proof fn lemma_lines_proceed(
    f: Facts,
    host: Seq<char>,
    lines: Seq<Seq<char>>,
    active: bool,
    s: ScanView,
    depth: nat,
)
    ensures
        proceeds(s, config_lines(f, host, lines, active, s, depth)),
    decreases depth, 3nat, lines.len(),
{
    lemma_extends_self(s.extracted);
    lemma_self_prefix(s.visited);
    if lines.len() > 0 && s.missing is None {
        let l = config_line(lines[0], host, opt_text(f.home), active, s.extracted);
        let next = ScanView { extracted: l.extracted, ..s };
        line_keeps_what_is_set(lines[0], host, opt_text(f.home), active, s.extracted);
        assert(proceeds(s, next));
        let after = config_includes(f, host, l.includes, next, depth);
        lemma_includes_proceed(f, host, l.includes, next, depth);
        lemma_proceeds_trans(s, next, after);
        lemma_lines_proceed(f, host, lines.drop_first(), l.active, after, depth);
        lemma_proceeds_trans(s, after, config_lines(f, host, lines, active, s, depth));
    }
}

proof fn lemma_includes_proceed(
    f: Facts,
    host: Seq<char>,
    patterns: Seq<Seq<char>>,
    s: ScanView,
    depth: nat,
)
    ensures
        proceeds(s, config_includes(f, host, patterns, s, depth)),
    decreases depth, 2nat, patterns.len(),
{
    lemma_extends_self(s.extracted);
    lemma_self_prefix(s.visited);
    if patterns.len() > 0 && s.missing is None {
        if let Some(paths) = f.listing(patterns[0]) {
            let after = config_paths(f, host, paths, s, depth);
            lemma_paths_proceed(f, host, paths, s, depth);
            lemma_includes_proceed(f, host, patterns.drop_first(), after, depth);
            lemma_proceeds_trans(s, after, config_includes(f, host, patterns, s, depth));
        }
    }
}

proof fn lemma_paths_proceed(
    f: Facts,
    host: Seq<char>,
    paths: Seq<Seq<char>>,
    s: ScanView,
    depth: nat,
)
    ensures
        proceeds(s, config_paths(f, host, paths, s, depth)),
    decreases depth, 1nat, paths.len(),
{
    lemma_extends_self(s.extracted);
    lemma_self_prefix(s.visited);
    if paths.len() > 0 && s.missing is None {
        let after = config_file(f, host, paths[0], s, depth);
        reading_keeps_what_is_set(f, host, paths[0], s, depth);
        lemma_paths_proceed(f, host, paths.drop_first(), after, depth);
        lemma_proceeds_trans(s, after, config_paths(f, host, paths, s, depth));
    }
}

/// No nesting of files is cut off: any two depths that leave room for every
/// known file that has not been looked at give the same result, though files
/// bring in each other.
pub proof fn depth_does_not_matter(
    f: Facts,
    host: Seq<char>,
    path: Seq<char>,
    s: ScanView,
    d: nat,
    e: nat,
)
    requires
        deep_enough(f, s.visited, d),
        deep_enough(f, s.visited, e),
    ensures
        config_file(f, host, path, s, d) == config_file(f, host, path, s, e),
    decreases d, 0nat, 0nat,
{
    if s.missing is None {
        if let Some(c) = f.config_file(path) {
            if !has_path(s.visited, c.canonical) {
                let opened = ScanView { visited: s.visited.push(c.canonical), ..s };
                lemma_room_below(f, path, s.visited, d);
                lemma_room_below(f, path, s.visited, e);
                if c.lines is Some {
                    lemma_lines_depth(
                        f,
                        host,
                        c.lines->0,
                        true,
                        opened,
                        (d - 1) as nat,
                        (e - 1) as nat,
                    );
                }
            }
        }
    }
}

proof fn lemma_lines_depth(
    f: Facts,
    host: Seq<char>,
    lines: Seq<Seq<char>>,
    active: bool,
    s: ScanView,
    d: nat,
    e: nat,
)
    requires
        deep_enough(f, s.visited, d),
        deep_enough(f, s.visited, e),
    ensures
        config_lines(f, host, lines, active, s, d) == config_lines(f, host, lines, active, s, e),
    decreases d, 3nat, lines.len(),
{
    if lines.len() > 0 && s.missing is None {
        let l = config_line(lines[0], host, opt_text(f.home), active, s.extracted);
        let next = ScanView { extracted: l.extracted, ..s };
        let after = config_includes(f, host, l.includes, next, d);
        lemma_includes_depth(f, host, l.includes, next, d, e);
        lemma_includes_proceed(f, host, l.includes, next, d);
        lemma_still_deep(f, next.visited, after.visited, d);
        lemma_still_deep(f, next.visited, after.visited, e);
        lemma_lines_depth(f, host, lines.drop_first(), l.active, after, d, e);
    }
}

proof fn lemma_includes_depth(
    f: Facts,
    host: Seq<char>,
    patterns: Seq<Seq<char>>,
    s: ScanView,
    d: nat,
    e: nat,
)
    requires
        deep_enough(f, s.visited, d),
        deep_enough(f, s.visited, e),
    ensures
        config_includes(f, host, patterns, s, d) == config_includes(f, host, patterns, s, e),
    decreases d, 2nat, patterns.len(),
{
    if patterns.len() > 0 && s.missing is None {
        if let Some(paths) = f.listing(patterns[0]) {
            let after = config_paths(f, host, paths, s, d);
            lemma_paths_depth(f, host, paths, s, d, e);
            lemma_paths_proceed(f, host, paths, s, d);
            lemma_still_deep(f, s.visited, after.visited, d);
            lemma_still_deep(f, s.visited, after.visited, e);
            lemma_includes_depth(f, host, patterns.drop_first(), after, d, e);
        }
    }
}

proof fn lemma_paths_depth(
    f: Facts,
    host: Seq<char>,
    paths: Seq<Seq<char>>,
    s: ScanView,
    d: nat,
    e: nat,
)
    requires
        deep_enough(f, s.visited, d),
        deep_enough(f, s.visited, e),
    ensures
        config_paths(f, host, paths, s, d) == config_paths(f, host, paths, s, e),
    decreases d, 1nat, paths.len(),
{
    if paths.len() > 0 && s.missing is None {
        let after = config_file(f, host, paths[0], s, d);
        depth_does_not_matter(f, host, paths[0], s, d, e);
        reading_keeps_what_is_set(f, host, paths[0], s, d);
        lemma_still_deep(f, s.visited, after.visited, d);
        lemma_still_deep(f, s.visited, after.visited, e);
        lemma_paths_depth(f, host, paths.drop_first(), after, d, e);
    }
}

/// The model of what has been read, and of the question that is open, if any.
pub open spec fn scan_view(
    extracted: ExtractedSshConfig,
    visited: Seq<String>,
    r: Result<(), Question>,
) -> ScanView {
    ScanView {
        extracted: extracted@,
        visited: texts(visited),
        missing: match r {
            Ok(_) => None,
            Err(q) => Some(q@),
        },
    }
}

fn read_file(
    facts: &Facts,
    target_host: &str,
    path: &str,
    extracted: &mut ExtractedSshConfig,
    visited: &mut Vec<String>,
    depth: usize,
) -> (r: Result<(), Question>)
    requires
        deep_enough(*facts, texts(old(visited)@), depth as nat),
    ensures
        scan_view(*final(extracted), final(visited)@, r) == config_file(
            *facts,
            target_host@,
            path@,
            scan_view(*old(extracted), old(visited)@, Ok(())),
            depth as nat,
        ),
    decreases depth, 0nat,
{
    match facts.find_config_file(path) {
        None => Err(Question::ConfigFile(copy(path))),
        Some(c) => {
            if holds_path(visited, c.canonical.as_str()) {
                return Ok(());
            }
            proof {
                lemma_room_below(*facts, path@, texts(visited@), depth as nat);
            }
            let ghost before = texts(visited@);
            visited.push(copy(c.canonical.as_str()));
            assert(texts(visited@) =~= before.push(c.canonical@));
            match &c.lines {
                Some(lines) => read_lines(
                    facts,
                    target_host,
                    lines,
                    extracted,
                    visited,
                    depth - 1,
                ),
                None => Ok(()),
            }
        },
    }
}

fn read_lines(
    facts: &Facts,
    target_host: &str,
    lines: &Vec<String>,
    extracted: &mut ExtractedSshConfig,
    visited: &mut Vec<String>,
    depth: usize,
) -> (r: Result<(), Question>)
    requires
        deep_enough(*facts, texts(old(visited)@), depth as nat),
    ensures
        scan_view(*final(extracted), final(visited)@, r) == config_lines(
            *facts,
            target_host@,
            texts(lines@),
            true,
            scan_view(*old(extracted), old(visited)@, Ok(())),
            depth as nat,
        ),
    decreases depth, 3nat,
{
    let ghost all = texts(lines@);
    let ghost whole = config_lines(
        *facts,
        target_host@,
        all,
        true,
        scan_view(*extracted, visited@, Ok(())),
        depth as nat,
    );
    let mut active = true;
    let mut i: usize = 0;
    assert(all.skip(0) == all);
    while i < lines.len()
        invariant
            i <= lines.len(),
            all == texts(lines@),
            whole == config_lines(
                *facts,
                target_host@,
                all,
                true,
                scan_view(*old(extracted), old(visited)@, Ok(())),
                depth as nat,
            ),
            deep_enough(*facts, texts(visited@), depth as nat),
            whole == config_lines(
                *facts,
                target_host@,
                all.skip(i as int),
                active,
                scan_view(*extracted, visited@, Ok(())),
                depth as nat,
            ),
        decreases lines.len() - i,
    {
        let ghost s = scan_view(*extracted, visited@, Ok(()));
        let ghost l = config_line(all[i as int], target_host@, opt_text(facts.home), active, s.extracted);
        let ghost next = ScanView { extracted: l.extracted, ..s };
        assert(all.skip(i as int)[0] == lines@[i as int]@);
        assert(all.skip(i as int).drop_first() == all.skip(i + 1));
        let (now_active, patterns) = apply_config_line(
            lines[i].as_str(),
            target_host,
            &facts.home,
            active,
            extracted,
        );
        assert(scan_view(*extracted, visited@, Ok(())) == next);
        proof {
            lemma_includes_proceed(*facts, target_host@, l.includes, next, depth as nat);
        }
        let r = read_includes(facts, target_host, &patterns, extracted, visited, depth);
        let ghost after = scan_view(*extracted, visited@, r);
        assert(after == config_includes(*facts, target_host@, l.includes, next, depth as nat));
        if r.is_err() {
            assert(config_lines(
                *facts,
                target_host@,
                all.skip(i + 1),
                l.active,
                after,
                depth as nat,
            ) == after);
            return r;
        }
        proof {
            lemma_still_deep(*facts, next.visited, after.visited, depth as nat);
        }
        active = now_active;
        i += 1;
    }
    Ok(())
}

fn read_includes(
    facts: &Facts,
    target_host: &str,
    patterns: &Vec<String>,
    extracted: &mut ExtractedSshConfig,
    visited: &mut Vec<String>,
    depth: usize,
) -> (r: Result<(), Question>)
    requires
        deep_enough(*facts, texts(old(visited)@), depth as nat),
    ensures
        scan_view(*final(extracted), final(visited)@, r) == config_includes(
            *facts,
            target_host@,
            texts(patterns@),
            scan_view(*old(extracted), old(visited)@, Ok(())),
            depth as nat,
        ),
    decreases depth, 2nat,
{
    let ghost all = texts(patterns@);
    let ghost whole = config_includes(
        *facts,
        target_host@,
        all,
        scan_view(*extracted, visited@, Ok(())),
        depth as nat,
    );
    let mut i: usize = 0;
    assert(all.skip(0) == all);
    while i < patterns.len()
        invariant
            i <= patterns.len(),
            all == texts(patterns@),
            whole == config_includes(
                *facts,
                target_host@,
                all,
                scan_view(*old(extracted), old(visited)@, Ok(())),
                depth as nat,
            ),
            deep_enough(*facts, texts(visited@), depth as nat),
            whole == config_includes(
                *facts,
                target_host@,
                all.skip(i as int),
                scan_view(*extracted, visited@, Ok(())),
                depth as nat,
            ),
        decreases patterns.len() - i,
    {
        let ghost s = scan_view(*extracted, visited@, Ok(()));
        assert(all.skip(i as int)[0] == patterns@[i as int]@);
        assert(all.skip(i as int).drop_first() == all.skip(i + 1));
        match facts.find_listing(patterns[i].as_str()) {
            None => {
                return Err(Question::Listing(copy(patterns[i].as_str())));
            },
            Some(paths) => {
                proof {
                    lemma_paths_proceed(*facts, target_host@, texts(paths@), s, depth as nat);
                }
                let r = read_paths(facts, target_host, paths, extracted, visited, depth);
                let ghost after = scan_view(*extracted, visited@, r);
                if r.is_err() {
                    assert(config_includes(
                        *facts,
                        target_host@,
                        all.skip(i + 1),
                        after,
                        depth as nat,
                    ) == after);
                    return r;
                }
                proof {
                    lemma_still_deep(*facts, s.visited, after.visited, depth as nat);
                }
            },
        }
        i += 1;
    }
    Ok(())
}

fn read_paths(
    facts: &Facts,
    target_host: &str,
    paths: &Vec<String>,
    extracted: &mut ExtractedSshConfig,
    visited: &mut Vec<String>,
    depth: usize,
) -> (r: Result<(), Question>)
    requires
        deep_enough(*facts, texts(old(visited)@), depth as nat),
    ensures
        scan_view(*final(extracted), final(visited)@, r) == config_paths(
            *facts,
            target_host@,
            texts(paths@),
            scan_view(*old(extracted), old(visited)@, Ok(())),
            depth as nat,
        ),
    decreases depth, 1nat,
{
    let ghost all = texts(paths@);
    let ghost whole = config_paths(
        *facts,
        target_host@,
        all,
        scan_view(*extracted, visited@, Ok(())),
        depth as nat,
    );
    let mut i: usize = 0;
    assert(all.skip(0) == all);
    while i < paths.len()
        invariant
            i <= paths.len(),
            all == texts(paths@),
            whole == config_paths(
                *facts,
                target_host@,
                all,
                scan_view(*old(extracted), old(visited)@, Ok(())),
                depth as nat,
            ),
            deep_enough(*facts, texts(visited@), depth as nat),
            whole == config_paths(
                *facts,
                target_host@,
                all.skip(i as int),
                scan_view(*extracted, visited@, Ok(())),
                depth as nat,
            ),
        decreases paths.len() - i,
    {
        let ghost s = scan_view(*extracted, visited@, Ok(()));
        assert(all.skip(i as int)[0] == paths@[i as int]@);
        assert(all.skip(i as int).drop_first() == all.skip(i + 1));
        proof {
            reading_keeps_what_is_set(*facts, target_host@, paths@[i as int]@, s, depth as nat);
        }
        let r = read_file(facts, target_host, paths[i].as_str(), extracted, visited, depth);
        let ghost after = scan_view(*extracted, visited@, r);
        if r.is_err() {
            assert(config_paths(*facts, target_host@, all.skip(i + 1), after, depth as nat)
                == after);
            return r;
        }
        proof {
            lemma_still_deep(*facts, s.visited, after.visited, depth as nat);
        }
        i += 1;
    }
    Ok(())
}

/// Reads the configuration file at `path`, and the files that it brings in, for
/// what they say of `target_host`. A file in `visited_files` is not looked at
/// again. Where something is needed that `facts` does not hold, reading ends
/// there, and the question is returned.
pub fn parse_ssh_config_file_rec(
    path: &str,
    target_host: &str,
    extracted: &mut ExtractedSshConfig,
    visited_files: &mut Vec<String>,
    facts: &Facts,
) -> (r: Result<(), Question>)
    ensures
        scan_view(*final(extracted), final(visited_files)@, r) == config_file(
            *facts,
            target_host@,
            path@,
            scan_view(*old(extracted), old(visited_files)@, Ok(())),
            facts.config_files@.len(),
        ),
{
    proof {
        lemma_unvisited_bound(*facts, texts(visited_files@), facts.config_files@.len());
    }
    read_file(facts, target_host, path, extracted, visited_files, facts.config_files.len())
}

} // verus!
