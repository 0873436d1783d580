//! Reading the files of the SSH configuration: what they say together.

use crate::facts::{Facts, QuestionView};
use crate::laws::reading::lemma_keywords_differ;
use crate::paths::has_path;
use crate::scan::{config_file, config_includes, config_lines, config_paths, ScanView};
use crate::ssh_config::{config_line, host_section, include_pattern, line_parts, match_section};
use crate::text::{joined, lower_text, opt_text};
use vstd::prelude::*;
use vstd::string::*;

verus! {

/// Whether what follows a line is about the host.
pub open spec fn section_after(line: Seq<char>, host: Seq<char>, active: bool) -> bool {
    let p = line_parts(line);
    if p.len() > 0 && lower_text(p[0]) == "host"@ {
        host_section(p.drop_first(), host)
    } else if p.len() > 0 && lower_text(p[0]) == "match"@ {
        match_section(p.drop_first(), host)
    } else {
        active
    }
}

/// Whether what follows lines is about the host.
pub open spec fn section_behind(lines: Seq<Seq<char>>, host: Seq<char>, active: bool) -> bool
    decreases lines.len(),
{
    if lines.len() == 0 {
        active
    } else {
        section_behind(lines.drop_first(), host, section_after(lines[0], host, active))
    }
}

/// The arguments of the lines with a keyword that stand in sections about the host
/// and have arguments, line by line.
pub open spec fn arguments(
    lines: Seq<Seq<char>>,
    host: Seq<char>,
    active: bool,
    keyword: Seq<char>,
) -> Seq<Seq<Seq<char>>>
    decreases lines.len(),
{
    if lines.len() == 0 {
        seq![]
    } else {
        let p = line_parts(lines[0]);
        let rest = arguments(
            lines.drop_first(),
            host,
            section_after(lines[0], host, active),
            keyword,
        );
        if active && p.len() >= 2 && lower_text(p[0]) == keyword {
            seq![p.drop_first()] + rest
        } else {
            rest
        }
    }
}

/// The arguments of each line as one text, with a space between each two.
pub open spec fn as_texts(v: Seq<Seq<Seq<char>>>) -> Seq<Seq<char>> {
    v.map_values(|a: Seq<Seq<char>>| joined(a, " "@))
}

/// No line brings in files.
pub open spec fn self_contained(lines: Seq<Seq<char>>) -> bool {
    forall|i: int|
        0 <= i < lines.len() ==> line_parts(#[trigger] lines[i]).len() == 0 || lower_text(
            line_parts(lines[i])[0],
        ) != "include"@
}

/// A value that is set, else the first one of some.
pub open spec fn or_first(set: Option<Seq<char>>, v: Seq<Seq<char>>) -> Option<Seq<char>> {
    if set is None && v.len() > 0 {
        Some(v[0])
    } else {
        set
    }
}

proof fn lemma_as_texts(a: Seq<Seq<char>>, v: Seq<Seq<Seq<char>>>)
    ensures
        as_texts(seq![a] + v) == seq![joined(a, " "@)] + as_texts(v),
{
    assert(as_texts(seq![a] + v) =~= seq![joined(a, " "@)] + as_texts(v));
}

/// The lines of sections about the host that open a port each give one entry, in
/// their order, behind the entries that are there; and of the lines with a single
/// value the first one counts.
#[verifier::spinoff_prover]
#[verifier::rlimit(60)]
pub proof fn lines_are_collected_in_order(
    f: Facts,
    host: Seq<char>,
    lines: Seq<Seq<char>>,
    active: bool,
    s: ScanView,
    depth: nat,
)
    requires
        s.missing is None,
        self_contained(lines),
    ensures
        ({
            let t = config_lines(f, host, lines, active, s, depth);
            let x = s.extracted;
            let y = t.extracted;
            &&& t == (ScanView { extracted: y, ..s })
            &&& y.local_forwards == x.local_forwards + as_texts(
                arguments(lines, host, active, "localforward"@),
            )
            &&& y.remote_forwards == x.remote_forwards + as_texts(
                arguments(lines, host, active, "remoteforward"@),
            )
            &&& y.dynamic_forwards == x.dynamic_forwards + as_texts(
                arguments(lines, host, active, "dynamicforward"@),
            )
            &&& y.hostname == or_first(
                x.hostname,
                arguments(lines, host, active, "hostname"@).map_values(|a: Seq<Seq<char>>| a[0]),
            )
            &&& y.user == or_first(
                x.user,
                arguments(lines, host, active, "user"@).map_values(|a: Seq<Seq<char>>| a[0]),
            )
            &&& y.proxy_jump == or_first(
                x.proxy_jump,
                as_texts(arguments(lines, host, active, "proxyjump"@)),
            )
        }),
    decreases lines.len(),
{
    let x = s.extracted;
    if lines.len() > 0 {
        let line = lines[0];
        let p = line_parts(line);
        let args = p.drop_first();
        let rest = lines.drop_first();
        let l = config_line(line, host, opt_text(f.home), active, x);
        let next = ScanView { extracted: l.extracted, ..s };
        assert forall|i: int| 0 <= i < rest.len() implies line_parts(#[trigger] rest[i]).len() == 0
            || lower_text(line_parts(rest[i])[0]) != "include"@ by {
            assert(rest[i] == lines[i + 1]);
        }
        assert(line_parts(lines[0]).len() == 0 || lower_text(line_parts(lines[0])[0])
            != "include"@);
        assert(l.includes.len() == 0);
        assert(config_includes(f, host, l.includes, next, depth) == next);
        lemma_keywords_differ();
        assert(l.active == section_after(line, host, active));
        lines_are_collected_in_order(f, host, rest, l.active, next, depth);
        let e = joined(args, " "@);
        lemma_as_texts(args, arguments(rest, host, l.active, "localforward"@));
        lemma_as_texts(args, arguments(rest, host, l.active, "remoteforward"@));
        lemma_as_texts(args, arguments(rest, host, l.active, "dynamicforward"@));
        lemma_as_texts(args, arguments(rest, host, l.active, "proxyjump"@));
        let t = config_lines(f, host, lines, active, s, depth);
        assert(t == config_lines(f, host, rest, l.active, next, depth));
        assert(t.extracted.local_forwards =~= x.local_forwards + as_texts(
            arguments(lines, host, active, "localforward"@),
        ));
        assert(t.extracted.remote_forwards =~= x.remote_forwards + as_texts(
            arguments(lines, host, active, "remoteforward"@),
        ));
        assert(t.extracted.dynamic_forwards =~= x.dynamic_forwards + as_texts(
            arguments(lines, host, active, "dynamicforward"@),
        ));
    }
}

/// Lines are read one after the other: what stands above goes first, and the
/// section it ends in goes on.
pub proof fn lines_are_read_in_turn(
    f: Facts,
    host: Seq<char>,
    a: Seq<Seq<char>>,
    b: Seq<Seq<char>>,
    active: bool,
    s: ScanView,
    depth: nat,
)
    ensures
        config_lines(f, host, a + b, active, s, depth) == config_lines(
            f,
            host,
            b,
            section_behind(a, host, active),
            config_lines(f, host, a, active, s, depth),
            depth,
        ),
    decreases a.len(),
{
    if a.len() == 0 {
        assert(a + b =~= b);
    } else if s.missing is None {
        let l = config_line(a[0], host, opt_text(f.home), active, s.extracted);
        let next = ScanView { extracted: l.extracted, ..s };
        let t = config_includes(f, host, l.includes, next, depth);
        lemma_keywords_differ();
        assert(l.active == section_after(a[0], host, active));
        lines_are_read_in_turn(f, host, a.drop_first(), b, l.active, t, depth);
        assert((a + b)[0] == a[0]);
        assert((a + b).drop_first() =~= a.drop_first() + b);
    }
}

proof fn lemma_paths_fold(
    f: Facts,
    host: Seq<char>,
    paths: Seq<Seq<char>>,
    s: ScanView,
    depth: nat,
)
    ensures
        config_paths(f, host, paths, s, depth) == paths.fold_left_alt(
            s,
            |t: ScanView, p: Seq<char>| config_file(f, host, p, t, depth),
        ),
    decreases paths.len(),
{
    let g = |t: ScanView, p: Seq<char>| config_file(f, host, p, t, depth);
    if paths.len() > 0 {
        let t = config_file(f, host, paths[0], s, depth);
        assert(paths.drop_first() =~= paths.subrange(1, paths.len() as int));
        lemma_paths_fold(f, host, paths.drop_first(), t, depth);
        if s.missing is Some {
            assert(t == s);
            assert(config_paths(f, host, paths.drop_first(), s, depth) == s);
        }
    }
}

/// An `Include` line in a section about the host reads, at its place, the files
/// that its patterns stand for, one after the other.
pub proof fn included_files_are_read_in_turn(
    f: Facts,
    host: Seq<char>,
    line: Seq<char>,
    paths: Seq<Seq<char>>,
    s: ScanView,
    depth: nat,
)
    requires
        line_parts(line).len() == 2,
        lower_text(line_parts(line)[0]) == "include"@,
        s.missing is None,
    ensures
        ({
            let pattern = include_pattern(line_parts(line)[1], opt_text(f.home));
            let t = config_lines(f, host, seq![line], true, s, depth);
            &&& f.listing(pattern) == Some(paths) ==> t == paths.fold_left(
                s,
                |t: ScanView, p: Seq<char>| config_file(f, host, p, t, depth),
            )
            &&& f.listing(pattern) is None ==> t == (ScanView {
                missing: Some(QuestionView::Listing(pattern)),
                ..s
            })
            &&& config_lines(f, host, seq![line], false, s, depth) == s
        }),
{
    lemma_keywords_differ();
    let g = |t: ScanView, p: Seq<char>| config_file(f, host, p, t, depth);
    let home = opt_text(f.home);
    let pattern = include_pattern(line_parts(line)[1], home);
    let l = config_line(line, host, home, true, s.extracted);
    assert(l.includes =~= seq![pattern]);
    assert(seq![line].drop_first() =~= Seq::<Seq<char>>::empty());
    assert(l.includes.drop_first() =~= Seq::<Seq<char>>::empty());
    assert(ScanView { extracted: l.extracted, ..s } == s);
    let one = config_includes(f, host, l.includes, s, depth);
    assert(config_lines(f, host, seq![line].drop_first(), true, one, depth) == one);
    if f.listing(pattern) == Some(paths) {
        let t = config_paths(f, host, paths, s, depth);
        assert(config_includes(f, host, l.includes.drop_first(), t, depth) == t);
        lemma_paths_fold(f, host, paths, s, depth);
        paths.lemma_fold_left_alt(s, g);
    }
    let other = config_line(line, host, home, false, s.extracted);
    assert(other.includes.len() == 0);
    assert(ScanView { extracted: other.extracted, ..s } == s);
    assert(config_includes(f, host, other.includes, s, depth) == s);
    assert(config_lines(f, host, seq![line].drop_first(), false, s, depth) == s);
}

/// The patterns of one line are taken in their order.
pub proof fn patterns_are_taken_in_turn(
    f: Facts,
    host: Seq<char>,
    a: Seq<Seq<char>>,
    b: Seq<Seq<char>>,
    s: ScanView,
    depth: nat,
)
    ensures
        config_includes(f, host, a + b, s, depth) == config_includes(
            f,
            host,
            b,
            config_includes(f, host, a, s, depth),
            depth,
        ),
    decreases a.len(),
{
    if a.len() == 0 {
        assert(a + b =~= b);
    } else {
        assert((a + b)[0] == a[0]);
        assert((a + b).drop_first() =~= a.drop_first() + b);
        if s.missing is None && f.listing(a[0]) is Some {
            let t = config_paths(f, host, f.listing(a[0])->0, s, depth);
            patterns_are_taken_in_turn(f, host, a.drop_first(), b, t, depth);
        }
    }
}

/// A file that has not been looked at is read from its start, as if it stood in a
/// section about the host, and is looked at no more; one that has been looked at,
/// under whatever name, is passed over; and one that is not known is asked for.
pub proof fn files_are_read_once(
    f: Facts,
    host: Seq<char>,
    path: Seq<char>,
    s: ScanView,
    depth: nat,
)
    requires
        s.missing is None,
        depth > 0,
    ensures
        ({
            let t = config_file(f, host, path, s, depth);
            match f.config_file(path) {
                None => t == (ScanView { missing: Some(QuestionView::ConfigFile(path)), ..s }),
                Some(c) => {
                    &&& has_path(s.visited, c.canonical) ==> t == s
                    &&& !has_path(s.visited, c.canonical) && c.lines is None ==> t == (ScanView {
                        visited: s.visited.push(c.canonical),
                        ..s
                    })
                    &&& !has_path(s.visited, c.canonical) && c.lines is Some && self_contained(
                        c.lines->0,
                    ) ==> {
                        &&& t.visited == s.visited.push(c.canonical)
                        &&& t.missing is None
                        &&& t.extracted.local_forwards == s.extracted.local_forwards + as_texts(
                            arguments(c.lines->0, host, true, "localforward"@),
                        )
                        &&& t.extracted.remote_forwards == s.extracted.remote_forwards + as_texts(
                            arguments(c.lines->0, host, true, "remoteforward"@),
                        )
                        &&& t.extracted.dynamic_forwards == s.extracted.dynamic_forwards
                            + as_texts(arguments(c.lines->0, host, true, "dynamicforward"@))
                    }
                },
            }
        }),
{
    if let Some(c) = f.config_file(path) {
        if !has_path(s.visited, c.canonical) && c.lines is Some && self_contained(c.lines->0) {
            let opened = ScanView { visited: s.visited.push(c.canonical), ..s };
            lines_are_collected_in_order(f, host, c.lines->0, true, opened, (depth - 1) as nat);
        }
    }
}

} // verus!
