//! The OpenSSH client configuration: what its lines mean for one host.

use crate::number::{number_u16, parse_u16};
use crate::outside::{host_matches, wildcard};
use crate::paths::{join_path, path_join};
use crate::text::{
    copy, find_char, first_index, join, joined, lower, lower_text, opt_text, same, slice,
    split_whitespace, starts_with, strip_prefix, texts, trim, trim_matches, trimmed, unquoted,
    words,
};
use vstd::prelude::*;
use vstd::string::*;

verus! {

/// What the configuration says of one host.
#[derive(Debug, Clone)]
pub struct ExtractedSshConfig {
    pub hostname: Option<String>,
    pub user: Option<String>,
    pub port: Option<u16>,
    pub identity_files: Vec<String>,
    pub local_forwards: Vec<String>,
    pub remote_forwards: Vec<String>,
    pub dynamic_forwards: Vec<String>,
    pub tun_forward: Option<String>,
    pub proxy_jump: Option<String>,
}

/// The model of an `ExtractedSshConfig`.
#[verifier::ext_equal]
pub struct ExtractedView {
    pub hostname: Option<Seq<char>>,
    pub user: Option<Seq<char>>,
    pub port: Option<u16>,
    pub identity_files: Seq<Seq<char>>,
    pub local_forwards: Seq<Seq<char>>,
    pub remote_forwards: Seq<Seq<char>>,
    pub dynamic_forwards: Seq<Seq<char>>,
    pub tun_forward: Option<Seq<char>>,
    pub proxy_jump: Option<Seq<char>>,
}

impl View for ExtractedSshConfig {
    type V = ExtractedView;

    open spec fn view(&self) -> ExtractedView {
        ExtractedView {
            hostname: opt_text(self.hostname),
            user: opt_text(self.user),
            port: self.port,
            identity_files: texts(self.identity_files@),
            local_forwards: texts(self.local_forwards@),
            remote_forwards: texts(self.remote_forwards@),
            dynamic_forwards: texts(self.dynamic_forwards@),
            tun_forward: opt_text(self.tun_forward),
            proxy_jump: opt_text(self.proxy_jump),
        }
    }
}

/// Nothing said.
pub open spec fn nothing_extracted() -> ExtractedView {
    ExtractedView {
        hostname: None,
        user: None,
        port: None,
        identity_files: seq![],
        local_forwards: seq![],
        remote_forwards: seq![],
        dynamic_forwards: seq![],
        tun_forward: None,
        proxy_jump: None,
    }
}

impl Default for ExtractedSshConfig {
    fn default() -> (r: Self)
        ensures
            r@ == nothing_extracted(),
    {
        let r = ExtractedSshConfig {
            hostname: None,
            user: None,
            port: None,
            identity_files: Vec::new(),
            local_forwards: Vec::new(),
            remote_forwards: Vec::new(),
            dynamic_forwards: Vec::new(),
            tun_forward: None,
            proxy_jump: None,
        };
        assert(r@ =~= nothing_extracted());
        r
    }
}

/// The keyword of a line and its arguments. There are none on an empty line
/// and on a comment; `#` starts a comment anywhere, and `=` may stand behind the
/// keyword.
pub open spec fn line_parts(line: Seq<char>) -> Seq<Seq<char>> {
    let t = trimmed(line);
    if t.len() == 0 || t[0] == '#' {
        seq![]
    } else {
        let i = first_index(t, '#');
        let c = if i < t.len() {
            trimmed(t.take(i))
        } else {
            t
        };
        let e = first_index(c, '=');
        if e < c.len() {
            seq![trimmed(c.take(e))] + words(c.skip(e + 1))
        } else {
            words(c)
        }
    }
}

/// Whether the argument of a `Host` line is a negation that names `host`.
pub open spec fn pattern_rejects(pattern: Seq<char>, host: Seq<char>) -> bool {
    pattern.len() > 0 && pattern[0] == '!' && wildcard(pattern.drop_first(), host)
}

/// Whether the argument of a `Host` line names `host`.
pub open spec fn pattern_accepts(pattern: Seq<char>, host: Seq<char>) -> bool {
    !(pattern.len() > 0 && pattern[0] == '!') && wildcard(pattern, host)
}

/// Whether the section under a `Host` line is about `host`: one of its patterns
/// names the host, and none of its negations does.
pub open spec fn host_section(patterns: Seq<Seq<char>>, host: Seq<char>) -> bool {
    &&& exists|i: int| 0 <= i < patterns.len() && pattern_accepts(#[trigger] patterns[i], host)
    &&& forall|i: int| 0 <= i < patterns.len() ==> !pattern_rejects(#[trigger] patterns[i], host)
}

/// Whether the section under a `Match` line is about `host`: every `host`
/// criterion holds. Other criteria are passed over.
pub open spec fn match_section(args: Seq<Seq<char>>, host: Seq<char>) -> bool
    decreases args.len(),
{
    if args.len() == 0 {
        true
    } else if args.len() > 1 && lower_text(args[0]) == "host"@ {
        wildcard(args[1], host) && match_section(args.skip(2), host)
    } else {
        match_section(args.drop_first(), host)
    }
}

/// The path of an identity file, with `~/` taken from the home directory.
pub open spec fn identity_path(arg: Seq<char>, home: Option<Seq<char>>) -> Seq<char> {
    let p = unquoted(arg, '"');
    if "~/"@.is_prefix_of(p) && home is Some {
        path_join(home->0, p.skip(2))
    } else {
        p
    }
}

/// The pattern of an `Include` argument: `~/` is taken from the home directory,
/// and what is not absolute from the `.ssh` directory in it.
pub open spec fn include_pattern(arg: Seq<char>, home: Option<Seq<char>>) -> Seq<char> {
    let p = unquoted(arg, '"');
    if home is None {
        p
    } else if "~/"@.is_prefix_of(p) {
        path_join(home->0, p.skip(2))
    } else if !"/"@.is_prefix_of(p) {
        path_join(path_join(home->0, ".ssh"@), p)
    } else {
        p
    }
}

/// What a setting does: of the settings that hold one value the first one
/// counts, the others collect their values.
pub open spec fn with_setting(
    x: ExtractedView,
    key: Seq<char>,
    args: Seq<Seq<char>>,
    home: Option<Seq<char>>,
) -> ExtractedView {
    let all = joined(args, " "@);
    if args.len() == 0 {
        x
    } else if key == "hostname"@ {
        if x.hostname is None {
            ExtractedView { hostname: Some(args[0]), ..x }
        } else {
            x
        }
    } else if key == "user"@ {
        if x.user is None {
            ExtractedView { user: Some(args[0]), ..x }
        } else {
            x
        }
    } else if key == "port"@ {
        if x.port is None && number_u16(args[0]) is Ok {
            ExtractedView { port: Some(number_u16(args[0])->Ok_0), ..x }
        } else {
            x
        }
    } else if key == "identityfile"@ {
        ExtractedView {
            identity_files: x.identity_files + args.map_values(
                |a: Seq<char>| identity_path(a, home),
            ),
            ..x
        }
    } else if key == "localforward"@ {
        ExtractedView { local_forwards: x.local_forwards.push(all), ..x }
    } else if key == "remoteforward"@ {
        ExtractedView { remote_forwards: x.remote_forwards.push(all), ..x }
    } else if key == "dynamicforward"@ {
        ExtractedView { dynamic_forwards: x.dynamic_forwards.push(all), ..x }
    } else if key == "tunneldevice"@ || key == "tunnel"@ {
        if x.tun_forward is None {
            ExtractedView { tun_forward: Some(all), ..x }
        } else {
            x
        }
    } else if key == "proxyjump"@ {
        if x.proxy_jump is None {
            ExtractedView { proxy_jump: Some(all), ..x }
        } else {
            x
        }
    } else {
        x
    }
}

/// What a line leaves behind.
pub struct LineView {
    /// Whether the lines that follow are about the host.
    pub active: bool,
    /// What has been said of the host so far.
    pub extracted: ExtractedView,
    /// The patterns of the files to read at this place.
    pub includes: Seq<Seq<char>>,
}

/// The meaning of one line.
pub open spec fn config_line(
    line: Seq<char>,
    host: Seq<char>,
    home: Option<Seq<char>>,
    active: bool,
    x: ExtractedView,
) -> LineView {
    let parts = line_parts(line);
    let same = LineView { active, extracted: x, includes: seq![] };
    if parts.len() == 0 {
        same
    } else {
        let key = lower_text(parts[0]);
        let args = parts.drop_first();
        if key == "host"@ {
            LineView { active: host_section(args, host), ..same }
        } else if key == "match"@ {
            LineView { active: match_section(args, host), ..same }
        } else if !active {
            same
        } else if key == "include"@ {
            LineView {
                includes: args.map_values(|a: Seq<char>| include_pattern(a, home)),
                ..same
            }
        } else {
            LineView { extracted: with_setting(x, key, args, home), ..same }
        }
    }
}

/// Splits a line into its keyword and its arguments.
pub fn split_line(line: &str) -> (r: Vec<String>)
    ensures
        texts(r@) == line_parts(line@),
{
    let t = trim(line);
    let n = t.as_str().unicode_len();
    if n == 0 || t.as_str().get_char(0) == '#' {
        let r: Vec<String> = Vec::new();
        assert(texts(r@) =~= seq![]);
        return r;
    }
    let c = match find_char(t.as_str(), '#') {
        Some(i) => {
            let head = slice(t.as_str(), 0, i);
            assert(head@ == t@.take(i as int));
            trim(head.as_str())
        },
        None => t,
    };
    match find_char(c.as_str(), '=') {
        Some(e) => {
            let m = c.as_str().unicode_len();
            let head = slice(c.as_str(), 0, e);
            let tail = slice(c.as_str(), e + 1, m);
            assert(head@ == c@.take(e as int));
            assert(tail@ == c@.skip(e + 1));
            let key = trim(head.as_str());
            let mut r: Vec<String> = Vec::new();
            let mut rest = split_whitespace(tail.as_str());
            let ghost w = texts(rest@);
            r.push(key);
            let ghost k = texts(r@);
            assert(k == seq![key@]);
            r.append(&mut rest);
            assert(texts(r@) == k + w);
            r
        },
        None => split_whitespace(c.as_str()),
    }
}

/// Whether the section under a `Host` line with these patterns is about `host`.
fn in_host_section(args: &Vec<String>, host: &str) -> (r: bool)
    ensures
        r == host_section(texts(args@), host@),
{
    let ghost patterns = texts(args@);
    let mut matched = false;
    let mut i: usize = 0;
    proof {
        reveal_strlit("!");
    }
    while i < args.len()
        invariant
            i <= args.len(),
            patterns == texts(args@),
            "!"@.len() == 1,
            "!"@[0] == '!',
            matched == exists|k: int|
                0 <= k < i && pattern_accepts(#[trigger] patterns[k], host@),
            forall|k: int| 0 <= k < i ==> !pattern_rejects(#[trigger] patterns[k], host@),
        decreases args.len() - i,
    {
        let ghost p = patterns[i as int];
        assert(p == args@[i as int]@);
        match strip_prefix(args[i].as_str(), "!") {
            Some(rest) => {
                assert(p[0] == '!') by {
                    assert("!"@ == p.subrange(0, 1));
                    assert("!"@[0] == p.subrange(0, 1)[0]);
                }
                assert(rest@ == p.drop_first());
                if host_matches(rest.as_str(), host) {
                    assert(pattern_rejects(patterns[i as int], host@));
                    return false;
                }
            },
            None => {
                assert(!(p.len() > 0 && p[0] == '!')) by {
                    if p.len() > 0 && p[0] == '!' {
                        assert("!"@ =~= p.subrange(0, 1));
                    }
                }
                if host_matches(args[i].as_str(), host) {
                    assert(pattern_accepts(patterns[i as int], host@));
                    matched = true;
                }
            },
        }
        i += 1;
    }
    matched
}

/// Whether the section under a `Match` line with these criteria is about
/// `target_host`.
pub fn parse_match_directive(args: &Vec<String>, target_host: &str) -> (r: bool)
    ensures
        r == match_section(texts(args@), target_host@),
{
    let ghost criteria = texts(args@);
    let mut i: usize = 0;
    let mut matched = true;
    assert(criteria.skip(0) == criteria);
    while i < args.len()
        invariant
            i <= args.len(),
            criteria == texts(args@),
            match_section(criteria, target_host@) == (matched && match_section(
                criteria.skip(i as int),
                target_host@,
            )),
        decreases args.len() - i,
    {
        let ghost rest = criteria.skip(i as int);
        assert(rest[0] == args@[i as int]@);
        let criterion = lower(args[i].as_str());
        if same(criterion.as_str(), "host") && args.len() - i > 1 {
            assert(rest[1] == args@[i + 1]@);
            if !host_matches(args[i + 1].as_str(), target_host) {
                matched = false;
            }
            assert(rest.skip(2) == criteria.skip(i + 2));
            i += 2;
        } else {
            assert(rest.drop_first() == criteria.skip(i + 1));
            i += 1;
        }
    }
    matched
}

fn expand_identity(arg: &str, home: &Option<String>) -> (r: String)
    ensures
        r@ == identity_path(arg@, opt_text(*home)),
{
    let p = trim_matches(arg, '"');
    proof {
        reveal_strlit("~/");
    }
    match home {
        Some(h) => match strip_prefix(p.as_str(), "~/") {
            Some(rest) => join_path(h.as_str(), rest.as_str()),
            None => p,
        },
        None => p,
    }
}

fn expand_include(arg: &str, home: &Option<String>) -> (r: String)
    ensures
        r@ == include_pattern(arg@, opt_text(*home)),
{
    let p = trim_matches(arg, '"');
    proof {
        reveal_strlit("~/");
    }
    match home {
        Some(h) => match strip_prefix(p.as_str(), "~/") {
            Some(rest) => join_path(h.as_str(), rest.as_str()),
            None => if starts_with(p.as_str(), "/") {
                p
            } else {
                let dir = join_path(h.as_str(), ".ssh");
                join_path(dir.as_str(), p.as_str())
            },
        },
        None => p,
    }
}

fn push_text(v: &mut Vec<String>, s: String)
    ensures
        texts(final(v)@) == texts(old(v)@).push(s@),
{
    v.push(s);
    assert(texts(v@) =~= texts(old(v)@).push(s@));
}

/// Applies one line: what it says of the host goes to `extracted`. Returns
/// whether the lines that follow are about the host, and the patterns of the
/// files to read at this place.
pub fn apply_config_line(
    line: &str,
    target_host: &str,
    home: &Option<String>,
    active: bool,
    extracted: &mut ExtractedSshConfig,
) -> (r: (bool, Vec<String>))
    ensures
        config_line(line@, target_host@, opt_text(*home), active, old(extracted)@) == (LineView {
            active: r.0,
            extracted: final(extracted)@,
            includes: texts(r.1@),
        }),
{
    let mut args = split_line(line);
    let ghost parts = texts(args@);
    let mut includes: Vec<String> = Vec::new();
    assert(texts(includes@) =~= seq![]);
    if args.len() == 0 {
        return (active, includes);
    }
    let keyword = args.remove(0);
    assert(keyword@ == parts[0]);
    assert(texts(args@) =~= parts.drop_first());
    let key = lower(keyword.as_str());
    if same(key.as_str(), "host") {
        return (in_host_section(&args, target_host), includes);
    }
    if same(key.as_str(), "match") {
        return (parse_match_directive(&args, target_host), includes);
    }
    if !active {
        return (active, includes);
    }
    if same(key.as_str(), "include") {
        let ghost all = texts(args@);
        let ghost hv = opt_text(*home);
        let mut i: usize = 0;
        while i < args.len()
            invariant
                i <= args.len(),
                all == texts(args@),
                hv == opt_text(*home),
                texts(includes@) == all.take(i as int).map_values(
                    |a: Seq<char>| include_pattern(a, hv),
                ),
            decreases args.len() - i,
        {
            let p = expand_include(args[i].as_str(), home);
            push_text(&mut includes, p);
            assert(all.take(i + 1).map_values(|a: Seq<char>| include_pattern(a, hv))
                =~= all.take(i as int).map_values(|a: Seq<char>| include_pattern(a, hv)).push(p@));
            i += 1;
        }
        assert(all.take(i as int) == all);
        return (active, includes);
    }
    apply_setting(key.as_str(), &args, home, extracted);
    (active, includes)
}

/// Applies a setting with these arguments.
fn apply_setting(
    key: &str,
    args: &Vec<String>,
    home: &Option<String>,
    extracted: &mut ExtractedSshConfig,
)
    ensures
        final(extracted)@ == with_setting(
            old(extracted)@,
            key@,
            texts(args@),
            opt_text(*home),
        ),
{
    let ghost all_args = texts(args@);
    let ghost hv = opt_text(*home);
    if args.len() == 0 {
        return ;
    }
    assert(all_args[0] == args@[0]@);
    if same(key, "hostname") {
        if extracted.hostname.is_none() {
            extracted.hostname = Some(copy(args[0].as_str()));
        }
    } else if same(key, "user") {
        if extracted.user.is_none() {
            extracted.user = Some(copy(args[0].as_str()));
        }
    } else if same(key, "port") {
        if extracted.port.is_none() {
            if let Ok(p) = parse_u16(args[0].as_str()) {
                extracted.port = Some(p);
            }
        }
    } else if same(key, "identityfile") {
        let ghost before = extracted@;
        let mut i: usize = 0;
        assert(before.identity_files + all_args.take(0).map_values(
            |a: Seq<char>| identity_path(a, hv),
        ) =~= before.identity_files);
        while i < args.len()
            invariant
                i <= args.len(),
                all_args == texts(args@),
                hv == opt_text(*home),
                extracted@ == (ExtractedView {
                    identity_files: before.identity_files + all_args.take(i as int).map_values(
                        |a: Seq<char>| identity_path(a, hv),
                    ),
                    ..before
                }),
            decreases args.len() - i,
        {
            let p = expand_identity(args[i].as_str(), home);
            push_text(&mut extracted.identity_files, p);
            assert(texts(extracted.identity_files@) =~= before.identity_files + all_args.take(
                i + 1,
            ).map_values(|a: Seq<char>| identity_path(a, hv)));
            i += 1;
        }
        assert(all_args.take(i as int) == all_args);
    } else if same(key, "localforward") {
        let all = join(args, " ");
        push_text(&mut extracted.local_forwards, all);
    } else if same(key, "remoteforward") {
        let all = join(args, " ");
        push_text(&mut extracted.remote_forwards, all);
    } else if same(key, "dynamicforward") {
        let all = join(args, " ");
        push_text(&mut extracted.dynamic_forwards, all);
    } else if same(key, "tunneldevice") || same(key, "tunnel") {
        if extracted.tun_forward.is_none() {
            extracted.tun_forward = Some(join(args, " "));
        }
    } else if same(key, "proxyjump") {
        if extracted.proxy_jump.is_none() {
            extracted.proxy_jump = Some(join(args, " "));
        }
    }
}

/// A section that is not about the host says nothing of it and brings in no
/// file; at most a line in it begins another section.
pub proof fn other_sections_say_nothing(
    line: Seq<char>,
    host: Seq<char>,
    home: Option<Seq<char>>,
    x: ExtractedView,
)
    ensures
        config_line(line, host, home, false, x).extracted == x,
        config_line(line, host, home, false, x).includes.len() == 0,
{
}

/// A line that begins a section says nothing of the host itself, and what was
/// said before stays.
pub proof fn section_lines_say_nothing(
    line: Seq<char>,
    host: Seq<char>,
    home: Option<Seq<char>>,
    active: bool,
    x: ExtractedView,
)
    requires
        config_line(line, host, home, active, x).active != active,
    ensures
        config_line(line, host, home, active, x).extracted == x,
        config_line(line, host, home, active, x).includes.len() == 0,
{
}

/// A comment and an empty line mean nothing, in whatever section they stand.
pub proof fn comments_mean_nothing(
    line: Seq<char>,
    host: Seq<char>,
    home: Option<Seq<char>>,
    active: bool,
    x: ExtractedView,
)
    requires
        trimmed(line).len() == 0 || trimmed(line)[0] == '#',
    ensures
        config_line(line, host, home, active, x) == (LineView {
            active,
            extracted: x,
            includes: seq![],
        }),
{
}

/// The pattern `*` stands for every host.
pub proof fn star_matches_every_host(host: Seq<char>)
    ensures
        wildcard(seq!['*'], host),
    decreases host.len(),
{
    let p = seq!['*'];
    assert(p.drop_first() == Seq::<char>::empty());
    if host.len() == 0 {
        assert(wildcard(p.drop_first(), host));
    } else {
        star_matches_every_host(host.drop_first());
    }
}

/// A pattern without wildcards stands for the host of that name alone.
pub proof fn plain_pattern_matches_itself(pattern: Seq<char>, host: Seq<char>)
    requires
        forall|k: int|
            0 <= k < pattern.len() ==> #[trigger] pattern[k] != '*' && pattern[k] != '?',
    ensures
        wildcard(pattern, host) <==> pattern == host,
    decreases pattern.len(),
{
    if pattern.len() == 0 {
        assert(host.len() == 0 ==> pattern == host);
    } else {
        assert(pattern[0] != '*' && pattern[0] != '?');
        let rest = pattern.drop_first();
        assert forall|k: int| 0 <= k < rest.len() implies #[trigger] rest[k] != '*' && rest[k]
            != '?' by {
            assert(rest[k] == pattern[k + 1]);
        }
        if host.len() > 0 {
            plain_pattern_matches_itself(rest, host.drop_first());
            if pattern[0] == host[0] && rest == host.drop_first() {
                assert(pattern =~= seq![pattern[0]] + rest);
                assert(host =~= seq![host[0]] + host.drop_first());
            }
        }
    }
}

/// A negation that names the host keeps a section from being about it, whatever
/// the other patterns are.
pub proof fn negation_wins(patterns: Seq<Seq<char>>, host: Seq<char>, i: int)
    requires
        0 <= i < patterns.len(),
        pattern_rejects(patterns[i], host),
    ensures
        !host_section(patterns, host),
{
}

} // verus!
