//! The connection to a host: which source decides each part of it.

use crate::facts::{lemma_place_bounds, Facts, QuestionView};
use crate::host::{
    default_identities, destination, host_connection, host_settings, identities,
    present_identities, present_paths, scan_start,
};
use crate::laws::files::{arguments, as_texts, files_are_read_once, self_contained};
use crate::laws::reading::{lemma_no_slash_first, lemma_no_slash_last};
use crate::number::number_u16;
use crate::ssh_config::{nothing_extracted, ExtractedView};
use crate::text::{lemma_first_index, opt_text};
use crate::written::{free_of, lemma_no_last, lemma_split_at_last};
use vstd::prelude::*;
use vstd::string::*;

verus! {

/// What stands before the first `@` of a destination is the user, and the rest is
/// read as if it stood alone. Without an `@` no user is named.
pub proof fn user_stands_before_the_at(u: Seq<char>, rest: Seq<char>, cli_port: Option<u16>)
    requires
        free_of(u, '@'),
        free_of(rest, '@'),
    ensures
        destination(u + "@"@ + rest, cli_port).user == Some(u),
        destination(rest, cli_port).user is None,
        destination(u + "@"@ + rest, cli_port).host == destination(rest, cli_port).host,
        destination(u + "@"@ + rest, cli_port).port == destination(rest, cli_port).port,
{
    reveal_strlit("@");
    let s = u + "@"@ + rest;
    assert(s[u.len() as int] == '@');
    assert forall|k: int| 0 <= k < u.len() implies #[trigger] s[k] != '@' by {
        assert(s[k] == u[k]);
    }
    lemma_first_index(s, '@', u.len() as int);
    assert(s.take(u.len() as int) =~= u);
    assert(s.skip(u.len() as int + 1) =~= rest);
    lemma_first_index(rest, '@', rest.len() as int);
}

/// What stands behind the last colon of a destination is its port where it is a
/// number of 16 bits, and part of the host where it is not. A port of the command
/// line counts before it.
pub proof fn port_stands_behind_the_colon(host: Seq<char>, x: Seq<char>, cli_port: Option<u16>)
    requires
        free_of(host, '@'),
        free_of(x, '@'),
        free_of(x, ':'),
    ensures
        ({
            let d = destination(host + ":"@ + x, cli_port);
            &&& number_u16(x) is Ok ==> d.host == host
            &&& number_u16(x) is Err ==> d.host == host + ":"@ + x
            &&& cli_port is Some ==> d.port == cli_port
            &&& cli_port is None ==> d.port == (match number_u16(x) {
                Ok(n) => Some(n),
                Err(_) => None,
            })
            &&& destination(x, cli_port).host == x
            &&& destination(x, cli_port).port == cli_port
        }),
{
    reveal_strlit(":");
    let s = host + ":"@ + x;
    assert(":"@ =~= seq![':']);
    assert forall|k: int| 0 <= k < s.len() implies #[trigger] s[k] != '@' by {
        if k < host.len() {
            assert(s[k] == host[k]);
        } else if k > host.len() {
            assert(s[k] == x[k - host.len() - 1]);
        }
    }
    lemma_first_index(s, '@', s.len() as int);
    lemma_first_index(x, '@', x.len() as int);
    lemma_split_at_last(host, x, ':');
    lemma_no_last(x, ':');
    assert(s.take(host.len() as int) =~= host);
    assert(s.skip(host.len() as int + 1) =~= x);
}

/// The parts of a connection come from the destination and the command line where
/// they say something, else from the configuration, else from defaults: the host
/// name is that of the destination, the port 22, and the user the one who runs the
/// program.
pub proof fn sources_have_an_order(
    f: Facts,
    spec_text: Seq<char>,
    cli_port: Option<u16>,
    cli: Seq<Seq<char>>,
)
    ensures
        host_connection(f, spec_text, cli_port, cli) matches Ok(h) ==> {
            let d = destination(spec_text, cli_port);
            &&& h.host == d.host
            &&& d.user matches Some(u) ==> h.user == u
            &&& d.port matches Some(p) ==> h.port == p
            &&& cli.len() > 0 ==> h.identity_files == cli
            &&& host_settings(f, d.host) matches Ok(x) && {
                &&& x.hostname matches Some(n) ==> h.hostname == n
                &&& x.hostname is None ==> h.hostname == h.host
                &&& d.port is None ==> (x.port matches Some(p) ==> h.port == p)
                &&& d.port is None && x.port is None ==> h.port == 22
                &&& d.user is None ==> (x.user matches Some(u) ==> h.user == u)
                &&& d.user is None && x.user is None ==> (match f.variable("USER"@) {
                    Some(Some(u)) => h.user == u,
                    Some(None) => h.user == "root"@,
                    None => false,
                })
            }
        },
{
}

proof fn lemma_present_paths(f: Facts, paths: Seq<Seq<char>>)
    ensures
        present_paths(f, paths) matches Ok(v) ==> v == paths.filter(
            |p: Seq<char>| f.presence(p) == Some(true),
        ),
    decreases paths.len(),
{
    reveal(Seq::filter);
    if paths.len() > 0 {
        lemma_present_paths(f, paths.drop_last());
    }
}

/// Where neither the command line nor the configuration gives an identity file,
/// those of the four usual files in `.ssh` that are there are tried, in this order.
pub proof fn usual_identities_are_tried(f: Facts, home: Seq<char>)
    requires
        opt_text(f.home) == Some(home),
        home.len() > 0,
        home.last() != '/',
    ensures
        identities(f, seq![], seq![]) matches Ok(v) ==> v == seq![
            home + "/"@ + ".ssh"@ + "/"@ + "id_ed25519"@,
            home + "/"@ + ".ssh"@ + "/"@ + "id_rsa"@,
            home + "/"@ + ".ssh"@ + "/"@ + "id_ecdsa"@,
            home + "/"@ + ".ssh"@ + "/"@ + "id_dsa"@,
        ].filter(|p: Seq<char>| f.presence(p) == Some(true)),
{
    reveal_strlit(".ssh");
    reveal_strlit("/");
    reveal_strlit("id_ed25519");
    reveal_strlit("id_rsa");
    reveal_strlit("id_ecdsa");
    reveal_strlit("id_dsa");
    let dir = home + "/"@ + ".ssh"@;
    lemma_no_slash_first(".ssh"@);
    lemma_no_slash_first("id_ed25519"@);
    lemma_no_slash_first("id_rsa"@);
    lemma_no_slash_first("id_ecdsa"@);
    lemma_no_slash_first("id_dsa"@);
    lemma_no_slash_last(home);
    lemma_no_slash_last(dir);
    lemma_present_paths(f, default_identities(home));
    assert(default_identities(home) =~= seq![
        home + "/"@ + ".ssh"@ + "/"@ + "id_ed25519"@,
        home + "/"@ + ".ssh"@ + "/"@ + "id_rsa"@,
        home + "/"@ + ".ssh"@ + "/"@ + "id_ecdsa"@,
        home + "/"@ + ".ssh"@ + "/"@ + "id_dsa"@,
    ]);
}

/// The identity files of the configuration are looked for one after the other, and
/// those that are there are tried in that order; the usual ones only where none of
/// them is.
pub proof fn configured_identities_are_tried(f: Facts, a: Seq<Seq<char>>, p: Seq<char>)
    ensures
        present_identities(f, a.push(p)) matches Ok(v) ==> present_identities(f, a) matches Ok(w)
            && {
            &&& f.presence(p) == Some(true) ==> v == w.push(p)
            &&& f.presence(p) is Some
            &&& f.presence(p) == Some(false) && !"~"@.is_prefix_of(p) ==> v == w
            &&& v.len() > 0 ==> identities(f, seq![], a.push(p)) == Ok::<
                Seq<Seq<char>>,
                QuestionView,
            >(v)
        },
        present_identities(f, seq![]) == Ok::<Seq<Seq<char>>, QuestionView>(seq![]),
{
    reveal_strlit("~");
    reveal_strlit("~/");
    assert(a.push(p).drop_last() =~= a);
    if !"~"@.is_prefix_of(p) {
        if p == "~"@ || "~/"@.is_prefix_of(p) {
            assert(p[0] == "~/"@[0] || p[0] == '~');
            assert("~"@ =~= p.subrange(0, 1));
        }
    }
}

/// What the configuration says of a host is what the file `.ssh/config` in the home
/// directory says of it. Without a home directory, or without such a file, it says
/// nothing.
pub proof fn settings_come_from_the_home_directory(f: Facts, home: Seq<char>, host: Seq<char>)
    requires
        home.len() > 0,
        home.last() != '/',
    ensures
        f.home is None ==> host_settings(f, host) == Ok::<_, QuestionView>(nothing_extracted()),
        opt_text(f.home) == Some(home) ==> ({
            let path = home + "/"@ + ".ssh"@ + "/"@ + "config"@;
            match f.config_file(path) {
                None => host_settings(f, host) == Err::<
                    ExtractedView,
                    QuestionView,
                >(QuestionView::ConfigFile(path)),
                Some(c) => match c.lines {
                    None => host_settings(f, host) == Ok::<_, QuestionView>(nothing_extracted()),
                    Some(lines) => self_contained(lines) ==> match host_settings(f, host) {
                        Err(_) => false,
                        Ok(x) => {
                            &&& x.local_forwards == as_texts(
                                arguments(lines, host, true, "localforward"@),
                            )
                            &&& x.remote_forwards == as_texts(
                                arguments(lines, host, true, "remoteforward"@),
                            )
                            &&& x.dynamic_forwards == as_texts(
                                arguments(lines, host, true, "dynamicforward"@),
                            )
                        },
                    },
                },
            }
        }),
{
    reveal_strlit(".ssh");
    reveal_strlit("/");
    reveal_strlit("config");
    lemma_no_slash_first(".ssh"@);
    lemma_no_slash_first("config"@);
    lemma_no_slash_last(home);
    lemma_no_slash_last(home + "/"@ + ".ssh"@);
    if opt_text(f.home) == Some(home) {
        let path = home + "/"@ + ".ssh"@ + "/"@ + "config"@;
        let start = scan_start();
        if let Some(c) = f.config_file(path) {
            lemma_place_bounds(f.config_files@, path);
            assert(f.config_files@.len() > 0);
            files_are_read_once(f, host, path, start, f.config_files@.len());
            if let Some(lines) = c.lines {
                assert(start.extracted.local_forwards + as_texts(
                    arguments(lines, host, true, "localforward"@),
                ) =~= as_texts(arguments(lines, host, true, "localforward"@)));
                assert(start.extracted.remote_forwards + as_texts(
                    arguments(lines, host, true, "remoteforward"@),
                ) =~= as_texts(arguments(lines, host, true, "remoteforward"@)));
                assert(start.extracted.dynamic_forwards + as_texts(
                    arguments(lines, host, true, "dynamicforward"@),
                ) =~= as_texts(arguments(lines, host, true, "dynamicforward"@)));
            }
        }
    }
}

} // verus!
