//! The connection to one host: what the command line and the configuration say
//! of it together.

use crate::facts::{Facts, Question, QuestionView};
use crate::number::{number_u16, parse_u16};
use crate::paths::{behind_tilde, join_path, path_join, strip_tilde};
use crate::scan::{config_file, parse_ssh_config_file_rec, ScanView};
use crate::ssh_config::{nothing_extracted, ExtractedSshConfig, ExtractedView};
use crate::text::{
    copy, copy_all, find_char, first_index, last_index, opt_text, rfind_char, slice, texts,
};
use vstd::prelude::*;
use vstd::string::*;

verus! {

/// How to reach a host, and as whom.
#[derive(Debug, Clone, PartialEq, Eq)]
pub struct HostConnectionConfig {
    pub host: String,
    pub hostname: String,
    pub port: u16,
    pub user: String,
    pub identity_files: Vec<String>,
}

/// The model of a `HostConnectionConfig`.
#[verifier::ext_equal]
pub struct HostView {
    pub host: Seq<char>,
    pub hostname: Seq<char>,
    pub port: u16,
    pub user: Seq<char>,
    pub identity_files: Seq<Seq<char>>,
}

impl View for HostConnectionConfig {
    type V = HostView;

    open spec fn view(&self) -> HostView {
        HostView {
            host: self.host@,
            hostname: self.hostname@,
            port: self.port,
            user: self.user@,
            identity_files: texts(self.identity_files@),
        }
    }
}

/// The parts of `[user@]host[:port]`.
pub struct DestinationView {
    pub user: Option<Seq<char>>,
    pub host: Seq<char>,
    pub port: Option<u16>,
}

/// The parts of a destination. What stands behind the last colon is a port only
/// where it is a number; a port from the command line overrides it.
pub open spec fn destination(s: Seq<char>, cli_port: Option<u16>) -> DestinationView {
    let a = first_index(s, '@');
    let user = if a < s.len() {
        Some(s.take(a))
    } else {
        None
    };
    let rest = if a < s.len() {
        s.skip(a + 1)
    } else {
        s
    };
    let c = last_index(rest, ':');
    if c >= 0 && number_u16(rest.skip(c + 1)) is Ok {
        DestinationView {
            user,
            host: rest.take(c),
            port: if cli_port is Some {
                cli_port
            } else {
                Some(number_u16(rest.skip(c + 1))->Ok_0)
            },
        }
    } else {
        DestinationView { user, host: rest, port: cli_port }
    }
}

/// Nothing read yet.
pub open spec fn scan_start() -> ScanView {
    ScanView { extracted: nothing_extracted(), visited: seq![], missing: None }
}

/// What the configuration of the user says of a host.
pub open spec fn host_settings(f: Facts, host: Seq<char>) -> Result<ExtractedView, QuestionView> {
    match opt_text(f.home) {
        None => Ok(nothing_extracted()),
        Some(home) => {
            let path = path_join(path_join(home, ".ssh"@), "config"@);
            let s = config_file(f, host, path, scan_start(), f.config_files@.len());
            match s.missing {
                Some(q) => Err(q),
                None => Ok(s.extracted),
            }
        },
    }
}

/// An identity file that the configuration names, where there is something at
/// its path. A path whose first part is `~` is also looked for in the home
/// directory.
pub open spec fn present_identity(f: Facts, p: Seq<char>) -> Result<Option<Seq<char>>, QuestionView> {
    match f.presence(p) {
        None => Err(QuestionView::Presence(p)),
        Some(true) => Ok(Some(p)),
        Some(false) => match (behind_tilde(p), f.home) {
            (Some(rest), Some(home)) => {
                let e = path_join(home@, rest);
                match f.presence(e) {
                    None => Err(QuestionView::Presence(e)),
                    Some(true) => Ok(Some(e)),
                    Some(false) => Ok(None),
                }
            },
            _ => Ok(None),
        },
    }
}

/// Those of the identity files that the configuration names that are there.
pub open spec fn present_identities(f: Facts, paths: Seq<Seq<char>>) -> Result<
    Seq<Seq<char>>,
    QuestionView,
>
    decreases paths.len(),
{
    if paths.len() == 0 {
        Ok(seq![])
    } else {
        match present_identities(f, paths.drop_last()) {
            Err(q) => Err(q),
            Ok(v) => match present_identity(f, paths.last()) {
                Err(q) => Err(q),
                Ok(Some(p)) => Ok(v.push(p)),
                Ok(None) => Ok(v),
            },
        }
    }
}

/// Those of the paths at which there is something.
pub open spec fn present_paths(f: Facts, paths: Seq<Seq<char>>) -> Result<
    Seq<Seq<char>>,
    QuestionView,
>
    decreases paths.len(),
{
    if paths.len() == 0 {
        Ok(seq![])
    } else {
        match present_paths(f, paths.drop_last()) {
            Err(q) => Err(q),
            Ok(v) => match f.presence(paths.last()) {
                None => Err(QuestionView::Presence(paths.last())),
                Some(true) => Ok(v.push(paths.last())),
                Some(false) => Ok(v),
            },
        }
    }
}

/// The identity files that are tried where none is named.
pub open spec fn default_identities(home: Seq<char>) -> Seq<Seq<char>> {
    let dir = path_join(home, ".ssh"@);
    seq![
        path_join(dir, "id_ed25519"@),
        path_join(dir, "id_rsa"@),
        path_join(dir, "id_ecdsa"@),
        path_join(dir, "id_dsa"@),
    ]
}

/// The identity files to try: those of the command line, else those of the
/// configuration that are there, else the default ones that are there.
pub open spec fn identities(f: Facts, cli: Seq<Seq<char>>, configured: Seq<Seq<char>>) -> Result<
    Seq<Seq<char>>,
    QuestionView,
> {
    if cli.len() > 0 {
        Ok(cli)
    } else {
        match present_identities(f, configured) {
            Err(q) => Err(q),
            Ok(v) => if v.len() == 0 && f.home is Some {
                present_paths(f, default_identities(f.home->0@))
            } else {
                Ok(v)
            },
        }
    }
}

/// The user to connect as: that of the destination, else that of the
/// configuration, else the one who runs the program.
pub open spec fn login_user(f: Facts, given: Option<Seq<char>>, configured: Option<Seq<char>>) -> Result<
    Seq<char>,
    QuestionView,
> {
    match given {
        Some(u) => Ok(u),
        None => match configured {
            Some(u) => Ok(u),
            None => match f.variable("USER"@) {
                None => Err(QuestionView::Variable("USER"@)),
                Some(Some(u)) => Ok(u),
                Some(None) => Ok("root"@),
            },
        },
    }
}

/// How to reach the host of a destination, and as whom.
pub open spec fn host_connection(
    f: Facts,
    spec_text: Seq<char>,
    cli_port: Option<u16>,
    cli_identities: Seq<Seq<char>>,
) -> Result<HostView, QuestionView> {
    let d = destination(spec_text, cli_port);
    match host_settings(f, d.host) {
        Err(q) => Err(q),
        Ok(x) => match login_user(f, d.user, x.user) {
            Err(q) => Err(q),
            Ok(user) => match identities(f, cli_identities, x.identity_files) {
                Err(q) => Err(q),
                Ok(identity_files) => Ok(
                    HostView {
                        host: d.host,
                        hostname: if x.hostname is Some {
                            x.hostname->0
                        } else {
                            d.host
                        },
                        port: if d.port is Some {
                            d.port->0
                        } else if x.port is Some {
                            x.port->0
                        } else {
                            22
                        },
                        user,
                        identity_files,
                    },
                ),
            },
        },
    }
}

/// Splits `[user@]host[:port]`.
pub fn split_destination(spec: &str, cli_port: Option<u16>) -> (r: (
    Option<String>,
    String,
    Option<u16>,
))
    ensures
        destination(spec@, cli_port) == (DestinationView {
            user: opt_text(r.0),
            host: r.1@,
            port: r.2,
        }),
{
    let n = spec.unicode_len();
    let (user, rest) = match find_char(spec, '@') {
        Some(a) => {
            let u = slice(spec, 0, a);
            let h = slice(spec, a + 1, n);
            assert(u@ == spec@.take(a as int));
            assert(h@ == spec@.skip(a + 1));
            (Some(u), h)
        },
        None => (None, copy(spec)),
    };
    match rfind_char(rest.as_str(), ':') {
        Some(c) => {
            let m = rest.as_str().unicode_len();
            let h = slice(rest.as_str(), 0, c);
            let t = slice(rest.as_str(), c + 1, m);
            assert(h@ == rest@.take(c as int));
            assert(t@ == rest@.skip(c + 1));
            match parse_u16(t.as_str()) {
                Ok(p) => {
                    let port = match cli_port {
                        Some(q) => Some(q),
                        None => Some(p),
                    };
                    (user, h, port)
                },
                Err(_) => (user, rest, cli_port),
            }
        },
        None => (user, rest, cli_port),
    }
}

/// The model of settings, or of the question that is open.
pub open spec fn settings_answer(r: Result<ExtractedSshConfig, Question>) -> Result<
    ExtractedView,
    QuestionView,
> {
    match r {
        Ok(x) => Ok(x@),
        Err(q) => Err(q@),
    }
}

/// Reads what the configuration of the user says of a host.
pub fn read_host_settings(facts: &Facts, host: &str) -> (r: Result<ExtractedSshConfig, Question>)
    ensures
        settings_answer(r) == host_settings(*facts, host@),
{
    let mut extracted = ExtractedSshConfig::default();
    match &facts.home {
        None => Ok(extracted),
        Some(home) => {
            let dir = join_path(home.as_str(), ".ssh");
            let path = join_path(dir.as_str(), "config");
            let mut visited: Vec<String> = Vec::new();
            assert(texts(visited@) =~= seq![]);
            match parse_ssh_config_file_rec(
                path.as_str(),
                host,
                &mut extracted,
                &mut visited,
                facts,
            ) {
                Ok(_) => Ok(extracted),
                Err(q) => Err(q),
            }
        },
    }
}

/// The model of paths, or of the question that is open.
pub open spec fn paths_answer(r: Result<Vec<String>, Question>) -> Result<
    Seq<Seq<char>>,
    QuestionView,
> {
    match r {
        Ok(v) => Ok(texts(v@)),
        Err(q) => Err(q@),
    }
}

fn find_identity(facts: &Facts, p: &str) -> (r: Result<Option<String>, Question>)
    ensures
        match r {
            Ok(o) => present_identity(*facts, p@) == Ok::<Option<Seq<char>>, QuestionView>(
                opt_text(o),
            ),
            Err(q) => present_identity(*facts, p@) == Err::<Option<Seq<char>>, QuestionView>(q@),
        },
{
    match facts.find_presence(p) {
        None => {
            return Err(Question::Presence(copy(p)));
        },
        Some(there) => {
            if there {
                return Ok(Some(copy(p)));
            }
        },
    }
    match (strip_tilde(p), &facts.home) {
        (Some(rest), Some(home)) => {
            let e = join_path(home.as_str(), rest.as_str());
            match facts.find_presence(e.as_str()) {
                None => Err(Question::Presence(e)),
                Some(there) => if there {
                    Ok(Some(e))
                } else {
                    Ok(None)
                },
            }
        },
        _ => Ok(None),
    }
}

fn find_identities(facts: &Facts, paths: &Vec<String>) -> (r: Result<Vec<String>, Question>)
    ensures
        paths_answer(r) == present_identities(*facts, texts(paths@)),
{
    let ghost all = texts(paths@);
    let mut found: Vec<String> = Vec::new();
    let mut i: usize = 0;
    assert(texts(found@) =~= seq![]);
    while i < paths.len()
        invariant
            i <= paths.len(),
            all == texts(paths@),
            present_identities(*facts, all.take(i as int)) == Ok::<Seq<Seq<char>>, QuestionView>(
                texts(found@),
            ),
        decreases paths.len() - i,
    {
        let ghost before = texts(found@);
        assert(all.take(i + 1).drop_last() == all.take(i as int));
        assert(all.take(i + 1).last() == paths@[i as int]@);
        match find_identity(facts, paths[i].as_str()) {
            Err(q) => {
                proof {
                    lemma_identities_stop(*facts, all, i + 1);
                }
                return Err(q);
            },
            Ok(Some(p)) => {
                found.push(p);
                assert(texts(found@) =~= before.push(p@));
            },
            Ok(None) => {},
        }
        i += 1;
    }
    assert(all.take(i as int) == all);
    Ok(found)
}

proof fn lemma_identities_stop(f: Facts, paths: Seq<Seq<char>>, i: int)
    requires
        0 <= i <= paths.len(),
        present_identities(f, paths.take(i)) is Err,
    ensures
        present_identities(f, paths) == present_identities(f, paths.take(i)),
    decreases paths.len() - i,
{
    if i < paths.len() {
        assert(paths.take(i + 1).drop_last() == paths.take(i));
        lemma_identities_stop(f, paths, i + 1);
    } else {
        assert(paths.take(i) == paths);
    }
}

proof fn lemma_paths_stop(f: Facts, paths: Seq<Seq<char>>, i: int)
    requires
        0 <= i <= paths.len(),
        present_paths(f, paths.take(i)) is Err,
    ensures
        present_paths(f, paths) == present_paths(f, paths.take(i)),
    decreases paths.len() - i,
{
    if i < paths.len() {
        assert(paths.take(i + 1).drop_last() == paths.take(i));
        lemma_paths_stop(f, paths, i + 1);
    } else {
        assert(paths.take(i) == paths);
    }
}

fn find_paths(facts: &Facts, paths: &Vec<String>) -> (r: Result<Vec<String>, Question>)
    ensures
        paths_answer(r) == present_paths(*facts, texts(paths@)),
{
    let ghost all = texts(paths@);
    let mut found: Vec<String> = Vec::new();
    let mut i: usize = 0;
    assert(texts(found@) =~= seq![]);
    while i < paths.len()
        invariant
            i <= paths.len(),
            all == texts(paths@),
            present_paths(*facts, all.take(i as int)) == Ok::<Seq<Seq<char>>, QuestionView>(
                texts(found@),
            ),
        decreases paths.len() - i,
    {
        let ghost before = texts(found@);
        assert(all.take(i + 1).drop_last() == all.take(i as int));
        assert(all.take(i + 1).last() == paths@[i as int]@);
        match facts.find_presence(paths[i].as_str()) {
            None => {
                proof {
                    lemma_paths_stop(*facts, all, i + 1);
                }
                return Err(Question::Presence(copy(paths[i].as_str())));
            },
            Some(there) => {
                if there {
                    let p = copy(paths[i].as_str());
                    found.push(p);
                    assert(texts(found@) =~= before.push(p@));
                }
            },
        }
        i += 1;
    }
    assert(all.take(i as int) == all);
    Ok(found)
}

fn choose_identities(facts: &Facts, cli: &Vec<String>, configured: &Vec<String>) -> (r: Result<
    Vec<String>,
    Question,
>)
    ensures
        paths_answer(r) == identities(*facts, texts(cli@), texts(configured@)),
{
    if cli.len() > 0 {
        return Ok(copy_all(cli));
    }
    let found = match find_identities(facts, configured) {
        Ok(v) => v,
        Err(q) => {
            return Err(q);
        },
    };
    if found.len() > 0 {
        return Ok(found);
    }
    match &facts.home {
        None => Ok(found),
        Some(home) => {
            let dir = join_path(home.as_str(), ".ssh");
            let mut keys: Vec<String> = Vec::new();
            keys.push(join_path(dir.as_str(), "id_ed25519"));
            keys.push(join_path(dir.as_str(), "id_rsa"));
            keys.push(join_path(dir.as_str(), "id_ecdsa"));
            keys.push(join_path(dir.as_str(), "id_dsa"));
            assert(texts(keys@) =~= default_identities(home@));
            find_paths(facts, &keys)
        },
    }
}

fn choose_user(facts: &Facts, given: Option<String>, configured: Option<String>) -> (r: Result<
    String,
    Question,
>)
    ensures
        match r {
            Ok(u) => login_user(*facts, opt_text(given), opt_text(configured)) == Ok::<
                Seq<char>,
                QuestionView,
            >(u@),
            Err(q) => login_user(*facts, opt_text(given), opt_text(configured)) == Err::<
                Seq<char>,
                QuestionView,
            >(q@),
        },
{
    if let Some(u) = given {
        return Ok(u);
    }
    if let Some(u) = configured {
        return Ok(u);
    }
    match facts.find_variable("USER") {
        None => Err(Question::Variable(copy("USER"))),
        Some(Some(u)) => Ok(copy(u.as_str())),
        Some(None) => Ok(copy("root")),
    }
}

/// The model of a connection, or of the question that is open.
pub open spec fn host_answer(r: Result<HostConnectionConfig, Question>) -> Result<
    HostView,
    QuestionView,
> {
    match r {
        Ok(c) => Ok(c@),
        Err(q) => Err(q@),
    }
}

/// Finds out how to reach the host of a destination, and as whom. Where
/// something is needed that `facts` does not hold, the question is returned.
pub fn resolve_host_config(
    spec: &str,
    cli_port: Option<u16>,
    cli_identities: &Vec<String>,
    facts: &Facts,
) -> (r: Result<HostConnectionConfig, Question>)
    ensures
        host_answer(r) == host_connection(*facts, spec@, cli_port, texts(cli_identities@)),
{
    let (given_user, host, given_port) = split_destination(spec, cli_port);
    let x = match read_host_settings(facts, host.as_str()) {
        Ok(x) => x,
        Err(q) => {
            return Err(q);
        },
    };
    let user = match choose_user(facts, given_user, x.user) {
        Ok(u) => u,
        Err(q) => {
            return Err(q);
        },
    };
    let identity_files = match choose_identities(facts, cli_identities, &x.identity_files) {
        Ok(v) => v,
        Err(q) => {
            return Err(q);
        },
    };
    let hostname = match x.hostname {
        Some(h) => h,
        None => copy(host.as_str()),
    };
    let port: u16 = match given_port {
        Some(p) => p,
        None => match x.port {
            Some(p) => p,
            None => 22,
        },
    };
    Ok(HostConnectionConfig { host, hostname, port, user, identity_files })
}

} // verus!
