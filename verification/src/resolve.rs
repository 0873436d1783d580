//! The whole configuration of a run: the command line and the configuration of
//! the user put together.

use crate::auto_tun::{
    auto_assignment, auto_id_is_link_local, auto_tun_id, auto_tun_ipv6, derive_auto_tun_ipv6,
    format_link_local, generate_auto_tun_id, id_bytes, link_local,
};
use crate::facts::{Facts, Question, QuestionView};
use crate::forward::{
    auto_tun_name, dynamic_forward, format_auto_tun_name, local_forward, parse_dynamic_forward,
    parse_local_forward, parse_remote_forward, parse_tun_forward, remote_forward, tun_forward,
    ConfigError, ConfigErrorView, DynamicForwardSpec, DynamicView, ForwardView, LocalForwardSpec,
    RemoteForwardSpec, TunForwardSpec, TunView,
};
use crate::host::{
    host_connection, host_settings, read_host_settings, resolve_host_config, HostConnectionConfig,
    HostView,
};
use crate::outside::sha256;
use crate::ssh_config::ExtractedView;
use crate::text::{
    copy, copy_all, lower, lower_text, opt_text, pieces, same, split_on, split_whitespace, texts,
    trim, trimmed, words,
};
use vstd::prelude::*;
use vstd::string::*;

verus! {

/// What the command line says.
#[derive(Debug, Clone)]
pub struct CliArgs {
    /// Remote host or SSH alias, optionally with user and port.
    pub destination: String,
    /// SSH server port.
    pub port: Option<u16>,
    /// Identity files.
    pub identity: Vec<String>,
    /// Local port forwardings.
    pub local_forwards: Vec<String>,
    /// Remote port forwardings.
    pub remote_forwards: Vec<String>,
    /// SOCKS5 proxies.
    pub dynamic_forwards: Vec<String>,
    /// TUN tunnel.
    pub tun_forward: Option<String>,
    /// Hosts to go through.
    pub jump_hosts: Vec<String>,
    /// IPv4 address of the local TUN device.
    pub local_tun_addr: Option<String>,
    /// IPv4 address of the remote TUN device.
    pub remote_tun_addr: Option<String>,
    /// IPv6 address of the local TUN device.
    pub local_tun_addr6: Option<String>,
    /// IPv6 address of the remote TUN device.
    pub remote_tun_addr6: Option<String>,
    /// Command to run here once the tunnels are up.
    pub local_post_up: Option<String>,
    /// Command to run there once the tunnels are up.
    pub remote_post_up: Option<String>,
    /// Whether no remote shell is started.
    pub no_shell: bool,
    /// Seconds to wait before connecting again.
    pub reconnect_interval: u64,
    /// Seconds between two checks of the link.
    pub keepalive_interval: u64,
    /// How many checks may fail in a row.
    pub keepalive_max: u32,
    /// Firewall mark of the SSH connection.
    pub fwmark: Option<u32>,
    /// How much to log.
    pub verbose: u8,
}

/// Everything that a run needs to know.
#[derive(Debug, Clone)]
pub struct ResolvedConfig {
    pub host: String,
    pub hostname: String,
    pub port: u16,
    pub user: String,
    pub identity_files: Vec<String>,
    pub jump_hosts: Vec<HostConnectionConfig>,
    pub local_forwards: Vec<LocalForwardSpec>,
    pub remote_forwards: Vec<RemoteForwardSpec>,
    pub dynamic_forwards: Vec<DynamicForwardSpec>,
    pub tun_forward: Option<TunForwardSpec>,
    pub local_tun_addr: Option<String>,
    pub remote_tun_addr: Option<String>,
    pub local_tun_addr6: Option<String>,
    pub remote_tun_addr6: Option<String>,
    pub local_post_up: Option<String>,
    pub remote_post_up: Option<String>,
    pub reconnect_interval: u64,
    pub keepalive_interval: u64,
    pub keepalive_max: u32,
    pub fwmark: Option<u32>,
}

/// The addresses of the two ends of a TUN tunnel.
pub struct TunAddrsView {
    pub local: Option<Seq<char>>,
    pub remote: Option<Seq<char>>,
    pub local6: Option<Seq<char>>,
    pub remote6: Option<Seq<char>>,
}

/// The model of a `ResolvedConfig`.
#[verifier::ext_equal]
pub struct ResolvedView {
    pub target: HostView,
    pub jump_hosts: Seq<HostView>,
    pub local_forwards: Seq<ForwardView>,
    pub remote_forwards: Seq<ForwardView>,
    pub dynamic_forwards: Seq<DynamicView>,
    pub tun_forward: Option<TunView>,
    pub tun_addrs: TunAddrsView,
    pub local_post_up: Option<Seq<char>>,
    pub remote_post_up: Option<Seq<char>>,
    pub reconnect_interval: u64,
    pub keepalive_interval: u64,
    pub keepalive_max: u32,
    pub fwmark: Option<u32>,
}

/// The model of an optional tunnel.
pub open spec fn opt_tun(o: Option<TunForwardSpec>) -> Option<TunView> {
    match o {
        Some(t) => Some(t@),
        None => None,
    }
}

/// The views of hosts.
pub open spec fn hosts(v: Seq<HostConnectionConfig>) -> Seq<HostView> {
    v.map_values(|h: HostConnectionConfig| h@)
}

/// The views of local forwardings.
pub open spec fn locals(v: Seq<LocalForwardSpec>) -> Seq<ForwardView> {
    v.map_values(|s: LocalForwardSpec| s@)
}

/// The views of remote forwardings.
pub open spec fn remotes(v: Seq<RemoteForwardSpec>) -> Seq<ForwardView> {
    v.map_values(|s: RemoteForwardSpec| s@)
}

/// The views of SOCKS5 proxies.
pub open spec fn dynamics(v: Seq<DynamicForwardSpec>) -> Seq<DynamicView> {
    v.map_values(|s: DynamicForwardSpec| s@)
}

impl View for ResolvedConfig {
    type V = ResolvedView;

    open spec fn view(&self) -> ResolvedView {
        ResolvedView {
            target: HostView {
                host: self.host@,
                hostname: self.hostname@,
                port: self.port,
                user: self.user@,
                identity_files: texts(self.identity_files@),
            },
            jump_hosts: hosts(self.jump_hosts@),
            local_forwards: locals(self.local_forwards@),
            remote_forwards: remotes(self.remote_forwards@),
            dynamic_forwards: dynamics(self.dynamic_forwards@),
            tun_forward: opt_tun(self.tun_forward),
            tun_addrs: TunAddrsView {
                local: opt_text(self.local_tun_addr),
                remote: opt_text(self.remote_tun_addr),
                local6: opt_text(self.local_tun_addr6),
                remote6: opt_text(self.remote_tun_addr6),
            },
            local_post_up: opt_text(self.local_post_up),
            remote_post_up: opt_text(self.remote_post_up),
            reconnect_interval: self.reconnect_interval,
            keepalive_interval: self.keepalive_interval,
            keepalive_max: self.keepalive_max,
            fwmark: self.fwmark,
        }
    }
}

/// Why there is no configuration.
#[derive(Debug, Clone, PartialEq, Eq)]
pub enum ResolveError {
    /// Something must be looked up first.
    Unanswered(Question),
    /// A text is refused.
    Refused(ConfigError),
}

/// The model of a `ResolveError`.
pub enum ResolveErrorView {
    Unanswered(QuestionView),
    Refused(ConfigErrorView),
}

impl View for ResolveError {
    type V = ResolveErrorView;

    open spec fn view(&self) -> ResolveErrorView {
        match self {
            ResolveError::Unanswered(q) => ResolveErrorView::Unanswered(q@),
            ResolveError::Refused(e) => ResolveErrorView::Refused(e@),
        }
    }
}

/// The items without the white space around them, but for those that are empty
/// then.
pub open spec fn nonempty_items(v: Seq<Seq<char>>) -> Seq<Seq<char>>
    decreases v.len(),
{
    if v.len() == 0 {
        seq![]
    } else {
        let head = nonempty_items(v.drop_last());
        let t = trimmed(v.last());
        if t.len() > 0 {
            head.push(t)
        } else {
            head
        }
    }
}

/// The hosts of the command line: each option is a list with commas.
pub open spec fn cli_jumps(options: Seq<Seq<char>>) -> Seq<Seq<char>>
    decreases options.len(),
{
    if options.len() == 0 {
        seq![]
    } else {
        cli_jumps(options.drop_last()) + nonempty_items(pieces(options.last(), ','))
    }
}

/// The words but for `none`.
pub open spec fn named_words(v: Seq<Seq<char>>) -> Seq<Seq<char>>
    decreases v.len(),
{
    if v.len() == 0 {
        seq![]
    } else {
        let head = named_words(v.drop_last());
        if lower_text(v.last()) != "none"@ {
            head.push(v.last())
        } else {
            head
        }
    }
}

/// The words of the items but for `none`.
pub open spec fn item_words(items: Seq<Seq<char>>) -> Seq<Seq<char>>
    decreases items.len(),
{
    if items.len() == 0 {
        seq![]
    } else {
        item_words(items.drop_last()) + named_words(words(items.last()))
    }
}

/// The hosts to go through: those of the command line, else those of the
/// configuration.
pub open spec fn jump_specs(options: Seq<Seq<char>>, proxy_jump: Option<Seq<char>>) -> Seq<
    Seq<char>,
> {
    if options.len() > 0 {
        cli_jumps(options)
    } else {
        match proxy_jump {
            None => seq![],
            Some(p) => if lower_text(trimmed(p)) == "none"@ {
                seq![]
            } else {
                item_words(pieces(p, ','))
            },
        }
    }
}

/// The connections to the hosts to go through, in order.
pub open spec fn jump_connections(f: Facts, specs: Seq<Seq<char>>, identities: Seq<Seq<char>>) -> Result<
    Seq<HostView>,
    QuestionView,
>
    decreases specs.len(),
{
    if specs.len() == 0 {
        Ok(seq![])
    } else {
        match jump_connections(f, specs.drop_last(), identities) {
            Err(q) => Err(q),
            Ok(v) => match host_connection(f, specs.last(), None, identities) {
                Err(q) => Err(q),
                Ok(h) => Ok(v.push(h)),
            },
        }
    }
}

/// Every one of the texts read with a parser, in order.
pub open spec fn all_parsed<V>(
    specs: Seq<Seq<char>>,
    parser: spec_fn(Seq<char>) -> Result<V, ConfigErrorView>,
) -> Result<Seq<V>, ConfigErrorView>
    decreases specs.len(),
{
    if specs.len() == 0 {
        Ok(seq![])
    } else {
        match all_parsed(specs.drop_last(), parser) {
            Err(e) => Err(e),
            Ok(v) => match parser(specs.last()) {
                Err(e) => Err(e),
                Ok(x) => Ok(v.push(x)),
            },
        }
    }
}

/// The TUN tunnel that is asked for: the one of the command line, else the one of
/// the configuration.
pub open spec fn chosen_tun(cli: Option<Seq<char>>, configured: Option<Seq<char>>) -> Result<
    Option<TunView>,
    ConfigErrorView,
> {
    let text = if cli is Some {
        cli
    } else {
        configured
    };
    match text {
        None => Ok(None),
        Some(s) => match tun_forward(s) {
            Err(e) => Err(e),
            Ok(t) => Ok(Some(t)),
        },
    }
}

/// An address that is given, or else a default.
pub open spec fn or_default(given: Option<Seq<char>>, default: Seq<char>) -> Option<Seq<char>> {
    if given is Some {
        given
    } else {
        Some(default)
    }
}

/// The addresses of a tunnel with an identifier: those that are given, and for
/// the others those that belong to the identifier.
pub open spec fn id_addrs(
    given: TunAddrsView,
    id: u16,
    local: Seq<char>,
    remote: Seq<char>,
) -> TunAddrsView {
    TunAddrsView {
        local: or_default(given.local, local),
        remote: or_default(given.remote, remote),
        local6: or_default(given.local6, auto_tun_ipv6(id).0),
        remote6: or_default(given.remote6, auto_tun_ipv6(id).1),
    }
}

/// The tunnel with its devices and addresses. A device `auto` gives the tunnel
/// an identifier of its own.
pub open spec fn assigned_tun(
    f: Facts,
    host: Seq<char>,
    port: u16,
    tun: Option<TunView>,
    given: TunAddrsView,
) -> Result<(Option<TunView>, TunAddrsView), QuestionView> {
    match tun {
        None => Ok((None, given)),
        Some(t) => if t.local_tun == "auto"@ || t.remote_tun == "auto"@ {
            match auto_tun_id(f, host, port) {
                Err(q) => Err(q),
                Ok((id, local, remote)) => Ok(
                    (
                        Some(
                            TunView {
                                local_tun: auto_tun_name(id),
                                remote_tun: auto_tun_name(id),
                                auto_id: Some(id),
                            },
                        ),
                        id_addrs(given, id, local, remote),
                    ),
                ),
            }
        } else {
            match t.auto_id {
                None => Ok((tun, given)),
                Some(id) => Ok(
                    (
                        tun,
                        id_addrs(given, id, link_local(id as nat), link_local(id as nat + 1)),
                    ),
                ),
            }
        },
    }
}

/// The largest identifier has no successor that could be the address of the
/// remote end; with it, that address must be given.
pub open spec fn partner_fits(tun: Option<TunView>, remote_addr: Option<Seq<char>>) -> bool {
    match tun {
        Some(t) => t.auto_id == Some(0xffffu16) ==> remote_addr is Some,
        None => true,
    }
}

/// The addresses that the command line gives.
pub open spec fn given_addrs(args: CliArgs) -> TunAddrsView {
    TunAddrsView {
        local: opt_text(args.local_tun_addr),
        remote: opt_text(args.remote_tun_addr),
        local6: opt_text(args.local_tun_addr6),
        remote6: opt_text(args.remote_tun_addr6),
    }
}

/// The forwardings of a run. Those of the configuration come first.
pub struct ForwardsView {
    pub locals: Seq<ForwardView>,
    pub remotes: Seq<ForwardView>,
    pub dynamics: Seq<DynamicView>,
    pub tun: Option<TunView>,
}

/// The forwardings of the configuration, and then those of the command line. The
/// first text that is refused decides: local ones come before remote ones, those
/// before proxies, and the tunnel comes last.
pub open spec fn all_forwards(args: CliArgs, x: ExtractedView) -> Result<
    ForwardsView,
    ConfigErrorView,
> {
    match all_parsed(
        x.local_forwards + texts(args.local_forwards@),
        |s: Seq<char>| local_forward(s),
    ) {
        Err(e) => Err(e),
        Ok(l) => match all_parsed(
            x.remote_forwards + texts(args.remote_forwards@),
            |s: Seq<char>| remote_forward(s),
        ) {
            Err(e) => Err(e),
            Ok(r) => match all_parsed(
                x.dynamic_forwards + texts(args.dynamic_forwards@),
                |s: Seq<char>| dynamic_forward(s),
            ) {
                Err(e) => Err(e),
                Ok(d) => match chosen_tun(opt_text(args.tun_forward), x.tun_forward) {
                    Err(e) => Err(e),
                    Ok(tun) => Ok(ForwardsView { locals: l, remotes: r, dynamics: d, tun }),
                },
            },
        },
    }
}

/// Everything that a run needs to know.
pub open spec fn resolved(f: Facts, args: CliArgs) -> Result<ResolvedView, ResolveErrorView> {
    let ids = texts(args.identity@);
    match host_connection(f, args.destination@, args.port, ids) {
        Err(q) => Err(ResolveErrorView::Unanswered(q)),
        Ok(target) => match host_settings(f, target.host) {
            Err(q) => Err(ResolveErrorView::Unanswered(q)),
            Ok(x) => match jump_connections(
                f,
                jump_specs(texts(args.jump_hosts@), x.proxy_jump),
                ids,
            ) {
                Err(q) => Err(ResolveErrorView::Unanswered(q)),
                Ok(jumps) => match all_forwards(args, x) {
                    Err(e) => Err(ResolveErrorView::Refused(e)),
                    Ok(w) => match assigned_tun(
                        f,
                        target.host,
                        target.port,
                        w.tun,
                        given_addrs(args),
                    ) {
                        Err(q) => Err(ResolveErrorView::Unanswered(q)),
                        Ok((tun, addrs)) => Ok(
                            ResolvedView {
                                target,
                                jump_hosts: jumps,
                                local_forwards: w.locals,
                                remote_forwards: w.remotes,
                                dynamic_forwards: w.dynamics,
                                tun_forward: tun,
                                tun_addrs: addrs,
                                local_post_up: opt_text(args.local_post_up),
                                remote_post_up: opt_text(args.remote_post_up),
                                reconnect_interval: args.reconnect_interval,
                                keepalive_interval: args.keepalive_interval,
                                keepalive_max: args.keepalive_max,
                                fwmark: args.fwmark,
                            },
                        ),
                    },
                },
            },
        },
    }
}

/// Whether the digest that the IPv6 addresses of a tunnel come from, where the
/// tunnel has an identifier, is as long as digests are.
pub open spec fn tun_digest_is_whole(tun: Option<TunView>) -> bool {
    tun matches Some(t) ==> t.auto_id matches Some(id) ==> sha256(id_bytes(id)).len() == 32
}

/// Whether every address of the configuration exists, where there is one.
pub open spec fn addressable(f: Facts, args: CliArgs) -> bool {
    resolved(f, args) matches Ok(c) ==> partner_fits(
        c.tun_forward,
        opt_text(args.remote_tun_addr),
    )
}

fn keep_items(v: &Vec<String>) -> (r: Vec<String>)
    ensures
        texts(r@) == nonempty_items(texts(v@)),
{
    let ghost all = texts(v@);
    let mut r: Vec<String> = Vec::new();
    let mut i: usize = 0;
    assert(texts(r@) =~= seq![]);
    while i < v.len()
        invariant
            i <= v.len(),
            all == texts(v@),
            texts(r@) == nonempty_items(all.take(i as int)),
        decreases v.len() - i,
    {
        let ghost before = texts(r@);
        assert(all.take(i + 1).drop_last() == all.take(i as int));
        assert(all.take(i + 1).last() == v@[i as int]@);
        let t = trim(v[i].as_str());
        if t.as_str().unicode_len() > 0 {
            r.push(t);
            assert(texts(r@) =~= before.push(t@));
        }
        i += 1;
    }
    assert(all.take(i as int) == all);
    r
}

fn keep_named(v: &Vec<String>) -> (r: Vec<String>)
    ensures
        texts(r@) == named_words(texts(v@)),
{
    let ghost all = texts(v@);
    let mut r: Vec<String> = Vec::new();
    let mut i: usize = 0;
    assert(texts(r@) =~= seq![]);
    while i < v.len()
        invariant
            i <= v.len(),
            all == texts(v@),
            texts(r@) == named_words(all.take(i as int)),
        decreases v.len() - i,
    {
        let ghost before = texts(r@);
        assert(all.take(i + 1).drop_last() == all.take(i as int));
        assert(all.take(i + 1).last() == v@[i as int]@);
        let low = lower(v[i].as_str());
        if !same(low.as_str(), "none") {
            let t = copy(v[i].as_str());
            r.push(t);
            assert(texts(r@) =~= before.push(t@));
        }
        i += 1;
    }
    assert(all.take(i as int) == all);
    r
}

fn append_texts(r: &mut Vec<String>, more: Vec<String>)
    ensures
        texts(final(r)@) == texts(old(r)@) + texts(more@),
{
    let mut rest = more;
    r.append(&mut rest);
    assert(texts(r@) =~= texts(old(r)@) + texts(more@));
}

/// The hosts to go through.
pub fn list_jumps(options: &Vec<String>, proxy_jump: &Option<String>) -> (r: Vec<String>)
    ensures
        texts(r@) == jump_specs(texts(options@), opt_text(*proxy_jump)),
{
    let mut r: Vec<String> = Vec::new();
    assert(texts(r@) =~= seq![]);
    let mut i: usize = 0;
    if options.len() > 0 {
        let ghost all = texts(options@);
        while i < options.len()
            invariant
                i <= options.len(),
                all == texts(options@),
                texts(r@) == cli_jumps(all.take(i as int)),
            decreases options.len() - i,
        {
            assert(all.take(i + 1).drop_last() == all.take(i as int));
            assert(all.take(i + 1).last() == options@[i as int]@);
            let items = split_on(options[i].as_str(), ',');
            append_texts(&mut r, keep_items(&items));
            i += 1;
        }
        assert(all.take(i as int) == all);
        return r;
    }
    match proxy_jump {
        None => r,
        Some(p) => {
            let low = lower(trim(p.as_str()).as_str());
            if same(low.as_str(), "none") {
                return r;
            }
            let items = split_on(p.as_str(), ',');
            let ghost all = texts(items@);
            while i < items.len()
                invariant
                    i <= items.len(),
                    all == texts(items@),
                    texts(r@) == item_words(all.take(i as int)),
                decreases items.len() - i,
            {
                assert(all.take(i + 1).drop_last() == all.take(i as int));
                assert(all.take(i + 1).last() == items@[i as int]@);
                let tokens = split_whitespace(items[i].as_str());
                append_texts(&mut r, keep_named(&tokens));
                i += 1;
            }
            assert(all.take(i as int) == all);
            r
        },
    }
}

proof fn lemma_jumps_stop(f: Facts, specs: Seq<Seq<char>>, ids: Seq<Seq<char>>, i: int)
    requires
        0 <= i <= specs.len(),
        jump_connections(f, specs.take(i), ids) is Err,
    ensures
        jump_connections(f, specs, ids) == jump_connections(f, specs.take(i), ids),
    decreases specs.len() - i,
{
    if i < specs.len() {
        assert(specs.take(i + 1).drop_last() == specs.take(i));
        lemma_jumps_stop(f, specs, ids, i + 1);
    } else {
        assert(specs.take(i) == specs);
    }
}

fn connect_jumps(facts: &Facts, specs: &Vec<String>, ids: &Vec<String>) -> (r: Result<
    Vec<HostConnectionConfig>,
    Question,
>)
    ensures
        match r {
            Ok(v) => jump_connections(*facts, texts(specs@), texts(ids@)) == Ok::<
                Seq<HostView>,
                QuestionView,
            >(hosts(v@)),
            Err(q) => jump_connections(*facts, texts(specs@), texts(ids@)) == Err::<
                Seq<HostView>,
                QuestionView,
            >(q@),
        },
{
    let ghost all = texts(specs@);
    let mut v: Vec<HostConnectionConfig> = Vec::new();
    let mut i: usize = 0;
    assert(hosts(v@) =~= seq![]);
    while i < specs.len()
        invariant
            i <= specs.len(),
            all == texts(specs@),
            jump_connections(*facts, all.take(i as int), texts(ids@)) == Ok::<
                Seq<HostView>,
                QuestionView,
            >(hosts(v@)),
        decreases specs.len() - i,
    {
        let ghost before = hosts(v@);
        assert(all.take(i + 1).drop_last() == all.take(i as int));
        assert(all.take(i + 1).last() == specs@[i as int]@);
        match resolve_host_config(specs[i].as_str(), None, ids, facts) {
            Ok(h) => {
                v.push(h);
                assert(hosts(v@) =~= before.push(h@));
            },
            Err(q) => {
                proof {
                    lemma_jumps_stop(*facts, all, texts(ids@), i + 1);
                }
                return Err(q);
            },
        }
        i += 1;
    }
    assert(all.take(i as int) == all);
    Ok(v)
}

proof fn lemma_parsed_stop<V>(
    specs: Seq<Seq<char>>,
    parser: spec_fn(Seq<char>) -> Result<V, ConfigErrorView>,
    i: int,
)
    requires
        0 <= i <= specs.len(),
        all_parsed(specs.take(i), parser) is Err,
    ensures
        all_parsed(specs, parser) == all_parsed(specs.take(i), parser),
    decreases specs.len() - i,
{
    if i < specs.len() {
        assert(specs.take(i + 1).drop_last() == specs.take(i));
        lemma_parsed_stop(specs, parser, i + 1);
    } else {
        assert(specs.take(i) == specs);
    }
}

/// Reads every one of the texts as a local forwarding, in order.
fn parse_locals(specs: &Vec<String>) -> (r: Result<Vec<LocalForwardSpec>, ConfigError>)
    ensures
        match r {
            Ok(v) => all_parsed(texts(specs@), |s: Seq<char>| local_forward(s)) == Ok::<
                _,
                ConfigErrorView,
            >(locals(v@)),
            Err(e) => all_parsed(texts(specs@), |s: Seq<char>| local_forward(s)) == Err::<
                Seq<ForwardView>,
                ConfigErrorView,
            >(e@),
        },
{
    let ghost all = texts(specs@);
    let mut v: Vec<LocalForwardSpec> = Vec::new();
    let mut i: usize = 0;
    assert(locals(v@) =~= seq![]);
    while i < specs.len()
        invariant
            i <= specs.len(),
            all == texts(specs@),
            all_parsed(all.take(i as int), |s: Seq<char>| local_forward(s)) == Ok::<
                _,
                ConfigErrorView,
            >(locals(v@)),
        decreases specs.len() - i,
    {
        let ghost before = locals(v@);
        assert(all.take(i + 1).drop_last() == all.take(i as int));
        assert(all.take(i + 1).last() == specs@[i as int]@);
        match parse_local_forward(specs[i].as_str()) {
            Ok(x) => {
                v.push(x);
                assert(locals(v@) =~= before.push(x@));
            },
            Err(e) => {
                proof {
                    lemma_parsed_stop(all, |s: Seq<char>| local_forward(s), i + 1);
                }
                return Err(e);
            },
        }
        i += 1;
    }
    assert(all.take(i as int) == all);
    Ok(v)
}

/// Reads every one of the texts as a remote forwarding, in order.
fn parse_remotes(specs: &Vec<String>) -> (r: Result<Vec<RemoteForwardSpec>, ConfigError>)
    ensures
        match r {
            Ok(v) => all_parsed(texts(specs@), |s: Seq<char>| remote_forward(s)) == Ok::<
                _,
                ConfigErrorView,
            >(remotes(v@)),
            Err(e) => all_parsed(texts(specs@), |s: Seq<char>| remote_forward(s)) == Err::<
                Seq<ForwardView>,
                ConfigErrorView,
            >(e@),
        },
{
    let ghost all = texts(specs@);
    let mut v: Vec<RemoteForwardSpec> = Vec::new();
    let mut i: usize = 0;
    assert(remotes(v@) =~= seq![]);
    while i < specs.len()
        invariant
            i <= specs.len(),
            all == texts(specs@),
            all_parsed(all.take(i as int), |s: Seq<char>| remote_forward(s)) == Ok::<
                _,
                ConfigErrorView,
            >(remotes(v@)),
        decreases specs.len() - i,
    {
        let ghost before = remotes(v@);
        assert(all.take(i + 1).drop_last() == all.take(i as int));
        assert(all.take(i + 1).last() == specs@[i as int]@);
        match parse_remote_forward(specs[i].as_str()) {
            Ok(x) => {
                v.push(x);
                assert(remotes(v@) =~= before.push(x@));
            },
            Err(e) => {
                proof {
                    lemma_parsed_stop(all, |s: Seq<char>| remote_forward(s), i + 1);
                }
                return Err(e);
            },
        }
        i += 1;
    }
    assert(all.take(i as int) == all);
    Ok(v)
}

/// Reads every one of the texts as a SOCKS5 proxy, in order.
fn parse_dynamics(specs: &Vec<String>) -> (r: Result<Vec<DynamicForwardSpec>, ConfigError>)
    ensures
        match r {
            Ok(v) => all_parsed(texts(specs@), |s: Seq<char>| dynamic_forward(s)) == Ok::<
                _,
                ConfigErrorView,
            >(dynamics(v@)),
            Err(e) => all_parsed(texts(specs@), |s: Seq<char>| dynamic_forward(s)) == Err::<
                Seq<DynamicView>,
                ConfigErrorView,
            >(e@),
        },
{
    let ghost all = texts(specs@);
    let mut v: Vec<DynamicForwardSpec> = Vec::new();
    let mut i: usize = 0;
    assert(dynamics(v@) =~= seq![]);
    while i < specs.len()
        invariant
            i <= specs.len(),
            all == texts(specs@),
            all_parsed(all.take(i as int), |s: Seq<char>| dynamic_forward(s)) == Ok::<
                _,
                ConfigErrorView,
            >(dynamics(v@)),
        decreases specs.len() - i,
    {
        let ghost before = dynamics(v@);
        assert(all.take(i + 1).drop_last() == all.take(i as int));
        assert(all.take(i + 1).last() == specs@[i as int]@);
        match parse_dynamic_forward(specs[i].as_str()) {
            Ok(x) => {
                v.push(x);
                assert(dynamics(v@) =~= before.push(x@));
            },
            Err(e) => {
                proof {
                    lemma_parsed_stop(all, |s: Seq<char>| dynamic_forward(s), i + 1);
                }
                return Err(e);
            },
        }
        i += 1;
    }
    assert(all.take(i as int) == all);
    Ok(v)
}

fn choose_tun(cli: &Option<String>, configured: &Option<String>) -> (r: Result<
    Option<TunForwardSpec>,
    ConfigError,
>)
    ensures
        match r {
            Ok(t) => chosen_tun(opt_text(*cli), opt_text(*configured)) == Ok::<
                Option<TunView>,
                ConfigErrorView,
            >(opt_tun(t)),
            Err(e) => chosen_tun(opt_text(*cli), opt_text(*configured)) == Err::<
                Option<TunView>,
                ConfigErrorView,
            >(e@),
        },
{
    let text = match cli {
        Some(s) => s,
        None => match configured {
            Some(s) => s,
            None => {
                return Ok(None);
            },
        },
    };
    match parse_tun_forward(text.as_str()) {
        Ok(t) => Ok(Some(t)),
        Err(e) => Err(e),
    }
}

/// The addresses of the two ends of a TUN tunnel.
struct TunAddrs {
    local: Option<String>,
    remote: Option<String>,
    local6: Option<String>,
    remote6: Option<String>,
}

impl TunAddrs {
    spec fn model(&self) -> TunAddrsView {
        TunAddrsView {
            local: opt_text(self.local),
            remote: opt_text(self.remote),
            local6: opt_text(self.local6),
            remote6: opt_text(self.remote6),
        }
    }
}

fn fill(given: Option<String>, default: String) -> (r: Option<String>)
    ensures
        opt_text(r) == or_default(opt_text(given), default@),
{
    match given {
        Some(s) => Some(s),
        None => Some(default),
    }
}

fn fill_addrs(given: TunAddrs, id: u16, local: String, remote: String) -> (r: TunAddrs)
    ensures
        r.model() == id_addrs(given.model(), id, local@, remote@),
        sha256(id_bytes(id)).len() == 32,
{
    let (local6, remote6) = derive_auto_tun_ipv6(id);
    TunAddrs {
        local: fill(given.local, local),
        remote: fill(given.remote, remote),
        local6: fill(given.local6, local6),
        remote6: fill(given.remote6, remote6),
    }
}

fn assign_tun(
    facts: &Facts,
    host: &str,
    port: u16,
    tun: Option<TunForwardSpec>,
    given: TunAddrs,
) -> (r: Result<(Option<TunForwardSpec>, TunAddrs), Question>)
    requires
        partner_fits(opt_tun(tun), given.model().remote),
    ensures
        match r {
            Ok((t, a)) => assigned_tun(*facts, host@, port, opt_tun(tun), given.model()) == Ok::<
                (Option<TunView>, TunAddrsView),
                QuestionView,
            >((opt_tun(t), a.model())),
            Err(q) => assigned_tun(*facts, host@, port, opt_tun(tun), given.model()) == Err::<
                (Option<TunView>, TunAddrsView),
                QuestionView,
            >(q@),
        },
        r matches Ok((t, _)) ==> tun_digest_is_whole(opt_tun(t)),
{
    match tun {
        None => Ok((None, given)),
        Some(t) => {
            if same(t.local_tun.as_str(), "auto") || same(t.remote_tun.as_str(), "auto") {
                match generate_auto_tun_id(host, port, facts) {
                    Err(q) => Err(q),
                    Ok((id, local, remote)) => Ok(
                        (
                            Some(
                                TunForwardSpec {
                                    local_tun: format_auto_tun_name(id),
                                    remote_tun: format_auto_tun_name(id),
                                    auto_id: Some(id),
                                },
                            ),
                            fill_addrs(given, id, local, remote),
                        ),
                    ),
                }
            } else {
                match t.auto_id {
                    None => Ok((Some(t), given)),
                    Some(id) => {
                        let local = format_link_local(id);
                        let remote = if given.remote.is_none() {
                            format_link_local(id + 1)
                        } else {
                            String::new()
                        };
                        Ok((Some(t), fill_addrs(given, id, local, remote)))
                    },
                }
            }
        },
    }
}

/// A configuration whose tunnel has no addresses of its own yet.
struct Prepared {
    target: HostConnectionConfig,
    jump_hosts: Vec<HostConnectionConfig>,
    local_forwards: Vec<LocalForwardSpec>,
    remote_forwards: Vec<RemoteForwardSpec>,
    dynamic_forwards: Vec<DynamicForwardSpec>,
    tun: Option<TunForwardSpec>,
}

/// Everything of a configuration but for the addresses of its tunnel.
spec fn prepared(f: Facts, args: CliArgs) -> Result<
    (HostView, Seq<HostView>, ForwardsView),
    ResolveErrorView,
> {
    let ids = texts(args.identity@);
    match host_connection(f, args.destination@, args.port, ids) {
        Err(q) => Err(ResolveErrorView::Unanswered(q)),
        Ok(target) => match host_settings(f, target.host) {
            Err(q) => Err(ResolveErrorView::Unanswered(q)),
            Ok(x) => match jump_connections(
                f,
                jump_specs(texts(args.jump_hosts@), x.proxy_jump),
                ids,
            ) {
                Err(q) => Err(ResolveErrorView::Unanswered(q)),
                Ok(jumps) => match all_forwards(args, x) {
                    Err(e) => Err(ResolveErrorView::Refused(e)),
                    Ok(w) => Ok((target, jumps, w)),
                },
            },
        },
    }
}

fn prepare(args: &CliArgs, facts: &Facts) -> (r: Result<Prepared, ResolveError>)
    ensures
        match r {
            Ok(p) => prepared(*facts, *args) == Ok::<
                (HostView, Seq<HostView>, ForwardsView),
                ResolveErrorView,
            >(
                (
                    p.target@,
                    hosts(p.jump_hosts@),
                    ForwardsView {
                        locals: locals(p.local_forwards@),
                        remotes: remotes(p.remote_forwards@),
                        dynamics: dynamics(p.dynamic_forwards@),
                        tun: opt_tun(p.tun),
                    },
                ),
            ),
            Err(e) => prepared(*facts, *args) == Err::<
                (HostView, Seq<HostView>, ForwardsView),
                ResolveErrorView,
            >(e@),
        },
{
    let target = match resolve_host_config(
        args.destination.as_str(),
        args.port,
        &args.identity,
        facts,
    ) {
        Ok(h) => h,
        Err(q) => {
            return Err(ResolveError::Unanswered(q));
        },
    };
    let x = match read_host_settings(facts, target.host.as_str()) {
        Ok(x) => x,
        Err(q) => {
            return Err(ResolveError::Unanswered(q));
        },
    };
    let specs = list_jumps(&args.jump_hosts, &x.proxy_jump);
    let jump_hosts = match connect_jumps(facts, &specs, &args.identity) {
        Ok(v) => v,
        Err(q) => {
            return Err(ResolveError::Unanswered(q));
        },
    };
    let mut local_specs = x.local_forwards;
    append_texts(&mut local_specs, copy_all(&args.local_forwards));
    let local_forwards = match parse_locals(&local_specs) {
        Ok(v) => v,
        Err(e) => {
            return Err(ResolveError::Refused(e));
        },
    };
    let mut remote_specs = x.remote_forwards;
    append_texts(&mut remote_specs, copy_all(&args.remote_forwards));
    let remote_forwards = match parse_remotes(&remote_specs) {
        Ok(v) => v,
        Err(e) => {
            return Err(ResolveError::Refused(e));
        },
    };
    let mut dynamic_specs = x.dynamic_forwards;
    append_texts(&mut dynamic_specs, copy_all(&args.dynamic_forwards));
    let dynamic_forwards = match parse_dynamics(&dynamic_specs) {
        Ok(v) => v,
        Err(e) => {
            return Err(ResolveError::Refused(e));
        },
    };
    let tun = match choose_tun(&args.tun_forward, &x.tun_forward) {
        Ok(t) => t,
        Err(e) => {
            return Err(ResolveError::Refused(e));
        },
    };
    Ok(
        Prepared {
            target,
            jump_hosts,
            local_forwards,
            remote_forwards,
            dynamic_forwards,
            tun,
        },
    )
}

/// The model of a configuration, or of why there is none.
pub open spec fn resolved_answer(r: Result<ResolvedConfig, ResolveError>) -> Result<
    ResolvedView,
    ResolveErrorView,
> {
    match r {
        Ok(c) => Ok(c@),
        Err(e) => Err(e@),
    }
}

impl ResolvedConfig {
    /// Puts the command line and the configuration of the user together.
    pub fn from_args(args: CliArgs, facts: &Facts) -> (r: Result<ResolvedConfig, ResolveError>)
        requires
            addressable(*facts, args),
        ensures
            resolved_answer(r) == resolved(*facts, args),
            r matches Ok(c) ==> tun_digest_is_whole(c@.tun_forward),
            r matches Ok(c) ==> c.local_post_up == args.local_post_up,
            r matches Ok(c) ==> c.remote_post_up == args.remote_post_up,
            r matches Ok(c) ==> c.reconnect_interval == args.reconnect_interval,
            r matches Ok(c) ==> c.keepalive_interval == args.keepalive_interval,
            r matches Ok(c) ==> c.keepalive_max == args.keepalive_max,
            r matches Ok(c) ==> c.fwmark == args.fwmark,
    {
        let p = match prepare(&args, facts) {
            Ok(p) => p,
            Err(e) => {
                return Err(e);
            },
        };
        proof {
            lemma_requested_fits(*facts, args);
        }
        let given = TunAddrs {
            local: args.local_tun_addr,
            remote: args.remote_tun_addr,
            local6: args.local_tun_addr6,
            remote6: args.remote_tun_addr6,
        };
        match assign_tun(facts, p.target.host.as_str(), p.target.port, p.tun, given) {
            Err(q) => Err(ResolveError::Unanswered(q)),
            Ok((tun_forward, addrs)) => Ok(
                ResolvedConfig {
                    host: p.target.host,
                    hostname: p.target.hostname,
                    port: p.target.port,
                    user: p.target.user,
                    identity_files: p.target.identity_files,
                    jump_hosts: p.jump_hosts,
                    local_forwards: p.local_forwards,
                    remote_forwards: p.remote_forwards,
                    dynamic_forwards: p.dynamic_forwards,
                    tun_forward,
                    local_tun_addr: addrs.local,
                    remote_tun_addr: addrs.remote,
                    local_tun_addr6: addrs.local6,
                    remote_tun_addr6: addrs.remote6,
                    local_post_up: args.local_post_up,
                    remote_post_up: args.remote_post_up,
                    reconnect_interval: args.reconnect_interval,
                    keepalive_interval: args.keepalive_interval,
                    keepalive_max: args.keepalive_max,
                    fwmark: args.fwmark,
                },
            ),
        }
    }

    /// Puts the command line and the configuration of the user together, where
    /// the tunnel that they ask for has an address for its remote end; there is
    /// no configuration otherwise.
    pub fn try_from_args(args: CliArgs, facts: &Facts) -> (r: Result<
        Option<ResolvedConfig>,
        ResolveError,
    >)
        ensures
            match resolved(*facts, args) {
                Err(e) => r is Err && r->Err_0@ == e,
                Ok(c) => if addressable(*facts, args) {
                    r is Ok && r->Ok_0 is Some && r->Ok_0->0@ == c
                } else {
                    r is Ok && r->Ok_0 is None
                },
            },
            r matches Ok(Some(c)) ==> tun_digest_is_whole(c@.tun_forward),
    {
        let p = match prepare(&args, facts) {
            Ok(p) => p,
            Err(e) => {
                return Err(e);
            },
        };
        proof {
            lemma_requested_fits(*facts, args);
        }
        if let Some(t) = &p.tun {
            if let Some(id) = t.auto_id {
                if id == 0xffff && args.remote_tun_addr.is_none() {
                    return Ok(None);
                }
            }
        }
        match ResolvedConfig::from_args(args, facts) {
            Ok(c) => Ok(Some(c)),
            Err(e) => Err(e),
        }
    }
}

/// A tunnel with an identifier has the names that belong to it, so neither is
/// `auto`.
proof fn lemma_auto_id_names(s: Seq<char>)
    ensures
        tun_forward(s) matches Ok(t) ==> t.auto_id is Some ==> t.local_tun != "auto"@
            && t.remote_tun != "auto"@,
{
    reveal_strlit("auto");
    reveal_strlit("tun2222");
    if let Ok(t) = tun_forward(s) {
        if let Some(id) = t.auto_id {
            assert(t.local_tun[0] == 't');
        }
    }
}

/// Whether the addresses exist shows in the tunnel that is asked for: one with an
/// identifier of its own stays as it is, and one that gets an identifier never
/// gets the largest.
proof fn lemma_requested_fits(f: Facts, args: CliArgs)
    ensures
        prepared(f, args) matches Ok((_, _, w)) ==> {
            let fits = partner_fits(w.tun, opt_text(args.remote_tun_addr));
            &&& fits <==> addressable(f, args)
            &&& !fits ==> resolved(f, args) is Ok
        },
{
    if let Ok((target, _, w)) = prepared(f, args) {
        let x = host_settings(f, target.host)->Ok_0;
        let text = if args.tun_forward is Some {
            args.tun_forward->0@
        } else {
            x.tun_forward->0
        };
        lemma_auto_id_names(text);
        assert forall|digest: Seq<u8>| (#[trigger] auto_assignment(digest)).0 != 0xffff by {
            auto_id_is_link_local((digest[0] * 256 + digest[1]) as nat);
        }
    }
}

/// An address that the command line gives is never replaced.
pub proof fn given_addresses_are_kept(f: Facts, args: CliArgs)
    ensures
        resolved(f, args) matches Ok(c) ==> {
            let given = given_addrs(args);
            &&& given.local is Some ==> c.tun_addrs.local == given.local
            &&& given.remote is Some ==> c.tun_addrs.remote == given.remote
            &&& given.local6 is Some ==> c.tun_addrs.local6 == given.local6
            &&& given.remote6 is Some ==> c.tun_addrs.remote6 == given.remote6
        },
{
}

/// A tunnel with an identifier has the devices that belong to it at both ends,
/// and both an IPv4 and an IPv6 address at either.
pub proof fn auto_tunnel_is_complete(f: Facts, args: CliArgs)
    ensures
        resolved(f, args) matches Ok(c) ==> c.tun_forward matches Some(t)
            ==> t.auto_id matches Some(id) ==> {
            &&& t.local_tun == auto_tun_name(id)
            &&& t.remote_tun == auto_tun_name(id)
            &&& c.tun_addrs.local is Some
            &&& c.tun_addrs.remote is Some
            &&& c.tun_addrs.local6 is Some
            &&& c.tun_addrs.remote6 is Some
        },
{
}

/// Nothing is left to be assigned: no tunnel is between devices `auto`.
pub proof fn no_device_is_left_open(f: Facts, args: CliArgs)
    ensures
        resolved(f, args) matches Ok(c) ==> c.tun_forward matches Some(t) ==> t.local_tun
            != "auto"@ && t.remote_tun != "auto"@,
{
    reveal_strlit("auto");
    reveal_strlit("tun2222");
    assert forall|id: u16| #[trigger] auto_tun_name(id) != "auto"@ by {
        assert(auto_tun_name(id)[0] == 't');
    }
}

proof fn lemma_all_parsed<V>(
    specs: Seq<Seq<char>>,
    parser: spec_fn(Seq<char>) -> Result<V, ConfigErrorView>,
)
    ensures
        all_parsed(specs, parser) matches Ok(v) ==> {
            &&& v.len() == specs.len()
            &&& forall|i: int| 0 <= i < v.len() ==> parser(specs[i]) == Ok::<_, ConfigErrorView>(#[trigger] v[i])
        },
    decreases specs.len(),
{
    if specs.len() > 0 {
        lemma_all_parsed(specs.drop_last(), parser);
        if let Ok(v) = all_parsed(specs, parser) {
            let head = all_parsed(specs.drop_last(), parser)->Ok_0;
            assert forall|i: int| 0 <= i < v.len() implies parser(specs[i]) == Ok::<
                _,
                ConfigErrorView,
            >(#[trigger] v[i]) by {
                if i < head.len() {
                    assert(head[i] == v[i]);
                    assert(specs.drop_last()[i] == specs[i]);
                }
            }
        }
    }
}

/// Every forwarding of the configuration, and behind them every one of the
/// command line, is there, as its text says; there are no others.
pub proof fn every_forwarding_is_kept(f: Facts, args: CliArgs, i: int)
    ensures
        resolved(f, args) matches Ok(c) ==> host_settings(f, c.target.host) matches Ok(x) ==> {
            let l = x.local_forwards + texts(args.local_forwards@);
            let r = x.remote_forwards + texts(args.remote_forwards@);
            let d = x.dynamic_forwards + texts(args.dynamic_forwards@);
            &&& c.local_forwards.len() == l.len()
            &&& c.remote_forwards.len() == r.len()
            &&& c.dynamic_forwards.len() == d.len()
            &&& 0 <= i < l.len() ==> local_forward(l[i]) == Ok::<ForwardView, ConfigErrorView>(
                c.local_forwards[i],
            )
            &&& 0 <= i < r.len() ==> remote_forward(r[i]) == Ok::<ForwardView, ConfigErrorView>(
                c.remote_forwards[i],
            )
            &&& 0 <= i < d.len() ==> dynamic_forward(d[i]) == Ok::<DynamicView, ConfigErrorView>(
                c.dynamic_forwards[i],
            )
        },
{
    if let Ok(c) = resolved(f, args) {
        if let Ok(x) = host_settings(f, c.target.host) {
            let l = x.local_forwards + texts(args.local_forwards@);
            let r = x.remote_forwards + texts(args.remote_forwards@);
            let d = x.dynamic_forwards + texts(args.dynamic_forwards@);
            lemma_all_parsed(l, |s: Seq<char>| local_forward(s));
            lemma_all_parsed(r, |s: Seq<char>| remote_forward(s));
            lemma_all_parsed(d, |s: Seq<char>| dynamic_forward(s));
        }
    }
}

} // verus!
