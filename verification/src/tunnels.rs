//! The tunnels of a connection: what to start in which order, where connections
//! go, and what is said when one ends.

use crate::forward::{ForwardView, RemoteForwardSpec};
use crate::host::HostConnectionConfig;
use crate::number::{decimal, format_decimal};
use crate::resolve::{hosts, remotes, ResolvedConfig, ResolvedView};
use crate::text::{copy, copy_all, opt_text};
use vstd::prelude::*;
use vstd::string::*;

verus! {

/// A step in starting the tunnels of a connection. The number is the position of
/// a forwarding in its list.
#[derive(Debug, Clone, Copy, PartialEq, Eq, Structural)]
pub enum TunnelStep {
    /// Listen for a local forwarding.
    Local(usize),
    /// Listen for a SOCKS5 proxy.
    Dynamic(usize),
    /// Ask the server to listen for a remote forwarding.
    Register(usize),
    /// Take the connections that the server passes on.
    ServeRemote,
    /// Set the TUN tunnel up, and pass packets on.
    Tun,
}

/// The steps in order. The connections of remote forwardings are taken once all
/// of them are registered.
pub open spec fn tunnel_plan(c: ResolvedView) -> Seq<TunnelStep> {
    let local = Seq::new(c.local_forwards.len(), |i: int| TunnelStep::Local(i as usize));
    let dynamic = Seq::new(c.dynamic_forwards.len(), |i: int| TunnelStep::Dynamic(i as usize));
    let remote = Seq::new(c.remote_forwards.len(), |i: int| TunnelStep::Register(i as usize));
    let served = if c.remote_forwards.len() > 0 {
        remote.push(TunnelStep::ServeRemote)
    } else {
        remote
    };
    let tun = if c.tun_forward is Some {
        seq![TunnelStep::Tun]
    } else {
        seq![]
    };
    local + dynamic + served + tun
}

/// The steps that start the tunnels of a connection.
pub fn plan_tunnels(config: &ResolvedConfig) -> (r: Vec<TunnelStep>)
    ensures
        r@ == tunnel_plan(config@),
{
    let ghost c = config@;
    let ghost local = Seq::new(c.local_forwards.len(), |i: int| TunnelStep::Local(i as usize));
    let ghost dynamic = Seq::new(
        c.dynamic_forwards.len(),
        |i: int| TunnelStep::Dynamic(i as usize),
    );
    let ghost remote = Seq::new(
        c.remote_forwards.len(),
        |i: int| TunnelStep::Register(i as usize),
    );
    let mut r: Vec<TunnelStep> = Vec::new();
    let mut i: usize = 0;
    while i < config.local_forwards.len()
        invariant
            i <= config.local_forwards@.len() == local.len(),
            local == Seq::new(local.len(), |i: int| TunnelStep::Local(i as usize)),
            r@ == local.take(i as int),
        decreases config.local_forwards.len() - i,
    {
        r.push(TunnelStep::Local(i));
        i += 1;
        assert(local.take(i as int) == local.take(i - 1).push(local[i - 1]));
    }
    assert(r@ == local);
    i = 0;
    while i < config.dynamic_forwards.len()
        invariant
            i <= config.dynamic_forwards@.len() == dynamic.len(),
            dynamic == Seq::new(dynamic.len(), |i: int| TunnelStep::Dynamic(i as usize)),
            r@ == local + dynamic.take(i as int),
        decreases config.dynamic_forwards.len() - i,
    {
        r.push(TunnelStep::Dynamic(i));
        i += 1;
        assert(dynamic.take(i as int) == dynamic.take(i - 1).push(dynamic[i - 1]));
    }
    assert(r@ == local + dynamic);
    i = 0;
    while i < config.remote_forwards.len()
        invariant
            i <= config.remote_forwards@.len() == remote.len(),
            remote == Seq::new(remote.len(), |i: int| TunnelStep::Register(i as usize)),
            r@ == local + dynamic + remote.take(i as int),
        decreases config.remote_forwards.len() - i,
    {
        r.push(TunnelStep::Register(i));
        i += 1;
        assert(remote.take(i as int) == remote.take(i - 1).push(remote[i - 1]));
    }
    assert(r@ == local + dynamic + remote);
    if config.remote_forwards.len() > 0 {
        r.push(TunnelStep::ServeRemote);
    }
    if config.tun_forward.is_some() {
        r.push(TunnelStep::Tun);
    }
    assert(r@ == tunnel_plan(config@));
    r
}

/// What the next thing to do is.
#[derive(Debug, Clone, PartialEq, Eq)]
pub enum StartAction {
    /// Take this step.
    Take(TunnelStep),
    /// Nothing: the tunnels are started.
    Started,
    /// Nothing: a step has failed, for this reason, and what was started must be
    /// stopped.
    Fail(String),
}

/// The model of a `StartAction`.
pub enum StartActionView {
    Take(TunnelStep),
    Started,
    Fail(Seq<char>),
}

impl View for StartAction {
    type V = StartActionView;

    open spec fn view(&self) -> StartActionView {
        match self {
            StartAction::Take(step) => StartActionView::Take(*step),
            StartAction::Started => StartActionView::Started,
            StartAction::Fail(why) => StartActionView::Fail(why@),
        }
    }
}

/// The tunnels of a connection while they are started.
pub struct TunnelStart {
    plan: Vec<TunnelStep>,
    taken: usize,
    failure: Option<String>,
}

/// The model of a `TunnelStart`.
pub struct TunnelStartView {
    pub plan: Seq<TunnelStep>,
    pub taken: nat,
    pub failure: Option<Seq<char>>,
}

impl View for TunnelStart {
    type V = TunnelStartView;

    closed spec fn view(&self) -> TunnelStartView {
        TunnelStartView {
            plan: self.plan@,
            taken: self.taken as nat,
            failure: opt_text(self.failure),
        }
    }
}

/// What to do next.
pub open spec fn start_action(s: TunnelStartView) -> StartActionView {
    match s.failure {
        Some(why) => StartActionView::Fail(why),
        None => if s.taken < s.plan.len() {
            StartActionView::Take(s.plan[s.taken as int])
        } else {
            StartActionView::Started
        },
    }
}

/// The state that follows a step, which may have failed for a reason.
pub open spec fn start_next(s: TunnelStartView, failure: Option<Seq<char>>) -> TunnelStartView {
    if s.failure is None && s.taken < s.plan.len() {
        match failure {
            Some(why) => TunnelStartView { failure: Some(why), ..s },
            None => TunnelStartView { taken: s.taken + 1, ..s },
        }
    } else {
        s
    }
}

/// The state that follows several steps.
pub open spec fn start_after(s: TunnelStartView, failures: Seq<Option<Seq<char>>>) -> TunnelStartView
    decreases failures.len(),
{
    if failures.len() == 0 {
        s
    } else {
        start_next(start_after(s, failures.drop_last()), failures.last())
    }
}

impl TunnelStart {
    /// Starts the tunnels of a connection.
    pub fn begin(config: &ResolvedConfig) -> (r: TunnelStart)
        ensures
            r@ == (TunnelStartView { plan: tunnel_plan(config@), taken: 0, failure: None }),
    {
        TunnelStart { plan: plan_tunnels(config), taken: 0, failure: None }
    }

    /// What to do next.
    pub fn action(&self) -> (r: StartAction)
        ensures
            r@ == start_action(self@),
    {
        match &self.failure {
            Some(why) => StartAction::Fail(copy(why.as_str())),
            None => if self.taken < self.plan.len() {
                StartAction::Take(self.plan[self.taken])
            } else {
                StartAction::Started
            },
        }
    }

    /// Goes on after the step that was to be taken next, which may have failed
    /// for a reason.
    pub fn advance(&mut self, failure: Option<String>)
        ensures
            final(self)@ == start_next(old(self)@, opt_text(failure)),
    {
        if self.failure.is_none() && self.taken < self.plan.len() {
            if failure.is_some() {
                self.failure = failure;
            } else {
                self.taken = self.taken + 1;
            }
        }
    }
}

/// The steps are taken in the order of the plan. Once all are taken the tunnels
/// are started; the first that fails is reported, and no other is taken.
pub proof fn start_follows_plan(
    plan: Seq<TunnelStep>,
    done: Seq<Option<Seq<char>>>,
    why: Seq<char>,
)
    requires
        done.len() <= plan.len(),
        forall|i: int| 0 <= i < done.len() ==> #[trigger] done[i] is None,
    ensures
        ({
            let s = start_after(TunnelStartView { plan, taken: 0, failure: None }, done);
            &&& s == (TunnelStartView { plan, taken: done.len(), failure: None })
            &&& start_action(s) == if done.len() < plan.len() {
                StartActionView::Take(plan[done.len() as int])
            } else {
                StartActionView::Started
            }
            &&& done.len() < plan.len() ==> {
                let failed = start_next(s, Some(why));
                &&& start_action(failed) == StartActionView::Fail(why)
                &&& forall|o: Option<Seq<char>>| #[trigger] start_next(failed, o) == failed
            }
        }),
    decreases done.len(),
{
    if done.len() > 0 {
        let head = done.drop_last();
        assert forall|i: int| 0 <= i < head.len() implies #[trigger] head[i] is None by {
            assert(head[i] == done[i]);
        }
        start_follows_plan(plan, head, why);
        assert(done.last() == done[done.len() - 1]);
    }
}

/// A host and a port as one text.
pub open spec fn endpoint_text(host: Seq<char>, port: u16) -> Seq<char> {
    host + ":"@ + decimal(port as nat)
}

/// A host and a port as one text.
pub fn endpoint(host: &str, port: u16) -> (r: String)
    ensures
        r@ == endpoint_text(host@, port),
{
    let mut r = copy(host);
    r.append(":");
    r.append(format_decimal(port as u32).as_str());
    r
}

/// Whether `i` is the position of the first forwarding that binds to a port.
pub open spec fn is_first_bound(v: Seq<ForwardView>, port: u32, i: int) -> bool {
    &&& 0 <= i < v.len()
    &&& v[i].bind_port == port
    &&& forall|j: int| 0 <= j < i ==> #[trigger] v[j].bind_port != port
}

/// Whether no forwarding binds to a port.
pub open spec fn is_unbound(v: Seq<ForwardView>, port: u32) -> bool {
    forall|j: int| 0 <= j < v.len() ==> #[trigger] v[j].bind_port != port
}

/// Where a connection to a port of the server goes: to the target of the first
/// remote forwarding that binds to it.
pub fn route_incoming(specs: &Vec<RemoteForwardSpec>, connected_port: u32) -> (r: Option<String>)
    ensures
        match r {
            Some(t) => exists|i: int| #[trigger]
                is_first_bound(remotes(specs@), connected_port, i) && t@ == endpoint_text(
                    remotes(specs@)[i].target_host,
                    remotes(specs@)[i].target_port,
                ),
            None => is_unbound(remotes(specs@), connected_port),
        },
{
    let ghost v = remotes(specs@);
    let mut i: usize = 0;
    while i < specs.len()
        invariant
            i <= specs@.len(),
            v == remotes(specs@),
            forall|j: int| 0 <= j < i ==> #[trigger] v[j].bind_port != connected_port,
        decreases specs.len() - i,
    {
        assert(v[i as int] == specs@[i as int]@);
        if specs[i].bind_port as u32 == connected_port {
            assert(is_first_bound(v, connected_port, i as int));
            return Some(endpoint(specs[i].target_host.as_str(), specs[i].target_port));
        }
        i += 1;
    }
    None
}

/// No two positions are the first that binds to a port, so a connection has at
/// most one target.
pub proof fn target_is_unique(v: Seq<ForwardView>, port: u32, i: int, j: int)
    requires
        is_first_bound(v, port, i),
        is_first_bound(v, port, j),
    ensures
        i == j,
        !is_unbound(v, port),
{
    if i < j {
        assert(v[i].bind_port != port);
    } else if j < i {
        assert(v[j].bind_port != port);
    }
    assert(v[i].bind_port == port);
}

/// How a tunnel ended.
#[derive(Debug, Clone, PartialEq, Eq)]
pub enum TunnelExit {
    /// A local forwarding failed.
    Local(String),
    /// A SOCKS5 proxy failed.
    Dynamic(String),
    /// The server passes no more connections on.
    Remote,
    /// The TUN tunnel failed.
    Tun(String),
    /// The TUN tunnel ended.
    TunEnded,
}

/// The words for the end of a tunnel.
pub open spec fn exit_text(e: TunnelExit) -> Seq<char> {
    match e {
        TunnelExit::Local(why) => "Local forward error: "@ + why@,
        TunnelExit::Dynamic(why) => "Dynamic forward error: "@ + why@,
        TunnelExit::Remote => "Remote forward incoming channel closed"@,
        TunnelExit::Tun(why) => "TUN forward error: "@ + why@,
        TunnelExit::TunEnded => "TUN forward ended"@,
    }
}

impl TunnelExit {
    /// The words for this end.
    pub fn message(&self) -> (r: String)
        ensures
            r@ == exit_text(*self),
    {
        match self {
            TunnelExit::Local(why) => {
                let mut r = copy("Local forward error: ");
                r.append(why.as_str());
                r
            },
            TunnelExit::Dynamic(why) => {
                let mut r = copy("Dynamic forward error: ");
                r.append(why.as_str());
                r
            },
            TunnelExit::Remote => copy("Remote forward incoming channel closed"),
            TunnelExit::Tun(why) => {
                let mut r = copy("TUN forward error: ");
                r.append(why.as_str());
                r
            },
            TunnelExit::TunEnded => copy("TUN forward ended"),
        }
    }
}

/// The words for a remote forwarding that the server refuses.
pub fn registration_failure(bind_port: u16, why: &str) -> (r: String)
    ensures
        r@ == "Remote forward request failed for port "@ + decimal(bind_port as nat) + ": "@ + why@,
{
    let mut r = copy("Remote forward request failed for port ");
    r.append(format_decimal(bind_port as u32).as_str());
    r.append(": ");
    r.append(why);
    r
}

fn copy_host(h: &HostConnectionConfig) -> (r: HostConnectionConfig)
    ensures
        r@ == h@,
{
    HostConnectionConfig {
        host: copy(h.host.as_str()),
        hostname: copy(h.hostname.as_str()),
        port: h.port,
        user: copy(h.user.as_str()),
        identity_files: copy_all(&h.identity_files),
    }
}

/// The hosts to connect to, one through the other: those to go through, and then
/// the target.
pub fn connection_hops(config: &ResolvedConfig) -> (r: Vec<HostConnectionConfig>)
    ensures
        hosts(r@) == config@.jump_hosts.push(config@.target),
{
    let ghost jumps = config@.jump_hosts;
    let mut r: Vec<HostConnectionConfig> = Vec::new();
    let mut i: usize = 0;
    assert(hosts(r@) =~= jumps.take(0));
    while i < config.jump_hosts.len()
        invariant
            i <= config.jump_hosts@.len(),
            jumps == hosts(config.jump_hosts@),
            hosts(r@) == jumps.take(i as int),
        decreases config.jump_hosts.len() - i,
    {
        let ghost before = hosts(r@);
        let h = copy_host(&config.jump_hosts[i]);
        r.push(h);
        i += 1;
        assert(hosts(r@) =~= before.push(h@));
        assert(jumps.take(i as int) == jumps.take(i - 1).push(jumps[i - 1]));
    }
    let ghost before = hosts(r@);
    let target = HostConnectionConfig {
        host: copy(config.host.as_str()),
        hostname: copy(config.hostname.as_str()),
        port: config.port,
        user: copy(config.user.as_str()),
        identity_files: copy_all(&config.identity_files),
    };
    r.push(target);
    assert(hosts(r@) =~= before.push(target@));
    assert(jumps.take(i as int) == jumps);
    r
}

/// Every forwarding is started exactly once, and so is the tunnel; nothing else
/// is.
pub proof fn every_tunnel_is_started_once(c: ResolvedView, i: usize)
    requires
        c.local_forwards.len() <= usize::MAX,
        c.dynamic_forwards.len() <= usize::MAX,
        c.remote_forwards.len() <= usize::MAX,
    ensures
        tunnel_plan(c).no_duplicates(),
        tunnel_plan(c).contains(TunnelStep::Local(i)) <==> i < c.local_forwards.len(),
        tunnel_plan(c).contains(TunnelStep::Dynamic(i)) <==> i < c.dynamic_forwards.len(),
        tunnel_plan(c).contains(TunnelStep::Register(i)) <==> i < c.remote_forwards.len(),
        tunnel_plan(c).contains(TunnelStep::ServeRemote) <==> c.remote_forwards.len() > 0,
        tunnel_plan(c).contains(TunnelStep::Tun) <==> c.tun_forward is Some,
{
    let plan = tunnel_plan(c);
    let (l, d, r) = (
        c.local_forwards.len() as int,
        c.dynamic_forwards.len() as int,
        c.remote_forwards.len() as int,
    );
    assert forall|k: int| 0 <= k < plan.len() implies #[trigger] plan[k] == step_at(c, k) by {}
    if i < l {
        assert(plan[i as int] == TunnelStep::Local(i));
    }
    if i < d {
        assert(plan[l + i] == TunnelStep::Dynamic(i));
    }
    if i < r {
        assert(plan[l + d + i] == TunnelStep::Register(i));
    }
    if r > 0 {
        assert(plan[l + d + r] == TunnelStep::ServeRemote);
    }
    if c.tun_forward is Some {
        assert(plan[plan.len() - 1] == TunnelStep::Tun);
    }
}

spec fn step_at(c: ResolvedView, k: int) -> TunnelStep {
    let (l, d, r) = (
        c.local_forwards.len() as int,
        c.dynamic_forwards.len() as int,
        c.remote_forwards.len() as int,
    );
    if k < l {
        TunnelStep::Local(k as usize)
    } else if k < l + d {
        TunnelStep::Dynamic((k - l) as usize)
    } else if k < l + d + r {
        TunnelStep::Register((k - l - d) as usize)
    } else if r > 0 && k == l + d + r {
        TunnelStep::ServeRemote
    } else {
        TunnelStep::Tun
    }
}

} // verus!
