//! A run: what it does, in which order, and with what.

use crate::auth::{
    auth_action, auth_next, auth_run, AuthActionView, AuthOutcome, AuthStage, AuthView,
};
use crate::forward::{target_pair, ConfigErrorView, ForwardView};
use crate::monitor::PING_TIMEOUT;
use crate::number::written_number_reads_back;
use crate::resolve::ResolvedView;
use crate::supervisor::{
    run_action, run_after, run_next, run_start, RunActionView, RunOutcome, RunStage,
    SupervisorView,
};
use crate::tunnels::{
    endpoint_text, exit_text, is_first_bound, is_unbound, tunnel_plan, TunnelExit, TunnelStep,
};
use crate::written::{lemma_endpoint, solid};
use vstd::prelude::*;
use vstd::string::*;

verus! {

/// A run connects, starts the tunnels once it is connected, runs the commands once
/// the tunnels are started, and then watches the link, however the commands went.
pub proof fn run_takes_its_course(c: ResolvedView, o: RunOutcome)
    ensures
        ({
            let connected = run_next(run_start(c), RunOutcome::Done);
            let started = run_next(connected, RunOutcome::Done);
            &&& run_action(run_start(c)) == RunActionView::Connect
            &&& run_action(connected) == RunActionView::StartTunnels
            &&& run_action(started) == RunActionView::RunHooks
            &&& run_action(run_next(started, o)) == RunActionView::Watch
        }),
{
}

/// Whatever happens, a run waits as long as it was told to, has the server clean up
/// for two seconds after a lost link and for four before the end, removes nothing
/// but the local device of an automatic tunnel, and ends with a status of 0 or, by
/// force, of 130.
pub proof fn run_acts_on_its_configuration(c: ResolvedView, outcomes: Seq<RunOutcome>)
    ensures
        match run_action(run_after(run_start(c), outcomes)) {
            RunActionView::Wait(t) => t == c.reconnect_interval,
            RunActionView::Clean(t) => t == 2,
            RunActionView::LastClean(t) => t == 4,
            RunActionView::RemoveDevice(d) => match c.tun_forward {
                Some(t) => t.auto_id is Some && d == t.local_tun,
                None => false,
            },
            RunActionView::Exit(status) => status == 0 || status == 130,
            _ => true,
        },
{
    lemma_run_keeps(c, outcomes);
}

proof fn lemma_run_keeps(c: ResolvedView, outcomes: Seq<RunOutcome>)
    ensures
        ({
            let s = run_after(run_start(c), outcomes);
            &&& s == (SupervisorView { stage: s.stage, ..run_start(c) })
            &&& s.stage is Clean || s.stage is Remove || s.stage is LastClean
                || s.stage is LastRemove ==> s.device is Some
            &&& s.stage matches RunStage::Ended(status) ==> status == 0 || status == 130
        }),
    decreases outcomes.len(),
{
    if outcomes.len() > 0 {
        lemma_run_keeps(c, outcomes.drop_last());
    }
}

/// Where the tunnel is an automatic one, a link that ends is cleaned up after.
pub proof fn automatic_tunnel_is_cleaned_up(c: ResolvedView, outcomes: Seq<RunOutcome>, o: RunOutcome)
    requires
        run_action(run_after(run_start(c), outcomes)) == RunActionView::Watch,
        c.tun_forward is Some,
        c.tun_forward->0.auto_id is Some,
    ensures
        run_action(run_next(run_after(run_start(c), outcomes), o)) == if o
            == RunOutcome::Interrupted {
            RunActionView::LastClean(4)
        } else {
            RunActionView::Clean(2)
        },
{
    lemma_run_keeps(c, outcomes);
}

/// A server that accepts an identity of the agent has accepted the user, and
/// nothing is tried after it.
pub proof fn accepted_identity_wins(s: AuthView, later: Seq<AuthOutcome>)
    requires
        auth_action(s) is TryIdentity || auth_action(s) is TryKey,
    ensures
        auth_action(auth_run(auth_next(s, AuthOutcome::Accepted), later))
            == AuthActionView::Succeed,
    decreases later.len(),
{
    if later.len() > 0 {
        accepted_identity_wins(s, later.drop_last());
    }
}

/// An agent that does not say how many identities it has is tried no further, and
/// the failure names the user.
pub proof fn silent_agent_helps_nobody(s: AuthView, o: AuthOutcome)
    requires
        auth_action(s) == AuthActionView::AskAgent,
        !(o is Identities),
    ensures
        auth_action(auth_next(s, o)) == AuthActionView::Fail(
            "Failed to authenticate SSH user '"@ + s.user
                + "'. No valid identity keys or agent auth succeeded."@,
        ),
{
}

/// Each identity of the agent is tried in its turn until none is left.
pub proof fn identities_are_tried_in_turn(s: AuthView, n: usize, k: usize, o: AuthOutcome)
    requires
        auth_action(s) == AuthActionView::AskAgent || s.stage == AuthStage::Agent(k, n),
        k < n,
        o != AuthOutcome::Accepted,
    ensures
        auth_action(s) == AuthActionView::AskAgent ==> auth_action(
            auth_next(s, AuthOutcome::Identities(n)),
        ) == AuthActionView::TryIdentity(0),
        s.stage == AuthStage::Agent(k, n) ==> {
            &&& auth_action(s) == AuthActionView::TryIdentity(k as nat)
            &&& k + 1 < n ==> auth_action(auth_next(s, o)) == AuthActionView::TryIdentity(
                (k + 1) as nat,
            )
            &&& k + 1 == n ==> auth_action(auth_next(s, o)) is Fail
        },
{
}

/// The tunnels are started in this order: the local forwardings, the proxies, the
/// remote forwardings and then what takes their connections, and the TUN tunnel;
/// those of a kind in the order of the configuration.
pub proof fn tunnels_start_in_order(c: ResolvedView, i: int)
    requires
        c.local_forwards.len() <= usize::MAX,
        c.dynamic_forwards.len() <= usize::MAX,
        c.remote_forwards.len() <= usize::MAX,
    ensures
        ({
            let plan = tunnel_plan(c);
            let l = c.local_forwards.len() as int;
            let d = c.dynamic_forwards.len() as int;
            let r = c.remote_forwards.len() as int;
            &&& 0 <= i < l ==> plan[i] == TunnelStep::Local(i as usize)
            &&& 0 <= i < d ==> plan[l + i] == TunnelStep::Dynamic(i as usize)
            &&& 0 <= i < r ==> plan[l + d + i] == TunnelStep::Register(i as usize)
            &&& r > 0 ==> plan[l + d + r] == TunnelStep::ServeRemote
            &&& c.tun_forward is Some ==> plan.last() == TunnelStep::Tun
            &&& plan.len() == l + d + r + (if r > 0 {
                1int
            } else {
                0
            }) + (if c.tun_forward is Some {
                1int
            } else {
                0
            })
        }),
{
}

/// A connection to a port of the server goes to the first remote forwarding that
/// binds to the port, wherever one does.
pub proof fn first_binding_decides(v: Seq<ForwardView>, port: u32, i: int, j: int)
    ensures
        is_first_bound(v, port, i) ==> 0 <= i < v.len() && v[i].bind_port == port,
        is_first_bound(v, port, i) && 0 <= j < v.len() && v[j].bind_port == port ==> i <= j,
        0 <= j < v.len() && v[j].bind_port == port ==> !is_unbound(v, port) && exists|k: int|
            is_first_bound(v, port, k),
        !is_unbound(v, port) ==> exists|k: int| 0 <= k < v.len() && #[trigger] v[k].bind_port == port,
{
    if 0 <= j < v.len() && v[j].bind_port == port {
        lemma_some_first(v, port, j);
    }
}

proof fn lemma_some_first(v: Seq<ForwardView>, port: u32, j: int)
    requires
        0 <= j < v.len(),
        v[j].bind_port == port,
    ensures
        exists|k: int| is_first_bound(v, port, k),
    decreases j,
{
    if exists|k: int| 0 <= k < j && #[trigger] v[k].bind_port == port {
        let k = choose|k: int| 0 <= k < j && #[trigger] v[k].bind_port == port;
        lemma_some_first(v, port, k);
    } else {
        assert(is_first_bound(v, port, j));
    }
}

/// The text of a host and a port can be read back.
pub proof fn endpoint_reads_back(host: Seq<char>, port: u16)
    requires
        solid(host),
    ensures
        target_pair(endpoint_text(host, port)) == Ok::<(Seq<char>, u16), ConfigErrorView>(
            (host, port),
        ),
{
    lemma_endpoint(host, port);
    written_number_reads_back(port as nat, 10, 0xffff);
}

/// What is said when a tunnel ends names its kind, and the reason where there is
/// one.
pub proof fn ends_name_their_kind(why: String)
    ensures
        exit_text(TunnelExit::Local(why)) == "Local forward error: "@ + why@,
        exit_text(TunnelExit::Dynamic(why)) == "Dynamic forward error: "@ + why@,
        exit_text(TunnelExit::Remote) == "Remote forward incoming channel closed"@,
        exit_text(TunnelExit::Tun(why)) == "TUN forward error: "@ + why@,
        exit_text(TunnelExit::TunEnded) == "TUN forward ended"@,
{
}

/// A server has five seconds to answer a ping.
pub proof fn ping_takes_five_seconds_at_most()
    ensures
        PING_TIMEOUT == 5,
{
}

} // verus!
