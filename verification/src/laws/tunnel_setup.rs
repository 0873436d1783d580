//! Setting a TUN tunnel up: what has been done once the server is asked.

use crate::forward::TunView;
use crate::laws::texts::{prefixes_are_taken_away, suffixes_are_taken_away};
use crate::number::{decimal, lemma_digits, number_u32, written_number_reads_back, IntError};
use crate::tun_setup::{
    bare4, bare6, device_name, remote_number, setup_action, setup_next, setup_run, setup_start,
    Family, TunActionView, TunOutcomeView, TunSetupView, TunStageView,
};
use crate::written::{free_of, lemma_digits_are_plain};
use vstd::prelude::*;
use vstd::string::*;

verus! {

/// Whether an action is done on the way that the outcomes lead.
pub open spec fn run_does(
    s: TunSetupView,
    outcomes: Seq<TunOutcomeView>,
    action: TunActionView,
) -> bool {
    exists|k: int|
        0 <= k < outcomes.len() && setup_action(setup_run(s, #[trigger] outcomes.take(k)))
            == action
}

/// `ip` switches a device on.
pub open spec fn switch_on(device: Seq<char>) -> TunActionView {
    TunActionView::Ip(seq!["link"@, "set"@, device, "up"@])
}

/// `ip` gives a device an IPv4 address and the address of its peer.
pub open spec fn give4(
    verb: Seq<char>,
    local: Seq<char>,
    remote: Seq<char>,
    device: Seq<char>,
) -> TunActionView {
    TunActionView::Ip(
        seq!["addr"@, verb, bare4(local) + "/32"@, "peer"@, bare4(remote), "dev"@, device],
    )
}

/// `ip` gives a device an IPv6 address and the address of its peer.
pub open spec fn give6(
    verb: Seq<char>,
    local: Seq<char>,
    remote: Seq<char>,
    device: Seq<char>,
) -> TunActionView {
    TunActionView::Ip(
        seq!["addr"@, verb, bare6(local) + "/127"@, "peer"@, bare6(remote), "dev"@, device],
    )
}

proof fn lemma_run_goes_on(s: TunSetupView, outcomes: Seq<TunOutcomeView>, action: TunActionView)
    requires
        outcomes.len() > 0,
        run_does(s, outcomes.drop_last(), action) || setup_action(
            setup_run(s, outcomes.drop_last()),
        ) == action,
    ensures
        run_does(s, outcomes, action),
{
    let head = outcomes.drop_last();
    if run_does(s, head, action) {
        let k = choose|k: int|
            0 <= k < head.len() && setup_action(setup_run(s, #[trigger] head.take(k))) == action;
        assert(head.take(k) =~= outcomes.take(k));
    } else {
        assert(head =~= outcomes.take(outcomes.len() - 1));
    }
}

spec fn created(stage: TunStageView) -> bool {
    !(stage is Create || stage is Remove || stage is CreateAgain || stage is Lost)
}

spec fn behind4(stage: TunStageView) -> bool {
    created(stage) && !(stage matches TunStageView::Replace(f) && f == Family::V4) && !(
    stage matches TunStageView::Add(f) && f == Family::V4) && !(
    stage matches TunStageView::Up(f) && f == Family::V4)
}

spec fn behind6(stage: TunStageView) -> bool {
    created(stage) && !(stage is Replace) && !(stage is Add) && !(stage is Up)
}

/// What a run has done by each stage.
spec fn run_record(s: TunSetupView, outcomes: Seq<TunOutcomeView>) -> bool {
    let t = setup_run(s, outcomes);
    let both4 = s.local4 is Some && s.remote4 is Some;
    let both6 = s.local6 is Some && s.remote6 is Some;
    &&& t == (TunSetupView { stage: t.stage, device: t.device, ..s })
    &&& !created(t.stage) && !(t.stage is Lost) ==> t.device == s.device
    &&& t.stage matches TunStageView::Replace(f) ==> (if f == Family::V4 {
        both4
    } else {
        both6
    })
    &&& t.stage matches TunStageView::Add(f) ==> (if f == Family::V4 {
        both4
    } else {
        both6
    })
    &&& created(t.stage) ==> exists|k: int|
        0 <= k < outcomes.len() && #[trigger] outcomes[k] == TunOutcomeView::Done(t.device)
            && setup_action(setup_run(s, outcomes.take(k))) == TunActionView::Create(s.device)
    &&& both4 && (behind4(t.stage) || t.stage is Add && t.stage->Add_0 == Family::V4
        || t.stage is Up && t.stage->Up_0 == Family::V4) ==> run_does(
        s,
        outcomes,
        give4("replace"@, s.local4->0, s.remote4->0, t.device),
    )
    &&& both4 && behind4(t.stage) ==> run_does(s, outcomes, switch_on(t.device))
    &&& both6 && (behind6(t.stage) || t.stage is Add && t.stage->Add_0 == Family::V6
        || t.stage is Up && t.stage->Up_0 == Family::V6) ==> run_does(
        s,
        outcomes,
        give6("replace"@, s.local6->0, s.remote6->0, t.device),
    )
    &&& both6 && behind6(t.stage) ==> run_does(s, outcomes, switch_on(t.device))
}

#[verifier::spinoff_prover]
#[verifier::rlimit(60)]
proof fn lemma_run_record(s: TunSetupView, outcomes: Seq<TunOutcomeView>)
    requires
        s.stage is Create,
    ensures
        run_record(s, outcomes),
    decreases outcomes.len(),
{
    if outcomes.len() > 0 {
        let head = outcomes.drop_last();
        lemma_run_record(s, head);
        let p = setup_run(s, head);
        let t = setup_run(s, outcomes);
        assert(t == setup_next(p, outcomes.last()));
        assert(head =~= outcomes.take(outcomes.len() - 1));
        if created(p.stage) {
            let k = choose|k: int|
                0 <= k < head.len() && #[trigger] head[k] == TunOutcomeView::Done(p.device)
                    && setup_action(setup_run(s, head.take(k))) == TunActionView::Create(s.device);
            assert(head.take(k) =~= outcomes.take(k));
            assert(outcomes[k] == head[k]);
        } else {
            assert(outcomes[outcomes.len() - 1] == outcomes.last());
        }
        let g4 = give4("replace"@, s.local4->0, s.remote4->0, t.device);
        let g6 = give6("replace"@, s.local6->0, s.remote6->0, t.device);
        let on = switch_on(t.device);
        if run_does(s, head, g4) || setup_action(p) == g4 {
            lemma_run_goes_on(s, outcomes, g4);
        }
        if run_does(s, head, g6) || setup_action(p) == g6 {
            lemma_run_goes_on(s, outcomes, g6);
        }
        if run_does(s, head, on) || setup_action(p) == on {
            lemma_run_goes_on(s, outcomes, on);
        }
    }
}

/// By the time the server is asked, the device that was created has been given the
/// addresses of each family of which both ends have one, whatever the other family
/// has: `ip` has been told to replace its addresses and to switch it on.
pub proof fn addresses_precede_the_channel(s: TunSetupView, outcomes: Seq<TunOutcomeView>)
    requires
        s.stage is Create,
        setup_action(setup_run(s, outcomes)) is Open,
    ensures
        ({
            let device = setup_run(s, outcomes).device;
            &&& exists|k: int|
                0 <= k < outcomes.len() && #[trigger] outcomes[k] == TunOutcomeView::Done(device)
                    && setup_action(setup_run(s, outcomes.take(k))) == TunActionView::Create(
                    s.device,
                )
            &&& s.local4 is Some && s.remote4 is Some ==> {
                &&& run_does(
                    s,
                    outcomes,
                    TunActionView::Ip(
                        seq![
                            "addr"@,
                            "replace"@,
                            bare4(s.local4->0) + "/32"@,
                            "peer"@,
                            bare4(s.remote4->0),
                            "dev"@,
                            device,
                        ],
                    ),
                )
                &&& run_does(
                    s,
                    outcomes,
                    TunActionView::Ip(seq!["link"@, "set"@, device, "up"@]),
                )
            }
            &&& s.local6 is Some && s.remote6 is Some ==> {
                &&& run_does(
                    s,
                    outcomes,
                    TunActionView::Ip(
                        seq![
                            "addr"@,
                            "replace"@,
                            bare6(s.local6->0) + "/127"@,
                            "peer"@,
                            bare6(s.remote6->0),
                            "dev"@,
                            device,
                        ],
                    ),
                )
                &&& run_does(
                    s,
                    outcomes,
                    TunActionView::Ip(seq!["link"@, "set"@, device, "up"@]),
                )
            }
        }),
{
    lemma_run_record(s, outcomes);
}

/// Addresses that cannot be replaced are added instead. Then, and if they were
/// replaced, the device is switched on.
pub proof fn addresses_are_replaced_or_added(s: TunSetupView, o: TunOutcomeView, p: TunOutcomeView)
    requires
        s.stage is Replace,
    ensures
        ({
            let first = setup_action(s)->Ip_0;
            let second = setup_action(setup_next(s, o));
            let third = setup_action(setup_next(setup_next(s, o), p));
            let on = TunActionView::Ip(seq!["link"@, "set"@, s.device, "up"@]);
            &&& first[0] == "addr"@
            &&& first[1] == "replace"@
            &&& first.len() == 7
            &&& o is Done ==> second == on
            &&& o is Failed ==> second == TunActionView::Ip(first.update(1, "add"@)) && third == on
        }),
{
    let first = setup_action(s)->Ip_0;
    let second = setup_action(setup_next(s, o));
    if o is Failed {
        assert(second->Ip_0 =~= first.update(1, "add"@));
    }
}

/// A tunnel starts with the creation of its device. The server is asked for a
/// point-to-point tunnel to the device that the remote name stands for, each time,
/// and a refusal is followed by a pause of a second.
pub proof fn tunnel_is_asked_for(
    tun: TunView,
    local4: Option<Seq<char>>,
    remote4: Option<Seq<char>>,
    local6: Option<Seq<char>>,
    remote6: Option<Seq<char>>,
    outcomes: Seq<TunOutcomeView>,
    why: Seq<char>,
)
    ensures
        ({
            let s = setup_start(tun, local4, remote4, local6, remote6);
            let t = setup_run(s, outcomes);
            &&& setup_action(s) == TunActionView::Create(device_name(tun.local_tun))
            &&& (s.local4, s.remote4, s.local6, s.remote6) == (local4, remote4, local6, remote6)
            &&& setup_action(t) is Open ==> {
                &&& setup_action(t) == TunActionView::Open(1, remote_number(tun.remote_tun))
                &&& setup_action(setup_next(t, TunOutcomeView::Failed(why)))
                    == TunActionView::Pause(1000)
                &&& setup_action(setup_next(t, TunOutcomeView::Done(why)))
                    == TunActionView::Ready(t.device)
            }
        }),
{
    lemma_run_record(setup_start(tun, local4, remote4, local6, remote6), outcomes);
}

/// A device may be given by its full name or by what stands behind `tun` in it.
/// The name `any` is that of the first device.
pub proof fn devices_have_full_names(x: Seq<char>)
    ensures
        device_name("any"@) == "tun0"@,
        device_name("tun"@ + x) == "tun"@ + x,
        x != "any"@ && !"tun"@.is_prefix_of(x) ==> device_name(x) == "tun"@ + x,
{
    reveal_strlit("any");
    reveal_strlit("tun");
    assert(("tun"@ + x)[0] == 't');
    assert("tun"@ =~= ("tun"@ + x).subrange(0, 3));
}

/// The server is asked for the device whose number the remote name holds, and for
/// any device where the name is `any` or holds no number.
pub proof fn remote_devices_have_numbers(n: u32, x: Seq<char>)
    ensures
        remote_number(decimal(n as nat)) == n,
        remote_number("tun"@ + decimal(n as nat)) == n,
        remote_number("any"@) == 0x7fffffff,
        !"tun"@.is_prefix_of(x) && number_u32(x, 10) is Err ==> remote_number(x) == 0x7fffffff,
{
    reveal_strlit("any");
    reveal_strlit("tun");
    let d = decimal(n as nat);
    lemma_digits_are_plain(n as nat, 10);
    written_number_reads_back(n as nat, 10, 0xffff_ffff);
    assert(number_u32(d, 10) == Ok::<u32, IntError>(n));
    lemma_digits(n as nat, 10);
    assert(!"tun"@.is_prefix_of(d)) by {
        if "tun"@.is_prefix_of(d) {
            assert(d.subrange(0, 3)[0] == 't');
        }
    }
    prefixes_are_taken_away("tun"@, d);
    prefixes_are_taken_away("tun"@, x);
    assert(d[0] != 'a');
    assert(("tun"@ + d)[0] == 't');
}

/// The length of its prefix is taken from an address, and an address without one
/// stays as it is.
pub proof fn addresses_are_bared(a: Seq<char>)
    requires
        free_of(a, '/'),
    ensures
        bare4(a) == a,
        bare4(a + "/32"@) == a,
        bare6(a) == a,
        bare6(a + "/127"@) == a,
        bare6(a + "/128"@) == a,
{
    reveal_strlit("/32");
    reveal_strlit("/127");
    reveal_strlit("/128");
    assert forall|p: Seq<char>| p.len() > 0 && p[0] == '/' implies !#[trigger] p.is_suffix_of(a) by {
        if p.is_suffix_of(a) {
            assert(a[a.len() - p.len()] == p[0]);
        }
    }
    suffixes_are_taken_away(a, "/32"@);
    suffixes_are_taken_away(a, "/127"@);
    suffixes_are_taken_away(a, "/128"@);
    let b = a + "/128"@;
    assert(!"/127"@.is_suffix_of(b)) by {
        if "/127"@.is_suffix_of(b) {
            assert(b[b.len() - 1] == "/127"@[3]);
        }
    }
    suffixes_are_taken_away(b, "/127"@);
}

/// A device that cannot be created the second time, and a server that refuses the
/// fifth time, end the setup. What is said then names the device and quotes the last
/// reason.
pub proof fn failures_are_explained(s: TunSetupView, o: TunOutcomeView, why: Seq<char>)
    ensures
        s.stage is CreateAgain ==> setup_action(setup_next(s, TunOutcomeView::Failed(why)))
            == TunActionView::Fail(
            "Failed to create local TUN device '"@ + s.device + "': "@ + why,
        ),
        s.stage == TunStageView::Refused(5, why) ==> setup_action(setup_next(s, o))
            == TunActionView::Fail(
            "Failed to open tun@openssh.com SSH channel after 5 attempts: Some("@ + why + ")"@,
        ),
{
}

} // verus!
