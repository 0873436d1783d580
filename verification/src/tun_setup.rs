//! Setting a TUN tunnel up: which device to create, how to configure it, and how
//! often to ask the server for its end.

use crate::forward::{TunForwardSpec, TunView};
use crate::number::{number_u32, parse_u32};
use crate::resolve::ResolvedConfig;
use crate::text::{
    copy, copy_opt, opt_text, same, starts_with, texts, trim_end_matches, trim_start_matches,
    without_prefix, without_suffix,
};
use vstd::prelude::*;
use vstd::string::*;

verus! {

/// The number that asks the server for any device.
pub const ANY_TUN: u32 = 0x7fffffff;

/// The mode of a tunnel that carries packets, not frames.
pub const POINT_TO_POINT: u32 = 1;

/// How often the server is asked for its end of a tunnel.
pub const CHANNEL_ATTEMPTS: u32 = 5;

/// How long to wait after each refusal, in milliseconds.
pub const CHANNEL_PAUSE: u64 = 1000;

/// The full name of a device that may be given by its number alone; `any` is the
/// first one.
pub open spec fn device_name(s: Seq<char>) -> Seq<char> {
    if s == "any"@ {
        "tun0"@
    } else if "tun"@.is_prefix_of(s) {
        s
    } else {
        "tun"@ + s
    }
}

/// The full name of a device.
pub fn tun_device_name(name: &str) -> (r: String)
    ensures
        r@ == device_name(name@),
{
    if same(name, "any") {
        copy("tun0")
    } else if starts_with(name, "tun") {
        copy(name)
    } else {
        let mut r = copy("tun");
        r.append(name);
        r
    }
}

/// The number of the remote device to ask the server for. Whatever is not a
/// number asks for any device.
pub open spec fn remote_number(s: Seq<char>) -> u32 {
    if s == "any"@ {
        ANY_TUN
    } else {
        match number_u32(without_prefix(s, "tun"@), 10) {
            Ok(n) => n,
            Err(_) => ANY_TUN,
        }
    }
}

/// The number of the remote device to ask the server for.
pub fn remote_tun_number(name: &str) -> (r: u32)
    ensures
        r == remote_number(name@),
{
    if same(name, "any") {
        return ANY_TUN;
    }
    match parse_u32(trim_start_matches(name, "tun").as_str(), 10) {
        Ok(n) => n,
        Err(_) => ANY_TUN,
    }
}

/// An IPv4 address without the length of its prefix.
pub open spec fn bare4(s: Seq<char>) -> Seq<char> {
    without_suffix(s, "/32"@)
}

/// An IPv6 address without the length of its prefix.
pub open spec fn bare6(s: Seq<char>) -> Seq<char> {
    without_suffix(without_suffix(s, "/127"@), "/128"@)
}

/// An IPv4 address without the length of its prefix.
pub fn strip_prefix_len4(s: &str) -> (r: String)
    ensures
        r@ == bare4(s@),
{
    trim_end_matches(s, "/32")
}

/// An IPv6 address without the length of its prefix.
pub fn strip_prefix_len6(s: &str) -> (r: String)
    ensures
        r@ == bare6(s@),
{
    trim_end_matches(trim_end_matches(s, "/127").as_str(), "/128")
}

/// What the next thing to do is.
#[derive(Debug, Clone, PartialEq, Eq)]
pub enum TunAction {
    /// Create the device of this name.
    Create(String),
    /// Run `ip` with these arguments.
    Ip(Vec<String>),
    /// Ask the server for a tunnel in this mode to the device of this number.
    Open(u32, u32),
    /// Wait for so many milliseconds.
    Pause(u64),
    /// Nothing: the tunnel over this device is ready.
    Ready(String),
    /// Nothing: there is no tunnel, and the text says why.
    Fail(String),
}

/// The model of a `TunAction`.
#[verifier::ext_equal]
pub enum TunActionView {
    Create(Seq<char>),
    Ip(Seq<Seq<char>>),
    Open(u32, u32),
    Pause(u64),
    Ready(Seq<char>),
    Fail(Seq<char>),
}

impl View for TunAction {
    type V = TunActionView;

    open spec fn view(&self) -> TunActionView {
        match self {
            TunAction::Create(s) => TunActionView::Create(s@),
            TunAction::Ip(v) => TunActionView::Ip(texts(v@)),
            TunAction::Open(m, n) => TunActionView::Open(*m, *n),
            TunAction::Pause(t) => TunActionView::Pause(*t),
            TunAction::Ready(s) => TunActionView::Ready(s@),
            TunAction::Fail(s) => TunActionView::Fail(s@),
        }
    }
}

/// How an action went.
#[derive(Debug, Clone, PartialEq, Eq)]
pub enum TunOutcome {
    /// It succeeded. The text is the name of a device that was created.
    Done(String),
    /// It failed, for this reason.
    Failed(String),
}

/// The model of a `TunOutcome`.
pub enum TunOutcomeView {
    Done(Seq<char>),
    Failed(Seq<char>),
}

impl View for TunOutcome {
    type V = TunOutcomeView;

    open spec fn view(&self) -> TunOutcomeView {
        match self {
            TunOutcome::Done(s) => TunOutcomeView::Done(s@),
            TunOutcome::Failed(s) => TunOutcomeView::Failed(s@),
        }
    }
}

/// The families of addresses that a device is configured with.
#[derive(Debug, Clone, Copy, PartialEq, Eq, Structural)]
pub enum Family {
    V4,
    V6,
}

/// What is being done.
#[derive(Debug, Clone, PartialEq, Eq)]
pub enum TunStage {
    /// The device is created.
    Create,
    /// A device of the same name is removed.
    Remove,
    /// The device is created after that.
    CreateAgain,
    /// The addresses of the device are replaced.
    Replace(Family),
    /// The addresses are added, as they could not be replaced.
    Add(Family),
    /// The device is switched on.
    Up(Family),
    /// The server is asked, this many times by now.
    Open(u32),
    /// The server has refused this many times, last for this reason.
    Refused(u32, String),
    /// The tunnel is ready.
    Ready,
    /// There is no tunnel, for this reason.
    Lost(String),
}

/// The model of a `TunStage`.
pub enum TunStageView {
    Create,
    Remove,
    CreateAgain,
    Replace(Family),
    Add(Family),
    Up(Family),
    Open(u32),
    Refused(u32, Seq<char>),
    Ready,
    Lost(Seq<char>),
}

impl View for TunStage {
    type V = TunStageView;

    open spec fn view(&self) -> TunStageView {
        match self {
            TunStage::Create => TunStageView::Create,
            TunStage::Remove => TunStageView::Remove,
            TunStage::CreateAgain => TunStageView::CreateAgain,
            TunStage::Replace(f) => TunStageView::Replace(*f),
            TunStage::Add(f) => TunStageView::Add(*f),
            TunStage::Up(f) => TunStageView::Up(*f),
            TunStage::Open(n) => TunStageView::Open(*n),
            TunStage::Refused(n, s) => TunStageView::Refused(*n, s@),
            TunStage::Ready => TunStageView::Ready,
            TunStage::Lost(s) => TunStageView::Lost(s@),
        }
    }
}

/// A tunnel that is being set up.
pub struct TunSetup {
    device: String,
    remote: u32,
    local4: Option<String>,
    remote4: Option<String>,
    local6: Option<String>,
    remote6: Option<String>,
    stage: TunStage,
}

/// The model of a `TunSetup`.
pub struct TunSetupView {
    pub device: Seq<char>,
    pub remote: u32,
    pub local4: Option<Seq<char>>,
    pub remote4: Option<Seq<char>>,
    pub local6: Option<Seq<char>>,
    pub remote6: Option<Seq<char>>,
    pub stage: TunStageView,
}

impl View for TunSetup {
    type V = TunSetupView;

    closed spec fn view(&self) -> TunSetupView {
        TunSetupView {
            device: self.device@,
            remote: self.remote,
            local4: opt_text(self.local4),
            remote4: opt_text(self.remote4),
            local6: opt_text(self.local6),
            remote6: opt_text(self.remote6),
            stage: self.stage@,
        }
    }
}

/// How a tunnel starts to be set up.
pub open spec fn setup_start(
    tun: TunView,
    local4: Option<Seq<char>>,
    remote4: Option<Seq<char>>,
    local6: Option<Seq<char>>,
    remote6: Option<Seq<char>>,
) -> TunSetupView {
    TunSetupView {
        device: device_name(tun.local_tun),
        remote: remote_number(tun.remote_tun),
        local4,
        remote4,
        local6,
        remote6,
        stage: TunStageView::Create,
    }
}

/// An address that is given.
pub open spec fn given(o: Option<Seq<char>>) -> Seq<char> {
    match o {
        Some(s) => s,
        None => seq![],
    }
}

/// The arguments that give a device an address and the address of its peer.
pub open spec fn address_args(s: TunSetupView, verb: Seq<char>, family: Family) -> Seq<Seq<char>> {
    let (local, remote) = match family {
        Family::V4 => (bare4(given(s.local4)) + "/32"@, bare4(given(s.remote4))),
        Family::V6 => (bare6(given(s.local6)) + "/127"@, bare6(given(s.remote6))),
    };
    seq!["addr"@, verb, local, "peer"@, remote, "dev"@, s.device]
}

/// Whether a device gets addresses of a family: both ends must have one.
pub open spec fn configures(s: TunSetupView, family: Family) -> bool {
    match family {
        Family::V4 => s.local4 is Some && s.remote4 is Some,
        Family::V6 => s.local6 is Some && s.remote6 is Some,
    }
}

/// Only what has addresses is being configured, and the attempts at the server
/// stay within their number.
pub open spec fn setup_sound(s: TunSetupView) -> bool {
    match s.stage {
        TunStageView::Replace(f) => configures(s, f),
        TunStageView::Add(f) => configures(s, f),
        TunStageView::Open(n) => 1 <= n <= CHANNEL_ATTEMPTS,
        TunStageView::Refused(n, _) => 1 <= n <= CHANNEL_ATTEMPTS,
        _ => true,
    }
}

/// What to do next.
pub open spec fn setup_action(s: TunSetupView) -> TunActionView {
    match s.stage {
        TunStageView::Create => TunActionView::Create(s.device),
        TunStageView::Remove => TunActionView::Ip(seq!["link"@, "delete"@, s.device]),
        TunStageView::CreateAgain => TunActionView::Create(s.device),
        TunStageView::Replace(f) => TunActionView::Ip(address_args(s, "replace"@, f)),
        TunStageView::Add(f) => TunActionView::Ip(address_args(s, "add"@, f)),
        TunStageView::Up(_) => TunActionView::Ip(seq!["link"@, "set"@, s.device, "up"@]),
        TunStageView::Open(_) => TunActionView::Open(POINT_TO_POINT, s.remote),
        TunStageView::Refused(_, _) => TunActionView::Pause(CHANNEL_PAUSE),
        TunStageView::Ready => TunActionView::Ready(s.device),
        TunStageView::Lost(why) => TunActionView::Fail(why),
    }
}

/// The stage that follows once a device is there and the families before
/// `family` are dealt with.
pub open spec fn configure_from(s: TunSetupView, family: Family) -> TunStageView {
    if family == Family::V4 && configures(s, Family::V4) {
        TunStageView::Replace(Family::V4)
    } else if configures(s, Family::V6) {
        TunStageView::Replace(Family::V6)
    } else {
        TunStageView::Open(1)
    }
}

/// Why there is no device.
pub open spec fn no_device(device: Seq<char>, why: Seq<char>) -> Seq<char> {
    "Failed to create local TUN device '"@ + device + "': "@ + why
}

/// Why there is no channel.
pub open spec fn no_channel(why: Seq<char>) -> Seq<char> {
    "Failed to open tun@openssh.com SSH channel after 5 attempts: Some("@ + why + ")"@
}

/// The stage that follows an outcome.
pub open spec fn stage_after(s: TunSetupView, o: TunOutcomeView) -> TunStageView {
    match s.stage {
        TunStageView::Create => match o {
            TunOutcomeView::Done(_) => configure_from(s, Family::V4),
            TunOutcomeView::Failed(_) => TunStageView::Remove,
        },
        TunStageView::Remove => TunStageView::CreateAgain,
        TunStageView::CreateAgain => match o {
            TunOutcomeView::Done(_) => configure_from(s, Family::V4),
            TunOutcomeView::Failed(why) => TunStageView::Lost(no_device(s.device, why)),
        },
        TunStageView::Replace(f) => match o {
            TunOutcomeView::Done(_) => TunStageView::Up(f),
            TunOutcomeView::Failed(_) => TunStageView::Add(f),
        },
        TunStageView::Add(f) => TunStageView::Up(f),
        TunStageView::Up(f) => match f {
            Family::V4 => configure_from(s, Family::V6),
            Family::V6 => TunStageView::Open(1),
        },
        TunStageView::Open(n) => match o {
            TunOutcomeView::Done(_) => TunStageView::Ready,
            TunOutcomeView::Failed(why) => TunStageView::Refused(n, why),
        },
        TunStageView::Refused(n, why) => if n < CHANNEL_ATTEMPTS {
            TunStageView::Open((n + 1) as u32)
        } else {
            TunStageView::Lost(no_channel(why))
        },
        TunStageView::Ready => TunStageView::Ready,
        TunStageView::Lost(why) => TunStageView::Lost(why),
    }
}

/// The device that is known after an outcome: one that was created has the name
/// that it was given.
pub open spec fn device_after(s: TunSetupView, o: TunOutcomeView) -> Seq<char> {
    match (s.stage, o) {
        (TunStageView::Create, TunOutcomeView::Done(name)) => name,
        (TunStageView::CreateAgain, TunOutcomeView::Done(name)) => name,
        _ => s.device,
    }
}

/// The state that follows an outcome.
pub open spec fn setup_next(s: TunSetupView, o: TunOutcomeView) -> TunSetupView {
    TunSetupView { stage: stage_after(s, o), device: device_after(s, o), ..s }
}

/// The state that follows several outcomes.
pub open spec fn setup_run(s: TunSetupView, outcomes: Seq<TunOutcomeView>) -> TunSetupView
    decreases outcomes.len(),
{
    if outcomes.len() == 0 {
        s
    } else {
        setup_next(setup_run(s, outcomes.drop_last()), outcomes.last())
    }
}

/// Whether there is nothing left to do.
pub open spec fn setup_over(s: TunSetupView) -> bool {
    s.stage is Ready || s.stage is Lost
}

fn text_of(o: &Option<String>) -> (r: String)
    ensures
        r@ == given(opt_text(*o)),
{
    match o {
        Some(s) => copy(s.as_str()),
        None => String::new(),
    }
}

impl TunSetup {
    /// Starts to set a tunnel up.
    pub fn start(
        spec: &TunForwardSpec,
        local_tun_addr: &Option<String>,
        remote_tun_addr: &Option<String>,
        local_tun_addr6: &Option<String>,
        remote_tun_addr6: &Option<String>,
    ) -> (r: TunSetup)
        ensures
            r@ == setup_start(
                spec@,
                opt_text(*local_tun_addr),
                opt_text(*remote_tun_addr),
                opt_text(*local_tun_addr6),
                opt_text(*remote_tun_addr6),
            ),
    {
        TunSetup {
            device: tun_device_name(spec.local_tun.as_str()),
            remote: remote_tun_number(spec.remote_tun.as_str()),
            local4: copy_opt(local_tun_addr),
            remote4: copy_opt(remote_tun_addr),
            local6: copy_opt(local_tun_addr6),
            remote6: copy_opt(remote_tun_addr6),
            stage: TunStage::Create,
        }
    }

    /// Starts to set the tunnel of a configuration up, with its addresses, if it
    /// has one.
    pub fn for_config(config: &ResolvedConfig) -> (r: Option<TunSetup>)
        ensures
            match r {
                Some(s) => config@.tun_forward is Some && s@ == setup_start(
                    config@.tun_forward->0,
                    config@.tun_addrs.local,
                    config@.tun_addrs.remote,
                    config@.tun_addrs.local6,
                    config@.tun_addrs.remote6,
                ),
                None => config@.tun_forward is None,
            },
    {
        match &config.tun_forward {
            Some(spec) => Some(
                TunSetup::start(
                    spec,
                    &config.local_tun_addr,
                    &config.remote_tun_addr,
                    &config.local_tun_addr6,
                    &config.remote_tun_addr6,
                ),
            ),
            None => None,
        }
    }

    fn address_command(&self, verb: &str, family: Family) -> (r: TunAction)
        ensures
            r@ == TunActionView::Ip(address_args(self@, verb@, family)),
    {
        let (local, remote) = match family {
            Family::V4 => {
                let mut local = strip_prefix_len4(text_of(&self.local4).as_str());
                local.append("/32");
                (local, strip_prefix_len4(text_of(&self.remote4).as_str()))
            },
            Family::V6 => {
                let mut local = strip_prefix_len6(text_of(&self.local6).as_str());
                local.append("/127");
                (local, strip_prefix_len6(text_of(&self.remote6).as_str()))
            },
        };
        let args = vec![
            copy("addr"),
            copy(verb),
            local,
            copy("peer"),
            remote,
            copy("dev"),
            copy(self.device.as_str()),
        ];
        assert(texts(args@) =~= address_args(self@, verb@, family));
        TunAction::Ip(args)
    }

    /// What to do next.
    pub fn action(&self) -> (r: TunAction)
        ensures
            r@ == setup_action(self@),
    {
        match &self.stage {
            TunStage::Create => TunAction::Create(copy(self.device.as_str())),
            TunStage::Remove => {
                let args = vec![copy("link"), copy("delete"), copy(self.device.as_str())];
                assert(texts(args@) =~= seq!["link"@, "delete"@, self@.device]);
                TunAction::Ip(args)
            },
            TunStage::CreateAgain => TunAction::Create(copy(self.device.as_str())),
            TunStage::Replace(f) => self.address_command("replace", *f),
            TunStage::Add(f) => self.address_command("add", *f),
            TunStage::Up(_) => {
                let args = vec![copy("link"), copy("set"), copy(self.device.as_str()), copy("up")];
                assert(texts(args@) =~= seq!["link"@, "set"@, self@.device, "up"@]);
                TunAction::Ip(args)
            },
            TunStage::Open(_) => TunAction::Open(POINT_TO_POINT, self.remote),
            TunStage::Refused(_, _) => TunAction::Pause(CHANNEL_PAUSE),
            TunStage::Ready => TunAction::Ready(copy(self.device.as_str())),
            TunStage::Lost(why) => TunAction::Fail(copy(why.as_str())),
        }
    }

    fn configure(&self, family: Family) -> (r: TunStage)
        ensures
            r@ == configure_from(self@, family),
    {
        let v4 = match family {
            Family::V4 => self.local4.is_some() && self.remote4.is_some(),
            Family::V6 => false,
        };
        if v4 {
            TunStage::Replace(Family::V4)
        } else if self.local6.is_some() && self.remote6.is_some() {
            TunStage::Replace(Family::V6)
        } else {
            TunStage::Open(1)
        }
    }

    /// Goes on after the action that was to be done next.
    pub fn advance(&mut self, outcome: TunOutcome)
        ensures
            final(self)@ == setup_next(old(self)@, outcome@),
    {
        let (stage, name) = match (&self.stage, outcome) {
            (TunStage::Create, TunOutcome::Done(name)) => (self.configure(Family::V4), Some(name)),
            (TunStage::Create, TunOutcome::Failed(_)) => (TunStage::Remove, None),
            (TunStage::Remove, _) => (TunStage::CreateAgain, None),
            (TunStage::CreateAgain, TunOutcome::Done(name)) => (
                self.configure(Family::V4),
                Some(name),
            ),
            (TunStage::CreateAgain, TunOutcome::Failed(why)) => {
                let mut text = copy("Failed to create local TUN device '");
                text.append(self.device.as_str());
                text.append("': ");
                text.append(why.as_str());
                (TunStage::Lost(text), None)
            },
            (TunStage::Replace(f), TunOutcome::Done(_)) => (TunStage::Up(*f), None),
            (TunStage::Replace(f), TunOutcome::Failed(_)) => (TunStage::Add(*f), None),
            (TunStage::Add(f), _) => (TunStage::Up(*f), None),
            (TunStage::Up(Family::V4), _) => (self.configure(Family::V6), None),
            (TunStage::Up(Family::V6), _) => (TunStage::Open(1), None),
            (TunStage::Open(_), TunOutcome::Done(_)) => (TunStage::Ready, None),
            (TunStage::Open(n), TunOutcome::Failed(why)) => (TunStage::Refused(*n, why), None),
            (TunStage::Refused(n, why), _) => if *n < CHANNEL_ATTEMPTS {
                (TunStage::Open(*n + 1), None)
            } else {
                let mut text = copy(
                    "Failed to open tun@openssh.com SSH channel after 5 attempts: Some(",
                );
                text.append(why.as_str());
                text.append(")");
                (TunStage::Lost(text), None)
            },
            (TunStage::Ready, _) => (TunStage::Ready, None),
            (TunStage::Lost(why), _) => (TunStage::Lost(copy(why.as_str())), None),
        };
        self.stage = stage;
        if let Some(name) = name {
            self.device = name;
        }
    }
}

/// How many outcomes a setup can still wait for.
pub open spec fn setup_rank(s: TunSetupView) -> int {
    match s.stage {
        TunStageView::Create => 19,
        TunStageView::Remove => 18,
        TunStageView::CreateAgain => 17,
        TunStageView::Replace(Family::V4) => 16,
        TunStageView::Add(Family::V4) => 15,
        TunStageView::Up(Family::V4) => 14,
        TunStageView::Replace(Family::V6) => 13,
        TunStageView::Add(Family::V6) => 12,
        TunStageView::Up(Family::V6) => 11,
        TunStageView::Open(n) => 2 * (CHANNEL_ATTEMPTS - n) + 2,
        TunStageView::Refused(n, _) => 2 * (CHANNEL_ATTEMPTS - n) + 1,
        TunStageView::Ready => 0,
        TunStageView::Lost(_) => 0,
    }
}

/// Whatever the outcomes, a device is configured only with addresses that both
/// ends have, and the server is asked at most five times.
pub proof fn setup_stays_sound(s: TunSetupView, outcomes: Seq<TunOutcomeView>)
    requires
        setup_sound(s),
    ensures
        setup_sound(setup_run(s, outcomes)),
    decreases outcomes.len(),
{
    if outcomes.len() > 0 {
        setup_stays_sound(s, outcomes.drop_last());
    }
}

/// Whatever the outcomes, a setup is over after at most as many as its rank
/// says; a tunnel that starts to be set up is ready or lost after nineteen.
pub proof fn setup_ends(s: TunSetupView, outcomes: Seq<TunOutcomeView>)
    requires
        setup_sound(s),
        outcomes.len() >= setup_rank(s),
    ensures
        setup_over(setup_run(s, outcomes)),
{
    lemma_rank_falls(s, outcomes);
}

proof fn lemma_rank_falls(s: TunSetupView, outcomes: Seq<TunOutcomeView>)
    requires
        setup_sound(s),
    ensures
        setup_over(setup_run(s, outcomes)) || setup_rank(setup_run(s, outcomes)) <= setup_rank(s)
            - outcomes.len(),
        setup_rank(setup_run(s, outcomes)) >= 0,
        setup_rank(setup_run(s, outcomes)) == 0 ==> setup_over(setup_run(s, outcomes)),
    decreases outcomes.len(),
{
    setup_stays_sound(s, outcomes);
    if outcomes.len() > 0 {
        lemma_rank_falls(s, outcomes.drop_last());
        setup_stays_sound(s, outcomes.drop_last());
    }
}

/// A device that cannot be created is removed and created once more; if that
/// fails too, there is no tunnel, and the second reason is reported.
pub proof fn device_is_tried_twice(s: TunSetupView, outcomes: Seq<TunOutcomeView>)
    requires
        s.stage is Create,
        outcomes.len() == 3,
        outcomes[0] is Failed,
    ensures
        setup_action(setup_run(s, outcomes.take(1))) == TunActionView::Ip(
            seq!["link"@, "delete"@, s.device],
        ),
        setup_action(setup_run(s, outcomes.take(2))) == TunActionView::Create(s.device),
        outcomes[2] matches TunOutcomeView::Failed(why) ==> setup_run(s, outcomes).stage
            == TunStageView::Lost(no_device(s.device, why)),
        outcomes[2] matches TunOutcomeView::Done(name) ==> setup_run(s, outcomes).device == name,
{
    lemma_run_step(s, outcomes, 0);
    lemma_run_step(s, outcomes, 1);
    lemma_run_step(s, outcomes, 2);
    assert(outcomes.take(3) == outcomes);
    assert(outcomes.take(0) == Seq::<TunOutcomeView>::empty());
}

proof fn lemma_run_step(s: TunSetupView, outcomes: Seq<TunOutcomeView>, i: int)
    requires
        0 <= i < outcomes.len(),
    ensures
        setup_run(s, outcomes.take(i + 1)) == setup_next(
            setup_run(s, outcomes.take(i)),
            outcomes[i],
        ),
{
    assert(outcomes.take(i + 1).drop_last() == outcomes.take(i));
}

proof fn lemma_refusals(s: TunSetupView, outcomes: Seq<TunOutcomeView>, k: int)
    requires
        s.stage == TunStageView::Open(1),
        0 <= k <= CHANNEL_ATTEMPTS,
        outcomes.len() >= 2 * k,
        forall|i: int| 0 <= i < k ==> #[trigger] outcomes[2 * i] is Failed,
    ensures
        k < CHANNEL_ATTEMPTS ==> setup_run(s, outcomes.take(2 * k)) == (TunSetupView {
            stage: TunStageView::Open((k + 1) as u32),
            ..s
        }),
        k == CHANNEL_ATTEMPTS ==> setup_run(s, outcomes.take(2 * k)).stage == TunStageView::Lost(
            no_channel(outcomes[2 * k - 2]->Failed_0),
        ),
    decreases k,
{
    if k == 0 {
        assert(outcomes.take(0) == Seq::<TunOutcomeView>::empty());
    } else {
        lemma_refusals(s, outcomes, k - 1);
        lemma_run_step(s, outcomes, 2 * (k - 1));
        lemma_run_step(s, outcomes, 2 * (k - 1) + 1);
    }
}

/// The server is asked again after each of its first four refusals, with a pause
/// between. It is enough that it agrees to one of five requests.
pub proof fn channel_opens_after_refusals(s: TunSetupView, outcomes: Seq<TunOutcomeView>, k: int)
    requires
        s.stage == TunStageView::Open(1),
        0 <= k < CHANNEL_ATTEMPTS,
        outcomes.len() == 2 * k + 1,
        forall|i: int| 0 <= i < k ==> #[trigger] outcomes[2 * i] is Failed,
        outcomes[2 * k] is Done,
    ensures
        setup_run(s, outcomes) == (TunSetupView { stage: TunStageView::Ready, ..s }),
{
    lemma_refusals(s, outcomes, k);
    lemma_run_step(s, outcomes, 2 * k);
    assert(outcomes.take(2 * k + 1) == outcomes);
}

/// The fifth refusal, and the pause after it, end the setup; its reason is
/// reported.
pub proof fn fifth_refusal_is_final(s: TunSetupView, outcomes: Seq<TunOutcomeView>)
    requires
        s.stage == TunStageView::Open(1),
        outcomes.len() == 10,
        forall|i: int| 0 <= i < 5 ==> #[trigger] outcomes[2 * i] is Failed,
    ensures
        setup_run(s, outcomes).stage == TunStageView::Lost(no_channel(outcomes[8]->Failed_0)),
{
    lemma_refusals(s, outcomes, 5);
    assert(outcomes.take(10) == outcomes);
}

} // verus!
