use sshtun::auth::{Auth, AuthAction, AuthOutcome};
use sshtun::forward::{DynamicForwardSpec, LocalForwardSpec, RemoteForwardSpec, TunForwardSpec};
use sshtun::hooks::{cleanup_command, name_interface, post_up_hooks, Hook};
use sshtun::host::HostConnectionConfig;
use sshtun::monitor::LinkMonitor;
use sshtun::resolve::ResolvedConfig;
use sshtun::supervisor::RunOutcome::{Done, Failed, Interrupted};
use sshtun::supervisor::{log_level, LogLevel, RunAction, RunOutcome, Supervisor};
use sshtun::tun_setup::{tun_device_name, TunAction, TunOutcome, TunSetup};
use sshtun::tunnels::{connection_hops, plan_tunnels, StartAction, TunnelStart, TunnelStep};

fn some(s: &str) -> Option<String> {
    Some(s.to_string())
}

fn config() -> ResolvedConfig {
    ResolvedConfig {
        host: "h".to_string(),
        hostname: "real".to_string(),
        port: 22,
        user: "me".to_string(),
        identity_files: vec!["/k".to_string()],
        jump_hosts: vec![],
        local_forwards: vec![],
        remote_forwards: vec![],
        dynamic_forwards: vec![],
        tun_forward: None,
        local_tun_addr: None,
        remote_tun_addr: None,
        local_tun_addr6: None,
        remote_tun_addr6: None,
        local_post_up: None,
        remote_post_up: None,
        reconnect_interval: 5,
        keepalive_interval: 10,
        keepalive_max: 3,
        fwmark: None,
    }
}

/// The commands for a device that was created under the name asked for.
fn hooks_for(c: &ResolvedConfig) -> Vec<Hook> {
    let created = c.tun_forward.as_ref().map(|t| tun_device_name(&t.local_tun));
    post_up_hooks(c, &created)
}

fn automatic(id: u16) -> ResolvedConfig {
    let device = format!("tun2222{}", id);
    ResolvedConfig {
        tun_forward: Some(TunForwardSpec {
            local_tun: device.clone(),
            remote_tun: device,
            auto_id: Some(id),
        }),
        local_tun_addr: some("169.254.4.0"),
        remote_tun_addr: some("169.254.4.1/32"),
        local_tun_addr6: some("fd00::"),
        remote_tun_addr6: some("fd00::1/127"),
        ..config()
    }
}

#[test]
fn automatic_tunnels_are_set_up_on_the_server() {
    let hooks = hooks_for(&automatic(1024));
    let setup = "for i in $(seq 1 30); do if ip link show dev tun22221024 >/dev/null 2>&1; then break; fi; sleep 0.1; done; \
        sysctl -w net.ipv4.ip_forward=1 2>/dev/null || true; \
        ip addr add 169.254.4.1/32 peer 169.254.4.0 dev tun22221024 2>/dev/null || true; \
        ip link set dev tun22221024 up 2>/dev/null || true; \
        nft 'add table inet sshtun1024; delete table inet sshtun1024; table inet sshtun1024 { chain prerouting { type filter hook prerouting priority mangle; policy accept; iifname \"tun22221024\" ct state new ct mark set 67108864; iifname != \"tun22221024\" ct mark 67108864 meta mark set ct mark; }; chain output { type route hook output priority mangle; policy accept; ct mark 67108864 meta mark set ct mark; }; chain postrouting { type nat hook postrouting priority srcnat; policy accept; oifname != \"tun22221024\" ip saddr 169.254.4.0 masquerade; }; }'; \
        ip rule del fwmark 67108864/0xffff0000 lookup 1024 2>/dev/null || true; \
        ip rule add fwmark 67108864/0xffff0000 lookup 1024 prio 10000; \
        ip route replace default dev tun22221024 table 1024";
    let setup6 = "ip addr add fd00::1/127 peer fd00:: dev tun22221024 2>/dev/null || true";
    assert_eq!(hooks, vec![Hook::Remote(setup.to_string()), Hook::Remote(setup6.to_string())]);
}

#[test]
fn automatic_tunnels_are_cleaned_up() {
    assert_eq!(
        cleanup_command(&automatic(65535)),
        some(
            "nft 'add table inet sshtun65535; delete table inet sshtun65535' 2>/dev/null || true; \
             ip rule del fwmark 4294901760/0xffff0000 lookup 65535 2>/dev/null || true; \
             ip route del default dev tun222265535 table 65535 2>/dev/null || true; \
             ip link set dev tun222265535 down 2>/dev/null || true"
        )
    );
    assert_eq!(cleanup_command(&config()), None);
    let mut c = automatic(1);
    c.tun_forward.as_mut().unwrap().auto_id = None;
    assert_eq!(cleanup_command(&c), None);
}

#[test]
fn other_tunnels_get_their_address() {
    let mut c = automatic(1);
    c.tun_forward = Some(TunForwardSpec {
        local_tun: "3".to_string(),
        remote_tun: "any".to_string(),
        auto_id: None,
    });
    let text = "ip addr add 169.254.4.1/32 peer 169.254.4.0 dev tun0 2>/dev/null || true; ip link set tun0 up";
    assert_eq!(hooks_for(&c), vec![Hook::Remote(text.to_string())]);
    c.remote_tun_addr = None;
    assert_eq!(hooks_for(&c), vec![]);
}

#[test]
fn commands_of_the_user_come_last() {
    let mut c = automatic(7);
    c.remote_post_up = some("echo %i");
    c.local_post_up = some("ip route add 10.0.0.0/24 dev %i; ip link show %i");
    let hooks = hooks_for(&c);
    assert_eq!(hooks.len(), 4);
    assert_eq!(hooks[2], Hook::Remote("echo tun22227".to_string()));
    let local = "ip route add 10.0.0.0/24 dev tun22227; ip link show tun22227";
    assert_eq!(hooks[3], Hook::Local(local.to_string()));
    c.tun_forward = Some(TunForwardSpec {
        local_tun: "0".to_string(),
        remote_tun: "tun8".to_string(),
        auto_id: None,
    });
    c.remote_tun_addr = None;
    let expected = vec![
        Hook::Remote("echo tun8".to_string()),
        Hook::Local("ip route add 10.0.0.0/24 dev tun0; ip link show tun0".to_string()),
    ];
    assert_eq!(hooks_for(&c), expected);
    // Without a tunnel there is nothing to put in.
    c.tun_forward = None;
    c.local_post_up = None;
    assert_eq!(hooks_for(&c), vec![Hook::Remote("echo %i".to_string())]);
}

#[test]
fn setup_takes_the_addresses_of_the_configuration() {
    assert!(TunSetup::for_config(&config()).is_none());
    let mut s = TunSetup::for_config(&automatic(1024)).unwrap();
    assert_eq!(s.action(), TunAction::Create("tun22221024".to_string()));
    s.advance(TunOutcome::Done("tun22221024".to_string()));
    let ip = |args: &str| TunAction::Ip(args.split(' ').map(|a| a.to_string()).collect());
    let v4 = "addr replace 169.254.4.0/32 peer 169.254.4.1 dev tun22221024";
    assert_eq!(s.action(), ip(v4));
    s.advance(TunOutcome::Done(String::new()));
    s.advance(TunOutcome::Done(String::new()));
    assert_eq!(s.action(), ip("addr replace fd00::/127 peer fd00::1 dev tun22221024"));
    s.advance(TunOutcome::Done(String::new()));
    s.advance(TunOutcome::Done(String::new()));
    assert_eq!(s.action(), TunAction::Open(1, 22221024));
}

#[test]
fn placeholder_is_the_device_that_was_created() {
    let mut c = config();
    c.tun_forward = Some(TunForwardSpec {
        local_tun: "tun%d".to_string(),
        remote_tun: "3".to_string(),
        auto_id: None,
    });
    c.local_post_up = some("ip link show %i");
    c.remote_post_up = some("ip link show %i");
    let mut s = TunSetup::start(c.tun_forward.as_ref().unwrap(), &None, &None, &None, &None);
    assert_eq!(s.action(), TunAction::Create("tun%d".to_string()));
    s.advance(TunOutcome::Done("tun5".to_string()));
    s.advance(TunOutcome::Done(String::new()));
    let created = match s.action() {
        TunAction::Ready(device) => Some(device),
        action => panic!("{:?}", action),
    };
    let expected = vec![
        Hook::Remote("ip link show tun3".to_string()),
        Hook::Local("ip link show tun5".to_string()),
    ];
    assert_eq!(post_up_hooks(&c, &created), expected);
    // Without a device there is nothing to put in.
    c.remote_post_up = None;
    assert_eq!(post_up_hooks(&c, &None), vec![Hook::Local("ip link show %i".to_string())]);
}

#[test]
fn placeholders_are_replaced_from_the_left() {
    assert_eq!(name_interface("%i%i%", "tun1"), "tun1tun1%");
    assert_eq!(name_interface("%%i", "tun1"), "%tun1");
    assert_eq!(name_interface("no % i", "tun1"), "no % i");
    assert_eq!(name_interface("", "tun1"), "");
    for text in ["%i%i%", "%%ii", "i%i", "%", "a%ib%i"] {
        assert_eq!(name_interface(text, "tun1"), text.replace("%i", "tun1"));
    }
}

#[test]
fn link_is_dead_after_failures_in_a_row() {
    let mut m = LinkMonitor::new(3);
    for answered in [false, false, true, false, false] {
        assert!(!m.record(answered));
    }
    assert_eq!(m.failures(), 2);
    assert!(m.record(false));
    let mut m = LinkMonitor::new(1);
    assert!(!m.record(true));
    assert!(m.record(false));
    let mut m = LinkMonitor::new(0);
    assert!(m.record(true));
}

#[test]
fn keys_come_before_the_agent() {
    let keys = vec!["/a".to_string(), "/b".to_string()];
    let mut a = Auth::start("me", &keys);
    assert_eq!(a.action(), AuthAction::TryKey("/a".to_string()));
    a.advance(AuthOutcome::Refused);
    assert_eq!(a.action(), AuthAction::TryKey("/b".to_string()));
    a.advance(AuthOutcome::Refused);
    assert_eq!(a.action(), AuthAction::AskAgent);
    a.advance(AuthOutcome::Identities(2));
    assert_eq!(a.action(), AuthAction::TryIdentity(0));
    a.advance(AuthOutcome::Refused);
    assert_eq!(a.action(), AuthAction::TryIdentity(1));
    let mut b = Auth::start("me", &keys);
    b.advance(AuthOutcome::Refused);
    b.advance(AuthOutcome::Accepted);
    assert_eq!(b.action(), AuthAction::Succeed);
    b.advance(AuthOutcome::Refused);
    assert_eq!(b.action(), AuthAction::Succeed);
    a.advance(AuthOutcome::Accepted);
    assert_eq!(a.action(), AuthAction::Succeed);
}

#[test]
fn refused_users_are_told_so() {
    let why = "Failed to authenticate SSH user 'me'. No valid identity keys or agent auth succeeded.";
    let mut a = Auth::start("me", &vec![]);
    assert_eq!(a.action(), AuthAction::AskAgent);
    a.advance(AuthOutcome::Refused);
    assert_eq!(a.action(), AuthAction::Fail(why.to_string()));
    let mut a = Auth::start("me", &vec![]);
    a.advance(AuthOutcome::Identities(1));
    a.advance(AuthOutcome::Refused);
    assert_eq!(a.action(), AuthAction::Fail(why.to_string()));
    a.advance(AuthOutcome::Accepted);
    assert_eq!(a.action(), AuthAction::Fail(why.to_string()));
}

#[test]
fn tunnels_start_in_order() {
    let local = LocalForwardSpec {
        bind_addr: "a".to_string(),
        bind_port: 1,
        target_host: "b".to_string(),
        target_port: 2,
    };
    let remote = RemoteForwardSpec {
        bind_addr: "a".to_string(),
        bind_port: 1,
        target_host: "b".to_string(),
        target_port: 2,
    };
    let dynamic = DynamicForwardSpec { bind_addr: "a".to_string(), bind_port: 1 };
    let c = ResolvedConfig {
        local_forwards: vec![local.clone(), local],
        remote_forwards: vec![remote.clone(), remote],
        dynamic_forwards: vec![dynamic],
        ..automatic(1)
    };
    let expected = vec![
        TunnelStep::Local(0),
        TunnelStep::Local(1),
        TunnelStep::Dynamic(0),
        TunnelStep::Register(0),
        TunnelStep::Register(1),
        TunnelStep::ServeRemote,
        TunnelStep::Tun,
    ];
    assert_eq!(plan_tunnels(&c), expected);
    assert_eq!(plan_tunnels(&config()), vec![]);
}

#[test]
fn first_failure_ends_the_start() {
    let local = LocalForwardSpec {
        bind_addr: "a".to_string(),
        bind_port: 1,
        target_host: "b".to_string(),
        target_port: 2,
    };
    let c = ResolvedConfig { local_forwards: vec![local], ..automatic(1) };
    let mut s = TunnelStart::begin(&c);
    assert_eq!(s.action(), StartAction::Take(TunnelStep::Local(0)));
    s.advance(None);
    assert_eq!(s.action(), StartAction::Take(TunnelStep::Tun));
    s.advance(some("no device"));
    assert_eq!(s.action(), StartAction::Fail("no device".to_string()));
    s.advance(None);
    assert_eq!(s.action(), StartAction::Fail("no device".to_string()));
    let mut s = TunnelStart::begin(&c);
    s.advance(None);
    s.advance(None);
    assert_eq!(s.action(), StartAction::Started);
    assert_eq!(TunnelStart::begin(&config()).action(), StartAction::Started);
}

#[test]
fn target_is_the_last_hop() {
    let jump = HostConnectionConfig {
        host: "j".to_string(),
        hostname: "gate".to_string(),
        port: 2222,
        user: "you".to_string(),
        identity_files: vec![],
    };
    let c = ResolvedConfig { jump_hosts: vec![jump.clone()], ..config() };
    let hops = connection_hops(&c);
    assert_eq!(hops.len(), 2);
    assert_eq!(hops[0], jump);
    assert_eq!((hops[1].hostname.as_str(), hops[1].user.as_str(), hops[1].port), ("real", "me", 22));
    assert_eq!(hops[1].identity_files, vec!["/k"]);
}

fn play(s: &mut Supervisor, outcomes: &[RunOutcome]) -> Vec<RunAction> {
    let mut actions = vec![];
    for o in outcomes {
        actions.push(s.action());
        s.advance(*o);
    }
    actions.push(s.action());
    actions
}

#[test]
fn lost_links_are_made_again() {
    let mut s = Supervisor::start(&config());
    assert_eq!(
        play(&mut s, &[Failed, Done, Done, Failed, Done, Done, Done, Failed, Failed, Done]),
        vec![
            RunAction::Connect,
            RunAction::Wait(5),
            RunAction::Connect,
            RunAction::StartTunnels,
            RunAction::Wait(5),
            RunAction::Connect,
            RunAction::StartTunnels,
            RunAction::RunHooks,
            RunAction::Watch,
            RunAction::Wait(5),
            RunAction::Connect,
        ]
    );
    let mut s = Supervisor::start(&automatic(9));
    assert_eq!(
        play(&mut s, &[Done, Done, Failed, Done, Failed, Failed, Done])[3..],
        [
            RunAction::Watch,
            RunAction::Clean(2),
            RunAction::RemoveDevice("tun22229".to_string()),
            RunAction::Wait(5),
            RunAction::Connect,
        ]
    );
}

#[test]
fn interrupts_end_the_run() {
    let mut s = Supervisor::start(&config());
    let actions = play(&mut s, &[Done, Done, Done, Interrupted, Done]);
    assert_eq!(actions[4..], [RunAction::Exit(0), RunAction::Exit(0)]);
    let mut s = Supervisor::start(&automatic(9));
    let actions = play(&mut s, &[Done, Done, Done, Interrupted, Failed, Failed]);
    assert_eq!(
        actions[4..],
        [
            RunAction::LastClean(4),
            RunAction::RemoveDevice("tun22229".to_string()),
            RunAction::Exit(0),
        ]
    );
    let mut s = Supervisor::start(&automatic(9));
    let actions = play(&mut s, &[Done, Done, Done, Interrupted, Interrupted]);
    assert_eq!(actions[4..], [RunAction::LastClean(4), RunAction::Exit(130)]);
}

#[test]
fn more_is_logged_when_asked_for() {
    assert_eq!(log_level(0), LogLevel::Info);
    assert_eq!(log_level(1), LogLevel::Debug);
    assert_eq!(log_level(2), LogLevel::Trace);
    assert_eq!(log_level(255), LogLevel::Trace);
}
