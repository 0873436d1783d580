use sshtun::addr::{format_ipv4, format_ipv6};
use sshtun::forward::{RemoteForwardSpec, TunForwardSpec};
use sshtun::frame::{frame_packet, relay_inbound, relay_outbound, RelayStep};
use sshtun::socks::{SocksAction, SocksOutcome, SocksSession};
use sshtun::tun_setup::{
    remote_tun_number, strip_prefix_len4, strip_prefix_len6, tun_device_name, TunAction,
    TunOutcome, TunSetup,
};
use sshtun::tunnels::{endpoint, registration_failure, route_incoming, TunnelExit};

fn some(s: &str) -> Option<String> {
    Some(s.to_string())
}

fn done(s: &str) -> TunOutcome {
    TunOutcome::Done(s.to_string())
}

fn failed(s: &str) -> TunOutcome {
    TunOutcome::Failed(s.to_string())
}

fn ip(args: &str) -> TunAction {
    TunAction::Ip(args.split(' ').map(|s| s.to_string()).collect())
}

fn spec(local: &str, remote: &str) -> TunForwardSpec {
    TunForwardSpec { local_tun: local.to_string(), remote_tun: remote.to_string(), auto_id: None }
}

#[test]
fn devices_have_full_names() {
    assert_eq!(tun_device_name("any"), "tun0");
    assert_eq!(tun_device_name("3"), "tun3");
    assert_eq!(tun_device_name("tun3"), "tun3");
    assert_eq!(remote_tun_number("any"), 0x7fffffff);
    assert_eq!(remote_tun_number("3"), 3);
    assert_eq!(remote_tun_number("tun22221024"), 22221024);
    assert_eq!(remote_tun_number("tuntun4"), 4);
    assert_eq!(remote_tun_number("eth0"), 0x7fffffff);
    assert_eq!(strip_prefix_len4("10.0.0.1/32"), "10.0.0.1");
    assert_eq!(strip_prefix_len4("10.0.0.1/24"), "10.0.0.1/24");
    assert_eq!(strip_prefix_len6("fd00::1/127"), "fd00::1");
    assert_eq!(strip_prefix_len6("fd00::1/128/127"), "fd00::1");
    assert_eq!(strip_prefix_len6("fd00::1/127/128"), "fd00::1/127");
}

#[test]
fn setup_goes_through_both_families() {
    let mut s = TunSetup::start(
        &spec("3", "any"),
        &some("10.0.0.1/32"),
        &some("10.0.0.2"),
        &some("fd00::1/127"),
        &some("fd00::2/128"),
    );
    assert_eq!(s.action(), TunAction::Create("tun3".to_string()));
    s.advance(done("tun9"));
    assert_eq!(s.action(), ip("addr replace 10.0.0.1/32 peer 10.0.0.2 dev tun9"));
    s.advance(failed("exit status: 2"));
    assert_eq!(s.action(), ip("addr add 10.0.0.1/32 peer 10.0.0.2 dev tun9"));
    s.advance(failed("exit status: 2"));
    assert_eq!(s.action(), ip("link set tun9 up"));
    s.advance(failed("no ip"));
    assert_eq!(s.action(), ip("addr replace fd00::1/127 peer fd00::2 dev tun9"));
    s.advance(done(""));
    assert_eq!(s.action(), ip("link set tun9 up"));
    s.advance(done(""));
    assert_eq!(s.action(), TunAction::Open(1, 0x7fffffff));
    s.advance(done(""));
    assert_eq!(s.action(), TunAction::Ready("tun9".to_string()));
    s.advance(failed("late"));
    assert_eq!(s.action(), TunAction::Ready("tun9".to_string()));
}

#[test]
fn setup_needs_both_addresses_of_a_family() {
    let mut s = TunSetup::start(&spec("tun1", "2"), &some("10.0.0.1"), &None, &None, &some("fd00::2"));
    s.advance(done("tun1"));
    assert_eq!(s.action(), TunAction::Open(1, 2));
    let mut s = TunSetup::start(&spec("tun1", "2"), &None, &None, &some("fd00::1"), &some("fd00::2"));
    s.advance(done("tun1"));
    assert_eq!(s.action(), ip("addr replace fd00::1/127 peer fd00::2 dev tun1"));
    s.advance(failed(""));
    assert_eq!(s.action(), ip("addr add fd00::1/127 peer fd00::2 dev tun1"));
}

#[test]
fn device_that_is_in_the_way_is_removed() {
    let mut s = TunSetup::start(&spec("any", "any"), &None, &None, &None, &None);
    s.advance(failed("busy"));
    assert_eq!(s.action(), ip("link delete tun0"));
    s.advance(failed("gone"));
    assert_eq!(s.action(), TunAction::Create("tun0".to_string()));
    s.advance(failed("still busy"));
    let why = "Failed to create local TUN device 'tun0': still busy".to_string();
    assert_eq!(s.action(), TunAction::Fail(why));
}

#[test]
fn server_is_asked_five_times() {
    let mut s = TunSetup::start(&spec("1", "1"), &None, &None, &None, &None);
    s.advance(done("tun1"));
    for n in 1..=5 {
        assert_eq!(s.action(), TunAction::Open(1, 1));
        s.advance(failed(&format!("refusal {}", n)));
        assert_eq!(s.action(), TunAction::Pause(1000));
        s.advance(done(""));
    }
    let why =
        "Failed to open tun@openssh.com SSH channel after 5 attempts: Some(refusal 5)".to_string();
    assert_eq!(s.action(), TunAction::Fail(why));
    let mut s = TunSetup::start(&spec("1", "1"), &None, &None, &None, &None);
    s.advance(done("tun1"));
    for _ in 1..=4 {
        s.advance(failed(""));
        s.advance(done(""));
    }
    s.advance(done(""));
    assert_eq!(s.action(), TunAction::Ready("tun1".to_string()));
}

#[test]
fn packets_are_framed_by_version() {
    assert_eq!(frame_packet(&vec![0x45, 1, 2]), vec![0, 0, 0, 2, 0x45, 1, 2]);
    assert_eq!(frame_packet(&vec![0x60, 1]), vec![0, 0, 0, 10, 0x60, 1]);
    assert_eq!(frame_packet(&vec![0xff]), vec![0, 0, 0, 2, 0xff]);
}

#[test]
fn packets_survive_the_channel() {
    for packet in [vec![0x45u8], vec![0x6f, 0, 1, 2, 3], vec![0; 1500]] {
        let frame = match relay_outbound(&Some(packet.clone())) {
            RelayStep::Write(frame) => frame,
            step => panic!("{:?}", step),
        };
        assert_eq!(frame.len(), packet.len() + 4);
        assert_eq!(relay_inbound(&Some(frame)), RelayStep::Write(packet));
    }
}

#[test]
fn relays_stop_and_skip() {
    assert_eq!(relay_outbound(&None), RelayStep::Stop);
    assert_eq!(relay_outbound(&Some(vec![])), RelayStep::Stop);
    assert_eq!(relay_inbound(&None), RelayStep::Stop);
    assert_eq!(relay_inbound(&Some(vec![])), RelayStep::Stop);
    assert_eq!(relay_inbound(&Some(vec![0, 0, 0, 2])), RelayStep::Skip);
    assert_eq!(relay_inbound(&Some(vec![0, 0, 0, 2, 9])), RelayStep::Write(vec![9]));
}

/// Plays a client that sends `input`; returns the action that the conversation
/// stops at, and what the client was sent.
fn converse(s: &mut SocksSession, input: &[u8]) -> (SocksAction, Vec<u8>) {
    let mut input = input.to_vec();
    let mut output = vec![];
    loop {
        match s.action() {
            SocksAction::Read(n) => {
                if input.len() < n {
                    s.advance(SocksOutcome::Failed);
                } else {
                    let rest = input.split_off(n);
                    s.advance(SocksOutcome::Bytes(input));
                    input = rest;
                }
            }
            SocksAction::Write(bytes) => {
                output.extend(bytes);
                s.advance(SocksOutcome::Done);
            }
            action => return (action, output),
        }
    }
}

fn dial(host: &str, port: u16) -> SocksAction {
    SocksAction::Dial(host.to_string(), port)
}

#[test]
fn clients_get_what_they_ask_for() {
    let mut s = SocksSession::new();
    let input = [5, 2, 0, 2, 5, 1, 0, 1, 10, 0, 0, 7, 0x1f, 0x90];
    assert_eq!(converse(&mut s, &input), (dial("10.0.0.7", 8080), vec![5, 0]));
    s.advance(SocksOutcome::Done);
    assert_eq!(converse(&mut s, &[]), (SocksAction::Relay, vec![5, 0, 0, 1, 0, 0, 0, 0, 0, 0]));
    s.advance(SocksOutcome::Done);
    assert_eq!(s.action(), SocksAction::Close);

    let mut s = SocksSession::new();
    let mut input = vec![5, 0, 5, 1, 0, 3, 11];
    input.extend(b"example.com");
    input.extend([0, 80]);
    assert_eq!(converse(&mut s, &input), (dial("example.com", 80), vec![5, 0]));
    s.advance(SocksOutcome::Failed);
    assert_eq!(converse(&mut s, &[]), (SocksAction::Close, vec![5, 5, 0, 1, 0, 0, 0, 0, 0, 0]));

    let mut s = SocksSession::new();
    let mut input = vec![5, 1, 0, 5, 1, 0, 4, 0xfd];
    input.extend([0; 14]);
    input.extend([1, 1, 187]);
    assert_eq!(converse(&mut s, &input), (dial("fd00::1", 443), vec![5, 0]));
}

#[test]
fn names_that_are_not_utf8_are_mended() {
    let mut s = SocksSession::new();
    let input = [5, 1, 0, 5, 1, 0, 3, 3, b'a', 0xff, b'b', 0, 80];
    assert_eq!(converse(&mut s, &input), (dial("a\u{fffd}b", 80), vec![5, 0]));
    let mut s = SocksSession::new();
    let input = [5, 1, 0, 5, 1, 0, 3, 2, 0xc3, 0xa9, 0, 80];
    assert_eq!(converse(&mut s, &input), (dial("\u{e9}", 80), vec![5, 0]));
}

#[test]
fn other_requests_are_denied() {
    let denied = vec![5, 0, 5, 7, 0, 1, 0, 0, 0, 0, 0, 0];
    for header in [[5, 2, 0, 1], [4, 1, 0, 1], [5, 3, 0, 9]] {
        let mut input = vec![5, 1, 0];
        input.extend(header);
        assert_eq!(converse(&mut SocksSession::new(), &input), (SocksAction::Close, denied.clone()));
    }
    let unknown = [5, 1, 0, 5, 1, 0, 2];
    assert_eq!(converse(&mut SocksSession::new(), &unknown), (SocksAction::Close, vec![5, 0]));
    assert_eq!(converse(&mut SocksSession::new(), &[4, 1]), (SocksAction::Close, vec![]));
}

#[test]
fn clients_that_go_away_are_left() {
    let full = [5, 1, 0, 5, 1, 0, 1, 10, 0, 0, 7, 0x1f, 0x90];
    for n in 0..full.len() {
        let (action, _) = converse(&mut SocksSession::new(), &full[..n]);
        assert_eq!(action, SocksAction::Close);
    }
    let mut s = SocksSession::new();
    s.advance(SocksOutcome::Bytes(vec![5, 1]));
    s.advance(SocksOutcome::Bytes(vec![0]));
    s.advance(SocksOutcome::Failed);
    assert_eq!(s.action(), SocksAction::Close);
    let mut s = SocksSession::new();
    s.advance(SocksOutcome::Bytes(vec![5]));
    assert_eq!(s.action(), SocksAction::Close);
}

#[test]
fn addresses_have_canonical_texts() {
    let v6 = |groups: [u16; 8]| {
        let octets: Vec<u8> = groups.iter().flat_map(|g| g.to_be_bytes()).collect();
        format_ipv6(&octets)
    };
    assert_eq!(format_ipv4(127, 0, 0, 1), "127.0.0.1");
    assert_eq!(v6([0; 8]), "::");
    assert_eq!(v6([0, 0, 0, 0, 0, 0, 0, 1]), "::1");
    assert_eq!(v6([0xfe80, 0, 0, 0, 0, 0, 0, 0]), "fe80::");
    assert_eq!(v6([0x2001, 0xdb8, 0, 0, 1, 0, 0, 1]), "2001:db8::1:0:0:1");
    assert_eq!(v6([0x2001, 0, 0, 1, 0, 0, 0, 1]), "2001:0:0:1::1");
    assert_eq!(v6([1, 0, 2, 3, 4, 5, 6, 7]), "1:0:2:3:4:5:6:7");
    assert_eq!(v6([0, 0, 0, 0, 0, 0xffff, 0x0a00, 0x0001]), "::ffff:10.0.0.1");
    assert_eq!(v6([0, 0, 0, 0, 0, 0, 0x0a00, 0x0001]), "::a00:1");
    assert_eq!(v6([0xabcd, 1, 2, 3, 4, 5, 6, 0xffff]), "abcd:1:2:3:4:5:6:ffff");
}

#[test]
fn connections_go_to_the_first_forwarding_of_their_port() {
    let remote = |bind_port: u16, target: &str, target_port: u16| RemoteForwardSpec {
        bind_addr: "0.0.0.0".to_string(),
        bind_port,
        target_host: target.to_string(),
        target_port,
    };
    let specs = vec![remote(1, "a", 11), remote(2, "b", 22), remote(2, "c", 33)];
    assert_eq!(route_incoming(&specs, 2), some("b:22"));
    assert_eq!(route_incoming(&specs, 1), some("a:11"));
    assert_eq!(route_incoming(&specs, 3), None);
    assert_eq!(route_incoming(&specs, 0x10001), None);
    assert_eq!(endpoint("fd00::1", 65535), "fd00::1:65535");
}

#[test]
fn ends_of_tunnels_are_told_in_words() {
    let why = || "why".to_string();
    assert_eq!(TunnelExit::Local(why()).message(), "Local forward error: why");
    assert_eq!(TunnelExit::Dynamic(why()).message(), "Dynamic forward error: why");
    assert_eq!(TunnelExit::Remote.message(), "Remote forward incoming channel closed");
    assert_eq!(TunnelExit::Tun(why()).message(), "TUN forward error: why");
    assert_eq!(TunnelExit::TunEnded.message(), "TUN forward ended");
    assert_eq!(
        registration_failure(2222, "no"),
        "Remote forward request failed for port 2222: no"
    );
}
