use sshtun::auto_tun::{
    assign_auto_tun, assign_auto_tun_ipv6, derive_auto_tun_ipv6, format_link_local,
    generate_auto_tun_id, get_local_device_info, get_local_network_info,
};
use sshtun::facts::{Answer, ConfigFile, Facts, Question};
use sshtun::forward::ConfigError;
use sshtun::host::{resolve_host_config, split_destination};
use sshtun::number::IntError;
use sshtun::resolve::{list_jumps, CliArgs, ResolveError, ResolvedConfig};

fn texts(v: &[&str]) -> Vec<String> {
    v.iter().map(|s| s.to_string()).collect()
}

fn some(s: &str) -> Option<String> {
    Some(s.to_string())
}

fn answer<T>(name: &str, value: T) -> Answer<T> {
    Answer { name: name.to_string(), value }
}

/// A machine with this configuration of the user and nothing else.
fn machine(config: &str) -> Facts {
    let mut facts = Facts::new(some("/home/me"));
    facts.config_files.push(answer(
        "/home/me/.ssh/config",
        ConfigFile {
            canonical: "/home/me/.ssh/config".to_string(),
            lines: Some(config.lines().map(|l| l.to_string()).collect()),
        },
    ));
    for key in ["id_ed25519", "id_rsa", "id_ecdsa", "id_dsa"] {
        facts.presences.push(answer(&format!("/home/me/.ssh/{}", key), false));
    }
    for path in ["/etc/machine-id", "/var/lib/dbus/machine-id", "/etc/hostname", "/proc/net/route"] {
        facts.documents.push(answer(path, None));
    }
    facts.variables.push(answer("HOSTNAME", None));
    facts.variables.push(answer("USER", None));
    facts
}

fn args(destination: &str) -> CliArgs {
    CliArgs {
        destination: destination.to_string(),
        port: None,
        identity: vec![],
        local_forwards: vec![],
        remote_forwards: vec![],
        dynamic_forwards: vec![],
        tun_forward: None,
        jump_hosts: vec![],
        local_tun_addr: None,
        remote_tun_addr: None,
        local_tun_addr6: None,
        remote_tun_addr6: None,
        local_post_up: None,
        remote_post_up: None,
        no_shell: true,
        reconnect_interval: 5,
        keepalive_interval: 10,
        keepalive_max: 3,
        fwmark: None,
        verbose: 0,
    }
}

#[test]
fn destinations_are_split() {
    let split = |s: &str, p: Option<u16>| split_destination(s, p);
    assert_eq!(split("me@host:2222", None), (some("me"), "host".to_string(), Some(2222)));
    assert_eq!(split("me@host:2222", Some(22)), (some("me"), "host".to_string(), Some(22)));
    assert_eq!(split("host", None), (None, "host".to_string(), None));
    assert_eq!(split("host:x", Some(1)), (None, "host:x".to_string(), Some(1)));
    assert_eq!(split("fd00::1:22", None), (None, "fd00::1".to_string(), Some(22)));
    assert_eq!(split("a@b@c", None), (some("a"), "b@c".to_string(), None));
}

#[test]
fn command_line_comes_before_configuration() {
    let facts = machine("Host h\nHostName real\nUser conf\nPort 2200");
    let h = resolve_host_config("me@h:23", None, &vec![], &facts).unwrap();
    assert_eq!((h.host.as_str(), h.hostname.as_str()), ("h", "real"));
    assert_eq!((h.user.as_str(), h.port), ("me", 23));
    let h = resolve_host_config("h", None, &vec![], &facts).unwrap();
    assert_eq!((h.user.as_str(), h.port), ("conf", 2200));
    let h = resolve_host_config("h", Some(24), &vec![], &facts).unwrap();
    assert_eq!(h.port, 24);
    let h = resolve_host_config("other", None, &vec![], &facts).unwrap();
    assert_eq!((h.hostname.as_str(), h.user.as_str(), h.port), ("other", "root", 22));
}

#[test]
fn identity_files_fall_back() {
    let mut facts = machine("Host h\nIdentityFile ~/k1 /k2");
    // Those of the command line need not be there.
    let h = resolve_host_config("h", None, &texts(&["/nowhere"]), &facts).unwrap();
    assert_eq!(h.identity_files, vec!["/nowhere"]);
    // Those of the configuration must be.
    let r = resolve_host_config("h", None, &vec![], &facts);
    assert_eq!(r, Err(Question::Presence("/home/me/k1".to_string())));
    facts.presences.push(answer("/home/me/k1", false));
    facts.presences.push(answer("/k2", true));
    let h = resolve_host_config("h", None, &vec![], &facts).unwrap();
    assert_eq!(h.identity_files, vec!["/k2"]);
    // The default ones are tried in order.
    facts.presences.insert(0, answer("/home/me/.ssh/id_rsa", true));
    facts.presences.insert(0, answer("/home/me/.ssh/id_ed25519", true));
    let h = resolve_host_config("other", None, &vec![], &facts).unwrap();
    assert_eq!(h.identity_files, vec!["/home/me/.ssh/id_ed25519", "/home/me/.ssh/id_rsa"]);
    let h = resolve_host_config("h", None, &vec![], &facts).unwrap();
    assert_eq!(h.identity_files, vec!["/k2"]);
}

#[test]
fn identity_files_under_a_tilde_are_looked_for_at_home() {
    let mut facts = machine("Host h\nIdentityFile ~");
    facts.presences.push(answer("~", false));
    facts.presences.push(answer("/home/me/", true));
    let h = resolve_host_config("h", None, &vec![], &facts).unwrap();
    assert_eq!(h.identity_files, vec!["/home/me/"]);
    // A home directory may itself be under one.
    let mut facts = Facts::new(some("~/me"));
    facts.config_files.push(answer(
        "~/me/.ssh/config",
        ConfigFile {
            canonical: "/c".to_string(),
            lines: Some(texts(&["IdentityFile ~/key/", "User u"])),
        },
    ));
    facts.presences.push(answer("~/me/key/", false));
    let r = resolve_host_config("h", None, &vec![], &facts);
    assert_eq!(r, Err(Question::Presence("~/me/me/key".to_string())));
    facts.presences.push(answer("~/me/me/key", true));
    let h = resolve_host_config("h", None, &vec![], &facts).unwrap();
    assert_eq!(h.identity_files, vec!["~/me/me/key"]);
}

#[test]
fn machine_without_home_has_no_configuration() {
    let mut facts = Facts::new(None);
    let r = resolve_host_config("h", None, &vec![], &facts);
    assert_eq!(r, Err(Question::Variable("USER".to_string())));
    facts.variables.push(answer("USER", some("me")));
    let h = resolve_host_config("h", None, &vec![], &facts).unwrap();
    assert_eq!((h.user.as_str(), h.port, h.identity_files.len()), ("me", 22, 0));
}

#[test]
fn device_is_told_by_the_first_source() {
    let mut facts = Facts::new(None);
    assert_eq!(get_local_device_info(&facts), Err(Question::Document("/etc/machine-id".to_string())));
    facts.documents.push(answer("/etc/machine-id", some("  \n")));
    facts.documents.push(answer("/var/lib/dbus/machine-id", None));
    facts.documents.push(answer("/etc/hostname", some(" box\n")));
    assert_eq!(get_local_device_info(&facts), Ok("box".to_string()));
    facts.documents[2].value = None;
    assert_eq!(get_local_device_info(&facts), Err(Question::Variable("HOSTNAME".to_string())));
    facts.variables.push(answer("HOSTNAME", some("named")));
    assert_eq!(get_local_device_info(&facts), Ok("named".to_string()));
    facts.variables[0].value = some(" ");
    facts.variables.push(answer("USER", some("me")));
    assert_eq!(get_local_device_info(&facts), Ok("me".to_string()));
    facts.variables[1].value = None;
    assert_eq!(get_local_device_info(&facts), Ok("localhost".to_string()));
}

#[test]
fn network_is_told_by_the_default_route() {
    let table = "Iface\tDestination\tGateway\nlo\t0000007F\t00000000\neth0\t00000000\t0100A8C0\t3\nwlan0\t00000000\t1\n";
    let mut facts = Facts::new(None);
    facts.documents.push(answer("/proc/net/route", some(table)));
    let path = "/sys/class/net/eth0/address";
    assert_eq!(get_local_network_info(&facts), Err(Question::Document(path.to_string())));
    facts.documents.push(answer(path, some("aa:bb:cc:dd:ee:ff\n")));
    assert_eq!(get_local_network_info(&facts), Ok("eth0:0100A8C0:aa:bb:cc:dd:ee:ff".to_string()));
    facts.documents[1].value = None;
    assert_eq!(get_local_network_info(&facts), Ok("eth0:0100A8C0:".to_string()));
    facts.documents[0].value = None;
    assert_eq!(get_local_network_info(&facts), Ok(String::new()));
}

#[test]
fn identifier_comes_from_the_digest() {
    let mut facts = machine("");
    let expected = (423, "169.254.1.167".to_string(), "169.254.1.168".to_string());
    assert_eq!(generate_auto_tun_id("example.com", 22, &facts), Ok(expected));
    facts.documents.insert(0, answer("/etc/machine-id", some("box\n")));
    facts.documents.insert(0, answer("/proc/net/route", some("head\neth0 00000000 0100A8C0\n")));
    facts.documents.push(answer("/sys/class/net/eth0/address", some("aa:bb:cc:dd:ee:ff\n")));
    let expected = (62395, "169.254.243.187".to_string(), "169.254.243.188".to_string());
    assert_eq!(generate_auto_tun_id("example.com", 22, &facts), Ok(expected));
    assert_eq!(
        derive_auto_tun_ipv6(1024),
        (
            "fdc0:ba8a:33ac:67f4:4abf:f598:4dfb:b6f4".to_string(),
            "fdc0:ba8a:33ac:67f4:4abf:f598:4dfb:b6f5".to_string()
        )
    );
}

#[test]
fn identifiers_are_odd_and_link_local() {
    let mut seen = vec![];
    for raw in 0..=0xffffu16 {
        let [a, b] = raw.to_be_bytes();
        let mut digest = vec![0u8; 32];
        (digest[0], digest[1]) = (a, b);
        let (id, local, remote) = assign_auto_tun(&digest);
        assert!(id % 2 == 1 && (1..=254).contains(&(id >> 8)) && id & 0xff != 0xff);
        assert_eq!(local, format_link_local(id));
        assert_eq!(remote, format_link_local(id + 1));
        if raw < 254 * 127 {
            seen.push(id);
        }
    }
    seen.sort();
    seen.dedup();
    assert_eq!(seen.len(), 254 * 127);
    assert_eq!(format_link_local(0x0102), "169.254.1.2");
}

#[test]
fn subnet_comes_from_the_digest() {
    let digest: Vec<u8> = (0..32).collect();
    let (local, remote) = assign_auto_tun_ipv6(&digest);
    assert_eq!(local, "fd00:102:304:506:708:90a:b0c:d0e");
    assert_eq!(remote, "fd00:102:304:506:708:90a:b0c:d0f");
    let (local, remote) = assign_auto_tun_ipv6(&vec![0; 32]);
    assert_eq!((local.as_str(), remote.as_str()), ("fd00::", "fd00::1"));
}

#[test]
fn jump_hosts_are_listed_in_order() {
    let none = texts(&[]);
    assert_eq!(list_jumps(&texts(&["a, b", "", " c "]), &some("x")), vec!["a", "b", "c"]);
    assert_eq!(list_jumps(&none, &some("a:1, b c ,none")), vec!["a:1", "b", "c"]);
    assert_eq!(list_jumps(&none, &some(" NONE ")), Vec::<String>::new());
    assert_eq!(list_jumps(&none, &None), Vec::<String>::new());
    assert_eq!(list_jumps(&texts(&[" "]), &some("x")), Vec::<String>::new());
}

#[test]
fn configuration_comes_before_command_line_in_lists() {
    let facts = machine(
        "Host h\nHostName real\nProxyJump me@j:2222\nLocalForward 1 a:1\nRemoteForward 2 b:2\n\
         DynamicForward 3\nTunnelDevice 4:5\nHost j\nHostName gate",
    );
    let mut a = args("h");
    a.local_forwards = texts(&["11:c:11"]);
    a.remote_forwards = texts(&["12:d:12"]);
    a.dynamic_forwards = texts(&["13"]);
    a.remote_post_up = some("true");
    a.fwmark = Some(7);
    let c = ResolvedConfig::from_args(a.clone(), &facts).unwrap();
    let ports = |v: Vec<u16>| v;
    assert_eq!(ports(c.local_forwards.iter().map(|f| f.bind_port).collect()), vec![1, 11]);
    assert_eq!(ports(c.remote_forwards.iter().map(|f| f.bind_port).collect()), vec![2, 12]);
    assert_eq!(ports(c.dynamic_forwards.iter().map(|f| f.bind_port).collect()), vec![3, 13]);
    let t = c.tun_forward.unwrap();
    assert_eq!((t.local_tun.as_str(), t.remote_tun.as_str(), t.auto_id), ("4", "5", None));
    assert_eq!(c.jump_hosts.len(), 1);
    let j = &c.jump_hosts[0];
    assert_eq!((j.hostname.as_str(), j.user.as_str(), j.port), ("gate", "me", 2222));
    assert_eq!((c.hostname.as_str(), c.remote_post_up, c.fwmark), ("real", some("true"), Some(7)));
    assert_eq!((c.reconnect_interval, c.keepalive_interval, c.keepalive_max), (5, 10, 3));
    // The tunnel and the hosts of the command line take the place of the others.
    a.tun_forward = some("0");
    a.jump_hosts = texts(&["x"]);
    let c = ResolvedConfig::from_args(a, &facts).unwrap();
    assert_eq!(c.tun_forward.unwrap().local_tun, "0");
    assert_eq!(c.jump_hosts[0].host, "x");
}

#[test]
fn refused_texts_are_reported_in_order() {
    let facts = machine("Host h\nTunnelDevice a:b:c");
    let mut a = args("h");
    let number = |e| ResolveError::Refused(ConfigError::Number(e));
    let r = ResolvedConfig::from_args(a.clone(), &facts);
    assert!(matches!(r, Err(ResolveError::Refused(ConfigError::Syntax(_)))));
    a.dynamic_forwards = texts(&["x"]);
    let r = ResolvedConfig::from_args(a.clone(), &facts);
    assert_eq!(r.unwrap_err(), number(IntError::InvalidDigit));
    a.remote_forwards = texts(&["99999:h:1"]);
    let r = ResolvedConfig::from_args(a.clone(), &facts);
    assert_eq!(r.unwrap_err(), number(IntError::PosOverflow));
    a.local_forwards = texts(&[":h:1"]);
    let r = ResolvedConfig::from_args(a, &facts);
    assert_eq!(r.unwrap_err(), number(IntError::Empty));
}

#[test]
fn given_addresses_stay() {
    let facts = machine("");
    let mut a = args("h");
    a.tun_forward = some("auto");
    a.local_tun_addr = some("10.0.0.1");
    a.remote_tun_addr6 = some("fd00::2");
    let c = ResolvedConfig::from_args(a.clone(), &facts).unwrap();
    let id = c.tun_forward.unwrap().auto_id.unwrap();
    assert_eq!(c.local_tun_addr, some("10.0.0.1"));
    assert_eq!(c.remote_tun_addr, Some(format_link_local(id + 1)));
    assert_eq!(c.local_tun_addr6, Some(derive_auto_tun_ipv6(id).0));
    assert_eq!(c.remote_tun_addr6, some("fd00::2"));
    // Other tunnels have only the addresses that are given.
    a.tun_forward = some("0:0");
    let c = ResolvedConfig::from_args(a, &facts).unwrap();
    assert_eq!((c.local_tun_addr, c.remote_tun_addr), (some("10.0.0.1"), None));
}

#[test]
fn one_device_auto_makes_both_ends_automatic() {
    let facts = machine("");
    let mut a = args("h");
    a.tun_forward = some("tun5:auto");
    let t = ResolvedConfig::from_args(a, &facts).unwrap().tun_forward.unwrap();
    let id = t.auto_id.unwrap();
    assert_eq!(t.local_tun, format!("tun2222{}", id));
    assert_eq!(t.remote_tun, t.local_tun);
}

#[test]
fn largest_identifier_needs_a_remote_address() {
    let facts = machine("");
    let mut a = args("h");
    a.tun_forward = some("auto:65535");
    assert!(matches!(ResolvedConfig::try_from_args(a.clone(), &facts), Ok(None)));
    a.remote_tun_addr = some("10.0.0.2");
    let c = ResolvedConfig::try_from_args(a.clone(), &facts).unwrap().unwrap();
    assert_eq!(c.local_tun_addr, some("169.254.255.255"));
    assert_eq!(c.remote_tun_addr, some("10.0.0.2"));
    a.remote_tun_addr = None;
    a.tun_forward = some("auto:65534");
    let c = ResolvedConfig::try_from_args(a.clone(), &facts).unwrap().unwrap();
    assert_eq!(c.remote_tun_addr, some("169.254.255.255"));
    // An error is reported before the missing address.
    a.tun_forward = some("auto:65535");
    a.dynamic_forwards = texts(&["x"]);
    assert!(ResolvedConfig::try_from_args(a.clone(), &facts).is_err());
    let r = ResolvedConfig::from_args(a, &facts);
    let refused = ResolveError::Refused(ConfigError::Number(IntError::InvalidDigit));
    assert_eq!(r.unwrap_err(), refused);
}

#[test]
fn questions_lead_to_the_same_configuration() {
    let full = machine("Host h\nHostName real");
    let mut a = args("h");
    a.tun_forward = some("auto");
    let expected = ResolvedConfig::from_args(a.clone(), &full).unwrap();
    let mut facts = Facts::new(some("/home/me"));
    let mut asked = vec![];
    let found = loop {
        match ResolvedConfig::try_from_args(a.clone(), &facts) {
            Ok(c) => break c.unwrap(),
            Err(ResolveError::Refused(e)) => panic!("{}", e.message()),
            Err(ResolveError::Unanswered(q)) => {
                assert!(!asked.contains(&q));
                asked.push(q.clone());
                match q {
                    Question::ConfigFile(n) => {
                        let known = full.config_files.iter().find(|x| x.name == n).unwrap();
                        facts.config_files.push(known.clone());
                    }
                    Question::Presence(n) => {
                        let known = full.presences.iter().find(|x| x.name == n).unwrap();
                        facts.presences.push(known.clone());
                    }
                    Question::Document(n) => {
                        let known = full.documents.iter().find(|x| x.name == n).unwrap();
                        facts.documents.push(known.clone());
                    }
                    Question::Variable(n) => {
                        let known = full.variables.iter().find(|x| x.name == n).unwrap();
                        facts.variables.push(known.clone());
                    }
                    Question::Listing(_) => unreachable!(),
                }
            }
        }
    };
    assert_eq!(found.hostname, "real");
    assert_eq!(found.tun_forward, expected.tun_forward);
    assert_eq!(found.local_tun_addr, expected.local_tun_addr);
}
