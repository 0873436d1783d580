use clap::builder::ValueParser;
use clap::{Arg, ArgAction, Command};
use sshtun::auto_tun::{derive_auto_tun_ipv6, generate_auto_tun_id};
use sshtun::facts::{Answer, ConfigFile, Facts, Question};
use sshtun::forward::{
    parse_dynamic_forward, parse_fwmark, parse_local_forward, parse_remote_forward,
    parse_tun_forward, DynamicForwardSpec, LocalForwardSpec, RemoteForwardSpec, TunForwardSpec,
};
use sshtun::resolve::{CliArgs, ResolveError, ResolvedConfig};
use sshtun::scan::parse_ssh_config_file_rec;
use sshtun::ssh_config::ExtractedSshConfig;

/// Answers a question as a machine without any of the files would.
fn answer_with_nothing(facts: &mut Facts, question: Question) {
    match question {
        Question::ConfigFile(name) => {
            let value = ConfigFile { canonical: name.clone(), lines: None };
            facts.config_files.push(Answer { name, value });
        }
        Question::Listing(name) => facts.listings.push(Answer { name, value: vec![] }),
        Question::Presence(name) => facts.presences.push(Answer { name, value: false }),
        Question::Document(name) => facts.documents.push(Answer { name, value: None }),
        Question::Variable(name) => facts.variables.push(Answer { name, value: None }),
    }
}

fn resolve(args: CliArgs) -> ResolvedConfig {
    let mut facts = Facts::new(Some("/home/me".to_string()));
    for _ in 0..100 {
        match ResolvedConfig::from_args(args.clone(), &facts) {
            Ok(config) => return config,
            Err(ResolveError::Unanswered(question)) => answer_with_nothing(&mut facts, question),
            Err(ResolveError::Refused(e)) => panic!("{}", e.message()),
        }
    }
    panic!("there is no end to the questions")
}

/// Reads the options that the tests below need from a command line.
fn parse_args(argv: &[&str]) -> CliArgs {
    let text = |name: &'static str| Arg::new(name).long(name).action(ArgAction::Set);
    let command = Command::new("sshtun")
        .arg(Arg::new("destination").required(true))
        .arg(text("tun-forward").short('w').num_args(0..=1).default_missing_value("auto"))
        .arg(text("local-tun-addr6"))
        .arg(text("remote-tun-addr6"))
        .arg(text("fwmark").alias("mark").value_parser(ValueParser::new(parse_fwmark)));
    let m = command.try_get_matches_from(argv).unwrap();
    let get = |name: &str| m.get_one::<String>(name).cloned();
    CliArgs {
        destination: get("destination").unwrap(),
        port: None,
        identity: vec![],
        local_forwards: vec![],
        remote_forwards: vec![],
        dynamic_forwards: vec![],
        tun_forward: get("tun-forward"),
        jump_hosts: vec![],
        local_tun_addr: None,
        remote_tun_addr: None,
        local_tun_addr6: get("local-tun-addr6"),
        remote_tun_addr6: get("remote-tun-addr6"),
        local_post_up: None,
        remote_post_up: None,
        no_shell: true,
        reconnect_interval: 5,
        keepalive_interval: 10,
        keepalive_max: 3,
        fwmark: m.get_one::<u32>("fwmark").copied(),
        verbose: 0,
    }
}

/// The octets of an IPv6 address in hexadecimal groups.
fn octets(text: &str) -> Vec<u8> {
    let groups = |part: &str| -> Vec<u16> {
        part.split(':')
            .filter(|g| !g.is_empty())
            .map(|g| u16::from_str_radix(g, 16).unwrap())
            .collect()
    };
    let all = match text.split_once("::") {
        Some((head, tail)) => {
            let (mut head, tail) = (groups(head), groups(tail));
            head.resize(8 - tail.len(), 0);
            head.extend(tail);
            head
        }
        None => groups(text),
    };
    assert_eq!(all.len(), 8);
    all.iter().flat_map(|g| g.to_be_bytes()).collect()
}

#[test]
fn test_parse_fwmark() {
    assert_eq!(parse_fwmark("0").unwrap(), 0);
    assert_eq!(parse_fwmark("42").unwrap(), 42);
    assert_eq!(parse_fwmark("4294967295").unwrap(), u32::MAX);
    assert_eq!(parse_fwmark("0x0").unwrap(), 0);
    assert_eq!(parse_fwmark("0x10").unwrap(), 16);
    assert_eq!(parse_fwmark("0x1000").unwrap(), 4096);
    assert_eq!(parse_fwmark("0Xabcd").unwrap(), 0xabcd);
    assert_eq!(parse_fwmark("  0xffffffff  ").unwrap(), u32::MAX);

    assert!(parse_fwmark("").is_err());
    assert!(parse_fwmark("invalid").is_err());
    assert!(parse_fwmark("0xG").is_err());
    assert!(parse_fwmark("-1").is_err());
    assert!(parse_fwmark("4294967296").is_err());
}

#[test]
fn test_cli_args_fwmark() {
    // Without flag
    let args = parse_args(&["sshtun", "myserver"]);
    assert_eq!(args.fwmark, None);

    // With decimal --fwmark
    let args = parse_args(&["sshtun", "myserver", "--fwmark", "100"]);
    assert_eq!(args.fwmark, Some(100));

    // With hex --fwmark
    let args = parse_args(&["sshtun", "myserver", "--fwmark", "0x1000"]);
    assert_eq!(args.fwmark, Some(0x1000));

    // With alias --mark
    let args = parse_args(&["sshtun", "myserver", "--mark", "0x20"]);
    assert_eq!(args.fwmark, Some(0x20));

    // ResolvedConfig propagates fwmark
    let resolved = resolve(args);
    assert_eq!(resolved.fwmark, Some(0x20));
}

#[test]
fn test_parse_local_forward() {
    let f1 = parse_local_forward("8080:10.0.0.1:80").unwrap();
    assert_eq!(
        f1,
        LocalForwardSpec {
            bind_addr: "127.0.0.1".to_string(),
            bind_port: 8080,
            target_host: "10.0.0.1".to_string(),
            target_port: 80,
        }
    );

    let f2 = parse_local_forward("0.0.0.0:8080:10.0.0.1:80").unwrap();
    assert_eq!(
        f2,
        LocalForwardSpec {
            bind_addr: "0.0.0.0".to_string(),
            bind_port: 8080,
            target_host: "10.0.0.1".to_string(),
            target_port: 80,
        }
    );

    let f3 = parse_local_forward("8080 10.0.0.1:80").unwrap();
    assert_eq!(
        f3,
        LocalForwardSpec {
            bind_addr: "127.0.0.1".to_string(),
            bind_port: 8080,
            target_host: "10.0.0.1".to_string(),
            target_port: 80,
        }
    );

    let f4 = parse_local_forward("0.0.0.0:8080 10.0.0.1:80").unwrap();
    assert_eq!(
        f4,
        LocalForwardSpec {
            bind_addr: "0.0.0.0".to_string(),
            bind_port: 8080,
            target_host: "10.0.0.1".to_string(),
            target_port: 80,
        }
    );

    let f5 = parse_local_forward("0.0.0.0 8080 10.0.0.1 80").unwrap();
    assert_eq!(
        f5,
        LocalForwardSpec {
            bind_addr: "0.0.0.0".to_string(),
            bind_port: 8080,
            target_host: "10.0.0.1".to_string(),
            target_port: 80,
        }
    );
}

#[test]
fn test_parse_remote_forward() {
    let r1 = parse_remote_forward("2222:127.0.0.1:22").unwrap();
    assert_eq!(
        r1,
        RemoteForwardSpec {
            bind_addr: "0.0.0.0".to_string(),
            bind_port: 2222,
            target_host: "127.0.0.1".to_string(),
            target_port: 22,
        }
    );

    let r2 = parse_remote_forward("2222 127.0.0.1:22").unwrap();
    assert_eq!(
        r2,
        RemoteForwardSpec {
            bind_addr: "0.0.0.0".to_string(),
            bind_port: 2222,
            target_host: "127.0.0.1".to_string(),
            target_port: 22,
        }
    );
}

#[test]
fn test_parse_dynamic_forward() {
    let d1 = parse_dynamic_forward("1080").unwrap();
    assert_eq!(
        d1,
        DynamicForwardSpec { bind_addr: "127.0.0.1".to_string(), bind_port: 1080 }
    );

    let d2 = parse_dynamic_forward("0.0.0.0:1080").unwrap();
    assert_eq!(
        d2,
        DynamicForwardSpec { bind_addr: "0.0.0.0".to_string(), bind_port: 1080 }
    );

    let d3 = parse_dynamic_forward("0.0.0.0 1080").unwrap();
    assert_eq!(
        d3,
        DynamicForwardSpec { bind_addr: "0.0.0.0".to_string(), bind_port: 1080 }
    );
}

#[test]
fn test_parse_tun_forward() {
    let t1 = parse_tun_forward("0:0").unwrap();
    assert_eq!(
        t1,
        TunForwardSpec {
            local_tun: "0".to_string(),
            remote_tun: "0".to_string(),
            auto_id: None,
        }
    );

    let t2 = parse_tun_forward("any:any").unwrap();
    assert_eq!(
        t2,
        TunForwardSpec {
            local_tun: "any".to_string(),
            remote_tun: "any".to_string(),
            auto_id: None,
        }
    );

    let t3 = parse_tun_forward("tun0 tun1").unwrap();
    assert_eq!(
        t3,
        TunForwardSpec {
            local_tun: "tun0".to_string(),
            remote_tun: "tun1".to_string(),
            auto_id: None,
        }
    );

    let t4 = parse_tun_forward("auto").unwrap();
    assert_eq!(
        t4,
        TunForwardSpec {
            local_tun: "auto".to_string(),
            remote_tun: "auto".to_string(),
            auto_id: None,
        }
    );

    let t5 = parse_tun_forward("auto:1024").unwrap();
    assert_eq!(
        t5,
        TunForwardSpec {
            local_tun: "tun22221024".to_string(),
            remote_tun: "tun22221024".to_string(),
            auto_id: Some(1024),
        }
    );
}

fn generate(host: &str, port: u16) -> (u16, String, String) {
    let mut facts = Facts::new(None);
    for _ in 0..100 {
        match generate_auto_tun_id(host, port, &facts) {
            Ok(assignment) => return assignment,
            Err(Question::Document(name)) if name == "/etc/machine-id" => {
                let value = Some("0123456789abcdef0123456789abcdef\n".to_string());
                facts.documents.push(Answer { name, value });
            }
            Err(question) => answer_with_nothing(&mut facts, question),
        }
    }
    panic!("there is no end to the questions")
}

#[test]
fn test_auto_tun_id_and_ip() {
    let (id1, local_ip1, remote_ip1) = generate("example.com", 22);
    let (id2, local_ip2, remote_ip2) = generate("example.com", 22);
    assert_eq!(id1, id2);
    assert_eq!(local_ip1, local_ip2);
    assert_eq!(remote_ip1, remote_ip2);

    // Check bounds & lower 16 bits match
    assert!(id1 >= 256 && id1 <= 65278);
    let local_lower = (local_ip1.split('.').nth(2).unwrap().parse::<u16>().unwrap() << 8)
        | local_ip1.split('.').nth(3).unwrap().parse::<u16>().unwrap();
    let remote_lower = (remote_ip1.split('.').nth(2).unwrap().parse::<u16>().unwrap() << 8)
        | remote_ip1.split('.').nth(3).unwrap().parse::<u16>().unwrap();
    assert_eq!(local_lower, id1);
    assert_eq!(remote_lower, id1 + 1);

    // Check IPv6 derivation
    let (loc_v6, rem_v6) = derive_auto_tun_ipv6(id1);
    let loc_oct = octets(&loc_v6);
    let rem_oct = octets(&rem_v6);
    assert_eq!(loc_oct[0], 0xfd);
    assert_eq!(rem_oct[0], 0xfd);
    // Same /127 subnet: first 15 bytes match
    assert_eq!(loc_oct[0..15], rem_oct[0..15]);
    // Top 7 bits of byte 15 match (total 119 subnet bits derived from id)
    assert_eq!(loc_oct[15] & 0xfe, rem_oct[15] & 0xfe);
    // Last bit: 0 for local, 1 for remote
    assert_eq!(loc_oct[15] & 1, 0);
    assert_eq!(rem_oct[15] & 1, 1);
}

#[test]
fn test_parse_ssh_config_file_rec() {
    let config_text = r#"
Host myserver
    HostName 192.168.1.100
    User admin
    Port 2222
    LocalForward 8080 10.0.0.1:80
    LocalForward 9090 10.0.0.2:80
    RemoteForward 3333 127.0.0.1:3306
    DynamicForward 1080
    TunnelDevice 0:0
    ProxyJump jump1.example.com:2222, jump2.example.com
"#;

    let mut facts = Facts::new(None);
    let lines = config_text.lines().map(|l| l.to_string()).collect();
    facts.config_files.push(Answer {
        name: "/tmp/config".to_string(),
        value: ConfigFile { canonical: "/tmp/config".to_string(), lines: Some(lines) },
    });

    let mut extracted = ExtractedSshConfig::default();
    let mut visited = Vec::new();
    let r = parse_ssh_config_file_rec(
        "/tmp/config",
        "myserver",
        &mut extracted,
        &mut visited,
        &facts,
    );
    assert_eq!(r, Ok(()));

    assert_eq!(extracted.hostname, Some("192.168.1.100".to_string()));
    assert_eq!(extracted.user, Some("admin".to_string()));
    assert_eq!(extracted.port, Some(2222));
    assert_eq!(extracted.local_forwards, vec!["8080 10.0.0.1:80", "9090 10.0.0.2:80"]);
    assert_eq!(extracted.remote_forwards, vec!["3333 127.0.0.1:3306"]);
    assert_eq!(extracted.dynamic_forwards, vec!["1080"]);
    assert_eq!(extracted.tun_forward, Some("0:0".to_string()));
    assert_eq!(
        extracted.proxy_jump,
        Some("jump1.example.com:2222, jump2.example.com".to_string())
    );
}

#[test]
fn test_cli_args_tun_auto() {
    // -w without value should default to "auto"
    let args1 = parse_args(&["sshtun", "myserver", "-w"]);
    assert_eq!(args1.tun_forward, Some("auto".to_string()));

    // -w with explicit auto
    let args2 = parse_args(&["sshtun", "myserver", "-w", "auto"]);
    assert_eq!(args2.tun_forward, Some("auto".to_string()));

    // -w with custom spec
    let args3 = parse_args(&["sshtun", "myserver", "-w", "0:0"]);
    assert_eq!(args3.tun_forward, Some("0:0".to_string()));

    // without -w
    let args4 = parse_args(&["sshtun", "myserver"]);
    assert_eq!(args4.tun_forward, None);

    // ResolvedConfig with auto
    let resolved = resolve(args1);
    let tun = resolved.tun_forward.unwrap();
    assert!(tun.auto_id.is_some());
    let id = tun.auto_id.unwrap();
    assert_eq!(tun.local_tun, format!("tun2222{}", id));
    assert_eq!(tun.remote_tun, format!("tun2222{}", id));
    assert!(resolved.local_tun_addr.is_some());
    assert!(resolved.remote_tun_addr.is_some());
    assert!(resolved.local_tun_addr6.is_some());
    assert!(resolved.remote_tun_addr6.is_some());
    let (resolved_loc_v6, resolved_rem_v6) = derive_auto_tun_ipv6(id);
    assert_eq!(resolved.local_tun_addr6, Some(resolved_loc_v6));
    assert_eq!(resolved.remote_tun_addr6, Some(resolved_rem_v6));

    // -w with explicit auto:1024
    let args_auto_id = parse_args(&["sshtun", "myserver", "-w", "auto:1024"]);
    assert_eq!(args_auto_id.tun_forward, Some("auto:1024".to_string()));
    let resolved_auto_id = resolve(args_auto_id);
    let tun_auto_id = resolved_auto_id.tun_forward.unwrap();
    assert_eq!(tun_auto_id.auto_id, Some(1024));
    assert_eq!(tun_auto_id.local_tun, "tun22221024");
    assert_eq!(tun_auto_id.remote_tun, "tun22221024");
    assert_eq!(resolved_auto_id.local_tun_addr, Some("169.254.4.0".to_string()));
    assert_eq!(resolved_auto_id.remote_tun_addr, Some("169.254.4.1".to_string()));
    let (id1024_loc_v6, id1024_rem_v6) = derive_auto_tun_ipv6(1024);
    assert_eq!(resolved_auto_id.local_tun_addr6, Some(id1024_loc_v6));
    assert_eq!(resolved_auto_id.remote_tun_addr6, Some(id1024_rem_v6));
}

#[test]
fn test_derive_auto_tun_ipv6_properties() {
    for test_id in [0, 1, 42, 1024, 65535] {
        let (loc_s, rem_s) = derive_auto_tun_ipv6(test_id);
        let loc_oct = octets(&loc_s);
        let rem_oct = octets(&rem_s);

        // Range: fd00::/8
        assert_eq!(loc_oct[0], 0xfd);
        assert_eq!(rem_oct[0], 0xfd);

        // Subnet: /127
        // First 14 bytes (112 bits) of subnet derived from id hash match
        assert_eq!(loc_oct[0..15], rem_oct[0..15]);
        // Byte 15 top 7 bits match (112 + 7 = 119 bits derived from id hash)
        assert_eq!(loc_oct[15] & 0xfe, rem_oct[15] & 0xfe);

        // Last bit: 0 for local, 1 for remote
        assert_eq!(loc_oct[15] & 1, 0);
        assert_eq!(rem_oct[15] & 1, 1);
    }

    // Distinct IDs produce distinct subnets
    let (loc1, _) = derive_auto_tun_ipv6(1);
    let (loc2, _) = derive_auto_tun_ipv6(2);
    assert_ne!(loc1, loc2);
}

#[test]
fn test_cli_args_tun_custom_ipv6() {
    let args = parse_args(&[
        "sshtun",
        "myserver",
        "-w",
        "0:0",
        "--local-tun-addr6",
        "fd00:1234::1",
        "--remote-tun-addr6",
        "fd00:1234::2",
    ]);
    let resolved = resolve(args);
    assert_eq!(resolved.local_tun_addr6, Some("fd00:1234::1".to_string()));
    assert_eq!(resolved.remote_tun_addr6, Some("fd00:1234::2".to_string()));
}
