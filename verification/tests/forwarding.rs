use sshtun::forward::{
    format_auto_tun_name, parse_dynamic_forward, parse_fwmark, parse_host_port_pair,
    parse_local_forward, parse_remote_forward, parse_target_pair, parse_tun_forward, ConfigError,
    LocalForwardSpec,
};
use sshtun::number::{format_decimal, format_number, parse_u16, parse_u32, IntError};

fn local(bind_addr: &str, bind_port: u16, target_host: &str, target_port: u16) -> LocalForwardSpec {
    LocalForwardSpec {
        bind_addr: bind_addr.to_string(),
        bind_port,
        target_host: target_host.to_string(),
        target_port,
    }
}

#[test]
fn marks_are_refused_in_words() {
    assert_eq!(
        parse_fwmark("0xG"),
        Err("Invalid hex fwmark '0xG': invalid digit found in string".to_string())
    );
    assert_eq!(
        parse_fwmark("4294967296"),
        Err("Invalid fwmark '4294967296': number too large to fit in target type".to_string())
    );
    assert_eq!(
        parse_fwmark("  "),
        Err("Invalid fwmark '': cannot parse integer from empty string".to_string())
    );
    assert_eq!(
        parse_fwmark("0x"),
        Err("Invalid hex fwmark '0x': cannot parse integer from empty string".to_string())
    );
}

#[test]
fn written_marks_read_back() {
    for n in [0, 1, 15, 16, 4096, 0x7fff_ffff, u32::MAX] {
        assert_eq!(parse_fwmark(&format!("0x{}", format_number(n, 16))), Ok(n));
        assert_eq!(parse_fwmark(&format_decimal(n)), Ok(n));
    }
    assert_eq!(format_number(0xabcd, 16), "abcd");
    assert_eq!(format_decimal(4294967295), "4294967295");
}

#[test]
fn numbers_are_refused_for_the_right_reason() {
    assert_eq!(parse_u16(""), Err(IntError::Empty));
    assert_eq!(parse_u16("+"), Err(IntError::InvalidDigit));
    assert_eq!(parse_u16("-1"), Err(IntError::InvalidDigit));
    assert_eq!(parse_u16("65536"), Err(IntError::PosOverflow));
    assert_eq!(parse_u16("65536x"), Err(IntError::PosOverflow));
    assert_eq!(parse_u16("6553x"), Err(IntError::InvalidDigit));
    assert_eq!(parse_u16("+65535"), Ok(65535));
    assert_eq!(parse_u16("0000000022"), Ok(22));
    assert_eq!(parse_u32("fF", 16), Ok(255));
    for text in ["", "+", "-1", "65536", "65536x", "6553x", "+65535", "22", " 1", "1 ", "99999999"] {
        assert_eq!(parse_u16(text).map_err(|e| e.message()), text.parse::<u16>().map_err(|e| e.to_string()));
    }
}

#[test]
fn documented_forms_read_back() {
    assert_eq!(parse_local_forward("2001:host:443"), Ok(local("127.0.0.1", 2001, "host", 443)));
    assert_eq!(parse_local_forward("*:2001:host:443"), Ok(local("*", 2001, "host", 443)));
    // The form of the SSH configuration takes addresses with colons.
    assert_eq!(
        parse_local_forward("::1:2001 fd00::2:443"),
        Ok(local("::1", 2001, "fd00::2", 443))
    );
    assert_eq!(parse_local_forward("2001 host 443"), Ok(local("127.0.0.1", 2001, "host", 443)));
    let d = parse_dynamic_forward("0.0.0.0:1080").unwrap();
    assert_eq!((d.bind_addr.as_str(), d.bind_port), ("0.0.0.0", 1080));
    let t = parse_tun_forward("tun0:tun1").unwrap();
    assert_eq!((t.local_tun.as_str(), t.remote_tun.as_str()), ("tun0", "tun1"));
    assert_eq!(format_auto_tun_name(7), "tun22227");
}

#[test]
fn directions_differ_only_in_default_address() {
    for text in ["80:h:81", "80 h:81", "80 h 81"] {
        let l = parse_local_forward(text).unwrap();
        let r = parse_remote_forward(text).unwrap();
        assert_eq!((l.bind_addr.as_str(), r.bind_addr.as_str()), ("127.0.0.1", "0.0.0.0"));
        assert_eq!((l.bind_port, l.target_host, l.target_port), (r.bind_port, r.target_host, r.target_port));
    }
    for text in ["10.0.0.1:80:h:81", "10.0.0.1:80 h:81", "10.0.0.1 80 h 81"] {
        assert_eq!(parse_local_forward(text).unwrap().bind_addr, "10.0.0.1");
        assert_eq!(parse_remote_forward(text).unwrap().bind_addr, "10.0.0.1");
    }
}

#[test]
fn forwards_are_refused_in_words() {
    let text = |r: Result<LocalForwardSpec, ConfigError>| r.unwrap_err().message();
    assert_eq!(
        text(parse_local_forward("8080")),
        "Invalid local forward spec '8080', expected [bind_addr:]port:host:hostport"
    );
    assert_eq!(text(parse_local_forward("")), "Invalid local forward spec ''");
    assert_eq!(text(parse_local_forward("1 2 3 4 5")), "Invalid local forward spec '1 2 3 4 5'");
    assert_eq!(
        text(parse_local_forward("80 host")),
        "Target must be in host:port format, got 'host'"
    );
    assert_eq!(parse_local_forward("x:h:80"), Err(ConfigError::Number(IntError::InvalidDigit)));
    assert_eq!(parse_local_forward("80:h:65536"), Err(ConfigError::Number(IntError::PosOverflow)));
    assert_eq!(parse_local_forward(":h:80"), Err(ConfigError::Number(IntError::Empty)));
    assert_eq!(
        parse_remote_forward("a:b:c:d:e").unwrap_err().message(),
        "Invalid remote forward spec 'a:b:c:d:e', expected [bind_addr:]port:host:hostport"
    );
    assert_eq!(
        parse_dynamic_forward("a:b:c").unwrap_err().message(),
        "Invalid dynamic forward spec 'a:b:c', expected [bind_addr:]port"
    );
    assert_eq!(
        parse_dynamic_forward("a b c").unwrap_err().message(),
        "Invalid dynamic forward spec 'a b c'"
    );
    assert_eq!(
        parse_tun_forward("auto:x").unwrap_err().message(),
        "Invalid auto TUN id 'x': invalid digit found in string"
    );
    assert_eq!(
        parse_tun_forward("a:b:c").unwrap_err().message(),
        "Invalid TUN spec 'a:b:c', expected local_tun[:remote_tun] or 'auto'"
    );
    assert_eq!(parse_tun_forward("a b c").unwrap_err().message(), "Invalid TUN spec 'a b c'");
}

#[test]
fn pairs_split_at_the_last_colon() {
    assert_eq!(parse_host_port_pair("80", "any"), Ok(("any".to_string(), 80)));
    assert_eq!(parse_host_port_pair("fd00::1:80", "any"), Ok(("fd00::1".to_string(), 80)));
    assert_eq!(parse_target_pair("host:80"), Ok(("host".to_string(), 80)));
    assert!(parse_target_pair("80").is_err());
}

#[test]
fn single_device_stands_for_both_ends() {
    let t = parse_tun_forward(" 3 ").unwrap();
    assert_eq!((t.local_tun.as_str(), t.remote_tun.as_str(), t.auto_id), ("3", "3", None));
    let t = parse_tun_forward("auto: 65535 ").unwrap();
    assert_eq!((t.local_tun.as_str(), t.auto_id), ("tun222265535", Some(65535)));
}

#[test]
fn other_documented_forms_read_back() {
    assert_eq!(parse_fwmark("0XABCD"), Ok(0xabcd));
    assert_eq!(parse_fwmark("0xABCD"), Ok(0xabcd));
    assert_eq!(parse_fwmark("0Xabcd"), Ok(0xabcd));
    assert_eq!(parse_fwmark("\t42\u{a0}"), Ok(42));
    assert_eq!(parse_local_forward("2001 h 443"), Ok(local("127.0.0.1", 2001, "h", 443)));
    assert_eq!(parse_local_forward("::1 2001 fd00::2 443"), Ok(local("::1", 2001, "fd00::2", 443)));
    let d = parse_dynamic_forward("::1 1080").unwrap();
    assert_eq!((d.bind_addr.as_str(), d.bind_port), ("::1", 1080));
    let t = parse_tun_forward(" tun0 tun1\n").unwrap();
    assert_eq!((t.local_tun.as_str(), t.remote_tun.as_str()), ("tun0", "tun1"));
    assert_eq!(parse_tun_forward("\tauto:7 "), parse_tun_forward("auto:7"));
}
