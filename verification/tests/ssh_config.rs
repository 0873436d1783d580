use sshtun::facts::{Answer, ConfigFile, Facts, Question};
use sshtun::scan::parse_ssh_config_file_rec;
use sshtun::ssh_config::{apply_config_line, parse_match_directive, split_line, ExtractedSshConfig};

fn add_file(facts: &mut Facts, path: &str, canonical: &str, text: &str) {
    facts.config_files.push(Answer {
        name: path.to_string(),
        value: ConfigFile {
            canonical: canonical.to_string(),
            lines: Some(text.lines().map(|l| l.to_string()).collect()),
        },
    });
}

fn add_listing(facts: &mut Facts, pattern: &str, paths: &[&str]) {
    facts.listings.push(Answer {
        name: pattern.to_string(),
        value: paths.iter().map(|p| p.to_string()).collect(),
    });
}

fn read(facts: &Facts, path: &str, host: &str) -> (Result<(), Question>, ExtractedSshConfig, Vec<String>) {
    let mut extracted = ExtractedSshConfig::default();
    let mut visited = Vec::new();
    let r = parse_ssh_config_file_rec(path, host, &mut extracted, &mut visited, facts);
    (r, extracted, visited)
}

fn hostname_for(text: &str, host: &str) -> Option<String> {
    let mut facts = Facts::new(None);
    add_file(&mut facts, "/c", "/c", text);
    read(&facts, "/c", host).1.hostname
}

#[test]
fn lines_are_split_into_keyword_and_arguments() {
    let split = |s: &str| split_line(s);
    assert_eq!(split("  Host  a b "), vec!["Host", "a", "b"]);
    assert_eq!(split("Port = 22 # usual"), vec!["Port", "22"]);
    assert_eq!(split("Port=22"), vec!["Port", "22"]);
    assert_eq!(split("Port"), vec!["Port"]);
    assert_eq!(split("# Port 22"), Vec::<String>::new());
    assert_eq!(split("   "), Vec::<String>::new());
    assert_eq!(split("User a=b"), vec!["User a", "b"]);
}

#[test]
fn patterns_choose_sections() {
    assert_eq!(hostname_for("Host *.org\nHostName x", "a.org"), Some("x".to_string()));
    assert_eq!(hostname_for("Host *.org\nHostName x", "a.com"), None);
    assert_eq!(hostname_for("Host a?c\nHostName x", "abc"), Some("x".to_string()));
    assert_eq!(hostname_for("Host a?c\nHostName x", "ac"), None);
    assert_eq!(hostname_for("Host a b\nHostName x", "b"), Some("x".to_string()));
    assert_eq!(hostname_for("Host * !b\nHostName x", "b"), None);
    assert_eq!(hostname_for("Host !b *\nHostName x", "b"), None);
    assert_eq!(hostname_for("Host !b\nHostName x", "a"), None);
    assert_eq!(hostname_for("Host\nHostName x", "a"), None);
    assert_eq!(hostname_for("Host a.b\nHostName x", "axb"), None);
    // Settings before the first section are for every host.
    assert_eq!(hostname_for("HostName x\nHost b\nHostName y", "b"), Some("x".to_string()));
    // Keywords do not depend on case, patterns do.
    assert_eq!(hostname_for("HOST b\nHOSTNAME y", "b"), Some("y".to_string()));
    assert_eq!(hostname_for("Host B\nHostName y", "b"), None);
}

#[test]
fn match_lines_choose_sections() {
    assert_eq!(hostname_for("Match host *.org\nHostName x", "a.org"), Some("x".to_string()));
    assert_eq!(hostname_for("Match Host *.org\nHostName x", "a.com"), None);
    assert_eq!(hostname_for("Match all\nHostName x", "a"), Some("x".to_string()));
    assert_eq!(hostname_for("Match user me host a\nHostName x", "a"), Some("x".to_string()));
    assert_eq!(hostname_for("Match host a host b\nHostName x", "a"), None);
    assert_eq!(hostname_for("Match host\nHostName x", "a"), Some("x".to_string()));
    let parts: Vec<String> = ["host", "a"].iter().map(|s| s.to_string()).collect();
    assert!(parse_match_directive(&parts, "a"));
    assert!(!parse_match_directive(&parts, "b"));
}

#[test]
fn first_value_counts_and_lists_grow() {
    let mut facts = Facts::new(Some("/home/me".to_string()));
    add_file(
        &mut facts,
        "/c",
        "/c",
        "Host *\nUser one\nUser two\nPort x\nPort 70000\nPort 23\nPort 24\nTunnel 1\nTunnelDevice 2\n\
         LocalForward 1 a:1\nLocalForward 2 b:2\nProxyJump  j1 ,  j2\nIdentityFile ~/k1 \"/k2\"\n\
         IdentityFile k3\nUser\nUnknown x",
    );
    let (r, x, visited) = read(&facts, "/c", "h");
    assert_eq!(r, Ok(()));
    assert_eq!(x.user, Some("one".to_string()));
    assert_eq!(x.port, Some(23));
    assert_eq!(x.tun_forward, Some("1".to_string()));
    assert_eq!(x.local_forwards, vec!["1 a:1", "2 b:2"]);
    assert_eq!(x.proxy_jump, Some("j1 , j2".to_string()));
    assert_eq!(x.identity_files, vec!["/home/me/k1", "/k2", "k3"]);
    assert_eq!(visited, vec!["/c"]);
}

#[test]
fn files_bring_in_files_once() {
    let mut facts = Facts::new(Some("/home/me".to_string()));
    add_file(&mut facts, "/c", "/c", "Include a.conf ~/b.conf\nHostName c\nUser c");
    add_listing(&mut facts, "/home/me/.ssh/a.conf", &["/a"]);
    add_listing(&mut facts, "/home/me/b.conf", &["/b1", "/b2"]);
    // Each file brings in the first one again.
    add_file(&mut facts, "/a", "/a", "Include /c\nHostName a");
    add_listing(&mut facts, "/c", &["/c"]);
    add_file(&mut facts, "/b1", "/b", "User b\nLocalForward 1 b:1");
    add_file(&mut facts, "/b2", "/b", "User never");
    let (r, x, visited) = read(&facts, "/c", "h");
    assert_eq!(r, Ok(()));
    assert_eq!(x.hostname, Some("a".to_string()));
    assert_eq!(x.user, Some("b".to_string()));
    assert_eq!(x.local_forwards, vec!["1 b:1"]);
    assert_eq!(visited, vec!["/c", "/a", "/b"]);
}

#[test]
fn one_file_under_two_texts_is_read_once() {
    let mut facts = Facts::new(Some("/home/me".to_string()));
    add_file(&mut facts, "/c", "/c", "Include /x//y /x/y");
    add_listing(&mut facts, "/x//y", &["/x//y"]);
    add_listing(&mut facts, "/x/y", &["/x/y"]);
    add_file(&mut facts, "/x//y", "/x//y", "LocalForward 1 a:1");
    add_file(&mut facts, "/x/y", "/x/y", "LocalForward 2 b:2");
    let (r, x, visited) = read(&facts, "/c", "h");
    assert_eq!(r, Ok(()));
    assert_eq!(x.local_forwards, vec!["1 a:1"]);
    assert_eq!(visited, vec!["/c", "/x//y"]);
}

#[test]
fn section_ends_with_its_file() {
    let mut facts = Facts::new(Some("/home/me".to_string()));
    add_file(&mut facts, "/c", "/c", "Include /a\nUser c");
    add_listing(&mut facts, "/a", &["/a"]);
    add_file(&mut facts, "/a", "/a", "Host other\nHostName a");
    let (_, x, _) = read(&facts, "/c", "h");
    assert_eq!(x.user, Some("c".to_string()));
    assert_eq!(x.hostname, None);
}

#[test]
fn reading_stops_at_an_open_question() {
    let mut facts = Facts::new(Some("/home/me".to_string()));
    assert_eq!(read(&facts, "/c", "h").0, Err(Question::ConfigFile("/c".to_string())));
    add_file(&mut facts, "/c", "/c", "User one\nInclude x\nHostName late");
    let (r, x, _) = read(&facts, "/c", "h");
    assert_eq!(r, Err(Question::Listing("/home/me/.ssh/x".to_string())));
    assert_eq!((x.user, x.hostname), (Some("one".to_string()), None));
    add_listing(&mut facts, "/home/me/.ssh/x", &["/x"]);
    assert_eq!(read(&facts, "/c", "h").0, Err(Question::ConfigFile("/x".to_string())));
    facts.config_files.push(Answer {
        name: "/x".to_string(),
        value: ConfigFile { canonical: "/x".to_string(), lines: None },
    });
    let (r, x, visited) = read(&facts, "/c", "h");
    assert_eq!(r, Ok(()));
    assert_eq!(x.hostname, Some("late".to_string()));
    assert_eq!(visited, vec!["/c", "/x"]);
    // Answers that are not needed change nothing.
    add_file(&mut facts, "/y", "/y", "User two");
    let again = read(&facts, "/c", "h");
    assert_eq!((again.1.user, again.2), (Some("one".to_string()), visited));
}

#[test]
fn lines_say_which_files_follow() {
    let mut x = ExtractedSshConfig::default();
    let home = Some("/home/me".to_string());
    let (active, files) = apply_config_line("Include a /b \"~/c\"", "h", &home, true, &mut x);
    assert!(active);
    assert_eq!(files, vec!["/home/me/.ssh/a", "/b", "/home/me/c"]);
    let (active, files) = apply_config_line("Host other", "h", &home, true, &mut x);
    assert!(!active && files.is_empty());
    let (active, files) = apply_config_line("Include a", "h", &home, false, &mut x);
    assert!(!active && files.is_empty());
    let (_, files) = apply_config_line("Include a ~/b", "h", &None, true, &mut x);
    assert_eq!(files, vec!["a", "~/b"]);
}

#[test]
fn keywords_beyond_ascii_are_lowered() {
    // The Kelvin sign is the letter k in lower case, but no letter of a keyword.
    assert_eq!(hostname_for("Host \u{212a}\nHostName x", "\u{212a}"), Some("x".to_string()));
    assert_eq!(hostname_for("\u{212a}HostName x", "a"), None);
    assert_eq!(hostname_for("HoStNaMe x", "a"), Some("x".to_string()));
}
