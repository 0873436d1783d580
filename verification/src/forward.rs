//! The specifications of forwardings, and the texts that users write them in.

use crate::number::{
    decimal, int_error_text, format_decimal, number_u16, number_u32, parse_u16, parse_u32, IntError,
};
use crate::text::{
    copy, last_index, pieces, rfind_char, same, slice, split_on, split_whitespace, strip_prefix,
    trim, trimmed, words,
};
use vstd::prelude::*;
use vstd::string::*;

verus! {

/// Why a text of the configuration is refused.
#[derive(Debug, Clone, PartialEq, Eq)]
pub enum ConfigError {
    /// A number in it is not one.
    Number(IntError),
    /// It has not the form that it must have; the text says so in words.
    Syntax(String),
}

/// The model of a `ConfigError`.
pub enum ConfigErrorView {
    Number(IntError),
    Syntax(Seq<char>),
}

impl View for ConfigError {
    type V = ConfigErrorView;

    open spec fn view(&self) -> ConfigErrorView {
        match self {
            ConfigError::Number(e) => ConfigErrorView::Number(*e),
            ConfigError::Syntax(s) => ConfigErrorView::Syntax(s@),
        }
    }
}

impl ConfigError {
    /// The words for this error.
    pub fn message(&self) -> (r: String)
        ensures
            r@ == match self@ {
                ConfigErrorView::Number(e) => int_error_text(e),
                ConfigErrorView::Syntax(s) => s,
            },
    {
        match self {
            ConfigError::Number(e) => e.message(),
            ConfigError::Syntax(s) => copy(s.as_str()),
        }
    }
}

/// A local port forwarding: connections to the bind address here go to the
/// target there.
#[derive(Debug, Clone, PartialEq, Eq)]
pub struct LocalForwardSpec {
    pub bind_addr: String,
    pub bind_port: u16,
    pub target_host: String,
    pub target_port: u16,
}

/// A remote port forwarding: connections to the bind address there go to the
/// target here.
#[derive(Debug, Clone, PartialEq, Eq)]
pub struct RemoteForwardSpec {
    pub bind_addr: String,
    pub bind_port: u16,
    pub target_host: String,
    pub target_port: u16,
}

/// A SOCKS5 proxy that listens on the bind address.
#[derive(Debug, Clone, PartialEq, Eq)]
pub struct DynamicForwardSpec {
    pub bind_addr: String,
    pub bind_port: u16,
}

/// A layer-3 tunnel between two TUN devices.
#[derive(Debug, Clone, PartialEq, Eq)]
pub struct TunForwardSpec {
    pub local_tun: String,
    pub remote_tun: String,
    pub auto_id: Option<u16>,
}

/// The model of a port forwarding in either direction.
pub struct ForwardView {
    pub bind_addr: Seq<char>,
    pub bind_port: u16,
    pub target_host: Seq<char>,
    pub target_port: u16,
}

/// The model of a `DynamicForwardSpec`.
pub struct DynamicView {
    pub bind_addr: Seq<char>,
    pub bind_port: u16,
}

/// The model of a `TunForwardSpec`.
pub struct TunView {
    pub local_tun: Seq<char>,
    pub remote_tun: Seq<char>,
    pub auto_id: Option<u16>,
}

impl View for LocalForwardSpec {
    type V = ForwardView;

    open spec fn view(&self) -> ForwardView {
        ForwardView {
            bind_addr: self.bind_addr@,
            bind_port: self.bind_port,
            target_host: self.target_host@,
            target_port: self.target_port,
        }
    }
}

impl View for RemoteForwardSpec {
    type V = ForwardView;

    open spec fn view(&self) -> ForwardView {
        ForwardView {
            bind_addr: self.bind_addr@,
            bind_port: self.bind_port,
            target_host: self.target_host@,
            target_port: self.target_port,
        }
    }
}

impl View for DynamicForwardSpec {
    type V = DynamicView;

    open spec fn view(&self) -> DynamicView {
        DynamicView { bind_addr: self.bind_addr@, bind_port: self.bind_port }
    }
}

impl View for TunForwardSpec {
    type V = TunView;

    open spec fn view(&self) -> TunView {
        TunView {
            local_tun: self.local_tun@,
            remote_tun: self.remote_tun@,
            auto_id: self.auto_id,
        }
    }
}

/// The model of what a parser returns.
pub open spec fn parsed<T: View>(r: Result<T, ConfigError>) -> Result<T::V, ConfigErrorView> {
    match r {
        Ok(t) => Ok(t@),
        Err(e) => Err(e@),
    }
}

/// The firewall mark that `s` stands for: hexadecimal behind `0x` or `0X`,
/// decimal otherwise, with white space around it ignored.
pub open spec fn fwmark(s: Seq<char>) -> Result<u32, Seq<char>> {
    let t = trimmed(s);
    if "0x"@.is_prefix_of(t) || "0X"@.is_prefix_of(t) {
        match number_u32(t.skip(2), 16) {
            Ok(n) => Ok(n),
            Err(e) => Err("Invalid hex fwmark '"@ + t + "': "@ + int_error_text(e)),
        }
    } else {
        match number_u32(t, 10) {
            Ok(n) => Ok(n),
            Err(e) => Err("Invalid fwmark '"@ + t + "': "@ + int_error_text(e)),
        }
    }
}

/// A forwarding whose two ports are still text; the bind port is looked at
/// first.
pub open spec fn forward_fields(
    bind_addr: Seq<char>,
    bind_port: Seq<char>,
    target_host: Seq<char>,
    target_port: Seq<char>,
) -> Result<ForwardView, ConfigErrorView> {
    match number_u16(bind_port) {
        Err(e) => Err(ConfigErrorView::Number(e)),
        Ok(b) => match number_u16(target_port) {
            Err(e) => Err(ConfigErrorView::Number(e)),
            Ok(t) => Ok(ForwardView { bind_addr, bind_port: b, target_host, target_port: t }),
        },
    }
}

/// `host:port`, split at the last colon; a text without one is a port on the
/// default host.
pub open spec fn host_port_pair(s: Seq<char>, default_host: Seq<char>) -> Result<
    (Seq<char>, u16),
    ConfigErrorView,
> {
    let i = last_index(s, ':');
    let (h, p) = if i >= 0 {
        (s.take(i), s.skip(i + 1))
    } else {
        (default_host, s)
    };
    match number_u16(p) {
        Ok(n) => Ok((h, n)),
        Err(e) => Err(ConfigErrorView::Number(e)),
    }
}

/// `host:port`, split at the last colon, which must be there.
pub open spec fn target_pair(s: Seq<char>) -> Result<(Seq<char>, u16), ConfigErrorView> {
    if last_index(s, ':') >= 0 {
        host_port_pair(s, seq![])
    } else {
        Err(
            ConfigErrorView::Syntax("Target must be in host:port format, got '"@ + s + "'"@),
        )
    }
}

/// The port forwarding that `s` stands for. One word is
/// `[bind_addr:]port:host:hostport`; two words are `[bind_addr:]port` and
/// `host:hostport`; three and four words are the fields themselves.
pub open spec fn port_forward(s: Seq<char>, default_addr: Seq<char>, noun: Seq<char>) -> Result<
    ForwardView,
    ConfigErrorView,
> {
    let t = words(s);
    if t.len() == 1 {
        let p = pieces(s, ':');
        if p.len() == 3 {
            forward_fields(default_addr, p[0], p[1], p[2])
        } else if p.len() == 4 {
            forward_fields(p[0], p[1], p[2], p[3])
        } else {
            Err(
                ConfigErrorView::Syntax(
                    "Invalid "@ + noun + " forward spec '"@ + s
                        + "', expected [bind_addr:]port:host:hostport"@,
                ),
            )
        }
    } else if t.len() == 2 {
        match host_port_pair(t[0], default_addr) {
            Err(e) => Err(e),
            Ok((bind_addr, bind_port)) => match target_pair(t[1]) {
                Err(e) => Err(e),
                Ok((target_host, target_port)) => Ok(
                    ForwardView { bind_addr, bind_port, target_host, target_port },
                ),
            },
        }
    } else if t.len() == 3 {
        forward_fields(default_addr, t[0], t[1], t[2])
    } else if t.len() == 4 {
        forward_fields(t[0], t[1], t[2], t[3])
    } else {
        Err(ConfigErrorView::Syntax("Invalid "@ + noun + " forward spec '"@ + s + "'"@))
    }
}

/// The local forwarding that `s` stands for; it binds to the loopback address
/// where `s` names none.
pub open spec fn local_forward(s: Seq<char>) -> Result<ForwardView, ConfigErrorView> {
    port_forward(s, "127.0.0.1"@, "local"@)
}

/// The remote forwarding that `s` stands for; it binds to every address where
/// `s` names none.
pub open spec fn remote_forward(s: Seq<char>) -> Result<ForwardView, ConfigErrorView> {
    port_forward(s, "0.0.0.0"@, "remote"@)
}

/// A proxy whose port is still text.
pub open spec fn dynamic_fields(bind_addr: Seq<char>, bind_port: Seq<char>) -> Result<
    DynamicView,
    ConfigErrorView,
> {
    match number_u16(bind_port) {
        Err(e) => Err(ConfigErrorView::Number(e)),
        Ok(b) => Ok(DynamicView { bind_addr, bind_port: b }),
    }
}

/// The SOCKS5 proxy that `s` stands for: `[bind_addr:]port`, or the two fields
/// as two words.
pub open spec fn dynamic_forward(s: Seq<char>) -> Result<DynamicView, ConfigErrorView> {
    let t = words(s);
    if t.len() == 1 {
        let p = pieces(s, ':');
        if p.len() == 1 {
            dynamic_fields("127.0.0.1"@, p[0])
        } else if p.len() == 2 {
            dynamic_fields(p[0], p[1])
        } else {
            Err(
                ConfigErrorView::Syntax(
                    "Invalid dynamic forward spec '"@ + s + "', expected [bind_addr:]port"@,
                ),
            )
        }
    } else if t.len() == 2 {
        dynamic_fields(t[0], t[1])
    } else {
        Err(ConfigErrorView::Syntax("Invalid dynamic forward spec '"@ + s + "'"@))
    }
}

/// The name of the TUN device that belongs to an automatic tunnel.
pub open spec fn auto_tun_name(id: u16) -> Seq<char> {
    "tun2222"@ + decimal(id as nat)
}

/// The TUN tunnel that `s` stands for: `auto`, `auto:<id>`,
/// `local_tun[:remote_tun]`, or the two devices as two words.
pub open spec fn tun_forward(s: Seq<char>) -> Result<TunView, ConfigErrorView> {
    let u = trimmed(s);
    let t = words(u);
    if u == "auto"@ {
        Ok(TunView { local_tun: "auto"@, remote_tun: "auto"@, auto_id: None })
    } else if "auto:"@.is_prefix_of(u) {
        let id_text = u.skip("auto:"@.len() as int);
        match number_u16(trimmed(id_text)) {
            Err(e) => Err(
                ConfigErrorView::Syntax(
                    "Invalid auto TUN id '"@ + id_text + "': "@ + int_error_text(e),
                ),
            ),
            Ok(id) => Ok(
                TunView {
                    local_tun: auto_tun_name(id),
                    remote_tun: auto_tun_name(id),
                    auto_id: Some(id),
                },
            ),
        }
    } else if t.len() == 1 {
        let p = pieces(u, ':');
        if p.len() == 1 {
            Ok(TunView { local_tun: p[0], remote_tun: p[0], auto_id: None })
        } else if p.len() == 2 {
            Ok(TunView { local_tun: p[0], remote_tun: p[1], auto_id: None })
        } else {
            Err(
                ConfigErrorView::Syntax(
                    "Invalid TUN spec '"@ + s + "', expected local_tun[:remote_tun] or 'auto'"@,
                ),
            )
        }
    } else if t.len() == 2 {
        Ok(TunView { local_tun: t[0], remote_tun: t[1], auto_id: None })
    } else {
        Err(ConfigErrorView::Syntax("Invalid TUN spec '"@ + s + "'"@))
    }
}

/// Reads a firewall mark.
pub fn parse_fwmark(s: &str) -> (r: Result<u32, String>)
    ensures
        match r {
            Ok(n) => fwmark(s@) == Ok::<u32, Seq<char>>(n),
            Err(m) => fwmark(s@) == Err::<u32, Seq<char>>(m@),
        },
{
    let t = trim(s);
    proof {
        reveal_strlit("0x");
        reveal_strlit("0X");
    }
    let hex = match strip_prefix(t.as_str(), "0x") {
        Some(h) => Some(h),
        None => strip_prefix(t.as_str(), "0X"),
    };
    match hex {
        Some(h) => match parse_u32(h.as_str(), 16) {
            Ok(n) => Ok(n),
            Err(e) => {
                let mut m = copy("Invalid hex fwmark '");
                m.append(t.as_str());
                m.append("': ");
                m.append(e.message().as_str());
                Err(m)
            },
        },
        None => match parse_u32(t.as_str(), 10) {
            Ok(n) => Ok(n),
            Err(e) => {
                let mut m = copy("Invalid fwmark '");
                m.append(t.as_str());
                m.append("': ");
                m.append(e.message().as_str());
                Err(m)
            },
        },
    }
}

/// Reads a decimal port.
fn parse_port(s: &str) -> (r: Result<u16, ConfigError>)
    ensures
        match number_u16(s@) {
            Ok(n) => r == Ok::<u16, ConfigError>(n),
            Err(e) => r == Err::<u16, ConfigError>(ConfigError::Number(e)),
        },
{
    match parse_u16(s) {
        Ok(n) => Ok(n),
        Err(e) => Err(ConfigError::Number(e)),
    }
}

/// The model of a host and a port.
pub open spec fn pair_view(r: Result<(String, u16), ConfigError>) -> Result<
    (Seq<char>, u16),
    ConfigErrorView,
> {
    match r {
        Ok((h, p)) => Ok((h@, p)),
        Err(e) => Err(e@),
    }
}

/// Reads `host:port` or a port alone.
pub fn parse_host_port_pair(s: &str, default_host: &str) -> (r: Result<(String, u16), ConfigError>)
    ensures
        pair_view(r) == host_port_pair(s@, default_host@),
{
    match rfind_char(s, ':') {
        Some(i) => {
            let n = s.unicode_len();
            let h = slice(s, 0, i);
            let p = slice(s, i + 1, n);
            assert(h@ == s@.take(i as int));
            assert(p@ == s@.skip(i + 1));
            match parse_port(p.as_str()) {
                Ok(port) => Ok((h, port)),
                Err(e) => Err(e),
            }
        },
        None => match parse_port(s) {
            Ok(port) => Ok((copy(default_host), port)),
            Err(e) => Err(e),
        },
    }
}

/// Reads `host:port`.
pub fn parse_target_pair(s: &str) -> (r: Result<(String, u16), ConfigError>)
    ensures
        pair_view(r) == target_pair(s@),
{
    match rfind_char(s, ':') {
        Some(_) => {
            let none = String::new();
            parse_host_port_pair(s, none.as_str())
        },
        None => {
            let mut m = copy("Target must be in host:port format, got '");
            m.append(s);
            m.append("'");
            Err(ConfigError::Syntax(m))
        },
    }
}

fn parse_fields(bind_addr: &str, bind_port: &str, target_host: &str, target_port: &str) -> (r: Result<
    LocalForwardSpec,
    ConfigError,
>)
    ensures
        parsed(r) == forward_fields(bind_addr@, bind_port@, target_host@, target_port@),
{
    match parse_port(bind_port) {
        Err(e) => Err(e),
        Ok(b) => match parse_port(target_port) {
            Err(e) => Err(e),
            Ok(t) => Ok(
                LocalForwardSpec {
                    bind_addr: copy(bind_addr),
                    bind_port: b,
                    target_host: copy(target_host),
                    target_port: t,
                },
            ),
        },
    }
}

/// Reads a port forwarding in either direction.
fn parse_port_forward(spec: &str, default_addr: &str, noun: &str) -> (r: Result<
    LocalForwardSpec,
    ConfigError,
>)
    ensures
        parsed(r) == port_forward(spec@, default_addr@, noun@),
{
    let t = split_whitespace(spec);
    assert(words(spec@).len() == t@.len());
    if t.len() == 1 {
        let p = split_on(spec, ':');
        assert(pieces(spec@, ':').len() == p@.len());
        if p.len() == 3 {
            parse_fields(default_addr, p[0].as_str(), p[1].as_str(), p[2].as_str())
        } else if p.len() == 4 {
            parse_fields(p[0].as_str(), p[1].as_str(), p[2].as_str(), p[3].as_str())
        } else {
            let mut m = copy("Invalid ");
            m.append(noun);
            m.append(" forward spec '");
            m.append(spec);
            m.append("', expected [bind_addr:]port:host:hostport");
            Err(ConfigError::Syntax(m))
        }
    } else if t.len() == 2 {
        match parse_host_port_pair(t[0].as_str(), default_addr) {
            Err(e) => Err(e),
            Ok((bind_addr, bind_port)) => match parse_target_pair(t[1].as_str()) {
                Err(e) => Err(e),
                Ok((target_host, target_port)) => Ok(
                    LocalForwardSpec { bind_addr, bind_port, target_host, target_port },
                ),
            },
        }
    } else if t.len() == 3 {
        parse_fields(default_addr, t[0].as_str(), t[1].as_str(), t[2].as_str())
    } else if t.len() == 4 {
        parse_fields(t[0].as_str(), t[1].as_str(), t[2].as_str(), t[3].as_str())
    } else {
        let mut m = copy("Invalid ");
        m.append(noun);
        m.append(" forward spec '");
        m.append(spec);
        m.append("'");
        Err(ConfigError::Syntax(m))
    }
}

/// Reads a local port forwarding.
pub fn parse_local_forward(spec: &str) -> (r: Result<LocalForwardSpec, ConfigError>)
    ensures
        parsed(r) == local_forward(spec@),
{
    parse_port_forward(spec, "127.0.0.1", "local")
}

/// Reads a remote port forwarding.
pub fn parse_remote_forward(spec: &str) -> (r: Result<RemoteForwardSpec, ConfigError>)
    ensures
        parsed(r) == remote_forward(spec@),
{
    match parse_port_forward(spec, "0.0.0.0", "remote") {
        Ok(f) => Ok(
            RemoteForwardSpec {
                bind_addr: f.bind_addr,
                bind_port: f.bind_port,
                target_host: f.target_host,
                target_port: f.target_port,
            },
        ),
        Err(e) => Err(e),
    }
}

fn parse_dynamic_fields(bind_addr: &str, bind_port: &str) -> (r: Result<
    DynamicForwardSpec,
    ConfigError,
>)
    ensures
        parsed(r) == dynamic_fields(bind_addr@, bind_port@),
{
    match parse_port(bind_port) {
        Err(e) => Err(e),
        Ok(b) => Ok(DynamicForwardSpec { bind_addr: copy(bind_addr), bind_port: b }),
    }
}

/// Reads a SOCKS5 proxy.
pub fn parse_dynamic_forward(spec: &str) -> (r: Result<DynamicForwardSpec, ConfigError>)
    ensures
        parsed(r) == dynamic_forward(spec@),
{
    let t = split_whitespace(spec);
    assert(words(spec@).len() == t@.len());
    if t.len() == 1 {
        let p = split_on(spec, ':');
        assert(pieces(spec@, ':').len() == p@.len());
        if p.len() == 1 {
            parse_dynamic_fields("127.0.0.1", p[0].as_str())
        } else if p.len() == 2 {
            parse_dynamic_fields(p[0].as_str(), p[1].as_str())
        } else {
            let mut m = copy("Invalid dynamic forward spec '");
            m.append(spec);
            m.append("', expected [bind_addr:]port");
            Err(ConfigError::Syntax(m))
        }
    } else if t.len() == 2 {
        parse_dynamic_fields(t[0].as_str(), t[1].as_str())
    } else {
        let mut m = copy("Invalid dynamic forward spec '");
        m.append(spec);
        m.append("'");
        Err(ConfigError::Syntax(m))
    }
}

/// Writes the name of the TUN device that belongs to an automatic tunnel.
pub fn format_auto_tun_name(id: u16) -> (r: String)
    ensures
        r@ == auto_tun_name(id),
{
    let mut r = copy("tun2222");
    r.append(format_decimal(id as u32).as_str());
    r
}

/// Reads a TUN tunnel.
pub fn parse_tun_forward(spec: &str) -> (r: Result<TunForwardSpec, ConfigError>)
    ensures
        parsed(r) == tun_forward(spec@),
{
    let u = trim(spec);
    if same(u.as_str(), "auto") {
        return Ok(
            TunForwardSpec { local_tun: copy("auto"), remote_tun: copy("auto"), auto_id: None },
        );
    }
    if let Some(id_text) = strip_prefix(u.as_str(), "auto:") {
        return match parse_u16(trim(id_text.as_str()).as_str()) {
            Err(e) => {
                let mut m = copy("Invalid auto TUN id '");
                m.append(id_text.as_str());
                m.append("': ");
                m.append(e.message().as_str());
                Err(ConfigError::Syntax(m))
            },
            Ok(id) => Ok(
                TunForwardSpec {
                    local_tun: format_auto_tun_name(id),
                    remote_tun: format_auto_tun_name(id),
                    auto_id: Some(id),
                },
            ),
        };
    }
    let t = split_whitespace(u.as_str());
    assert(words(u@).len() == t@.len());
    if t.len() == 1 {
        let p = split_on(u.as_str(), ':');
        assert(pieces(u@, ':').len() == p@.len());
        if p.len() == 1 {
            Ok(
                TunForwardSpec {
                    local_tun: copy(p[0].as_str()),
                    remote_tun: copy(p[0].as_str()),
                    auto_id: None,
                },
            )
        } else if p.len() == 2 {
            Ok(
                TunForwardSpec {
                    local_tun: copy(p[0].as_str()),
                    remote_tun: copy(p[1].as_str()),
                    auto_id: None,
                },
            )
        } else {
            let mut m = copy("Invalid TUN spec '");
            m.append(spec);
            m.append("', expected local_tun[:remote_tun] or 'auto'");
            Err(ConfigError::Syntax(m))
        }
    } else if t.len() == 2 {
        Ok(
            TunForwardSpec {
                local_tun: copy(t[0].as_str()),
                remote_tun: copy(t[1].as_str()),
                auto_id: None,
            },
        )
    } else {
        let mut m = copy("Invalid TUN spec '");
        m.append(spec);
        m.append("'");
        Err(ConfigError::Syntax(m))
    }
}

} // verus!
