//! The commands that run once the tunnels are up, and those that undo them.

use crate::forward::{auto_tun_name, format_auto_tun_name, TunForwardSpec, TunView};
use crate::number::{decimal, format_decimal};
use crate::resolve::{ResolvedConfig, ResolvedView, TunAddrsView};
use crate::text::{copy, opt_text, slice};
use crate::tun_setup::{
    bare4, bare6, device_name, strip_prefix_len4, strip_prefix_len6, tun_device_name,
};
use vstd::prelude::*;
use vstd::string::*;

verus! {

/// A command for a shell.
#[derive(Debug, Clone, PartialEq, Eq)]
pub enum Hook {
    /// It runs on the server.
    Remote(String),
    /// It runs here.
    Local(String),
}

/// The model of a `Hook`.
pub enum HookView {
    Remote(Seq<char>),
    Local(Seq<char>),
}

impl View for Hook {
    type V = HookView;

    open spec fn view(&self) -> HookView {
        match self {
            Hook::Remote(s) => HookView::Remote(s@),
            Hook::Local(s) => HookView::Local(s@),
        }
    }
}

/// The views of hooks.
pub open spec fn hooks(v: Seq<Hook>) -> Seq<HookView> {
    v.map_values(|h: Hook| h@)
}

/// `cmd` with every `%i` replaced by the name of a device.
pub open spec fn with_interface(cmd: Seq<char>, device: Seq<char>) -> Seq<char>
    decreases cmd.len(),
{
    if cmd.len() == 0 {
        seq![]
    } else if cmd.len() >= 2 && cmd[0] == '%' && cmd[1] == 'i' {
        device + with_interface(cmd.skip(2), device)
    } else {
        seq![cmd[0]] + with_interface(cmd.skip(1), device)
    }
}

/// The mark of the traffic that belongs to an automatic tunnel: its identifier in
/// the upper half.
pub open spec fn tun_mark(id: u16) -> nat {
    id as nat * 0x10000
}

/// What sets the server's end of an automatic tunnel up: it waits for the
/// device, gives it its IPv4 address, and routes and masquerades its traffic.
pub open spec fn auto_setup(id: u16, remote: Seq<char>, local: Seq<char>) -> Seq<char> {
    let dev = auto_tun_name(id);
    let mark = decimal(tun_mark(id));
    let id = decimal(id as nat);
    "for i in $(seq 1 30); do if ip link show dev "@
        + dev
        + " >/dev/null 2>&1; then break; fi; sleep 0.1; done; sysctl -w net.ipv4.ip_forward=1 2>/dev/null || true; ip addr add "@
        + remote
        + "/32 peer "@
        + local
        + " dev "@
        + dev
        + " 2>/dev/null || true; ip link set dev "@
        + dev
        + " up 2>/dev/null || true; nft 'add table inet sshtun"@
        + id
        + "; delete table inet sshtun"@
        + id
        + "; table inet sshtun"@
        + id
        + " { chain prerouting { type filter hook prerouting priority mangle; policy accept; iifname \""@
        + dev
        + "\" ct state new ct mark set "@
        + mark
        + "; iifname != \""@
        + dev
        + "\" ct mark "@
        + mark
        + " meta mark set ct mark; }; chain output { type route hook output priority mangle; policy accept; ct mark "@
        + mark
        + " meta mark set ct mark; }; chain postrouting { type nat hook postrouting priority srcnat; policy accept; oifname != \""@
        + dev
        + "\" ip saddr "@
        + local
        + " masquerade; }; }'; ip rule del fwmark "@
        + mark
        + "/0xffff0000 lookup "@
        + id
        + " 2>/dev/null || true; ip rule add fwmark "@
        + mark
        + "/0xffff0000 lookup "@
        + id
        + " prio 10000; ip route replace default dev "@
        + dev
        + " table "@
        + id
}

/// What gives the server's end of an automatic tunnel its IPv6 address.
pub open spec fn auto_setup6(id: u16, remote: Seq<char>, local: Seq<char>) -> Seq<char> {
    let dev = auto_tun_name(id);
    "ip addr add "@
        + remote
        + "/127 peer "@
        + local
        + " dev "@
        + dev
        + " 2>/dev/null || true"@
}

/// What gives the server's end of any other tunnel its address.
pub open spec fn manual_setup(dev: Seq<char>, remote: Seq<char>, local: Seq<char>) -> Seq<char> {
    "ip addr add "@
        + remote
        + "/32 peer "@
        + local
        + " dev "@
        + dev
        + " 2>/dev/null || true; ip link set "@
        + dev
        + " up"@
}

/// What undoes the setup of an automatic tunnel.
pub open spec fn auto_cleanup(id: u16) -> Seq<char> {
    let dev = auto_tun_name(id);
    let mark = decimal(tun_mark(id));
    let id = decimal(id as nat);
    "nft 'add table inet sshtun"@
        + id
        + "; delete table inet sshtun"@
        + id
        + "' 2>/dev/null || true; ip rule del fwmark "@
        + mark
        + "/0xffff0000 lookup "@
        + id
        + " 2>/dev/null || true; ip route del default dev "@
        + dev
        + " table "@
        + id
        + " 2>/dev/null || true; ip link set dev "@
        + dev
        + " down 2>/dev/null || true"@
}

/// What sets the server's end of a tunnel up, as far as it has addresses.
pub open spec fn tun_hooks(tun: TunView, addrs: TunAddrsView) -> Seq<HookView> {
    let v4 = addrs.remote is Some && addrs.local is Some;
    let v6 = addrs.remote6 is Some && addrs.local6 is Some;
    let (r4, l4) = (bare4(addrs.remote->0), bare4(addrs.local->0));
    let (r6, l6) = (bare6(addrs.remote6->0), bare6(addrs.local6->0));
    match tun.auto_id {
        Some(id) => {
            let first = if v4 {
                seq![HookView::Remote(auto_setup(id, r4, l4))]
            } else {
                seq![]
            };
            if v6 {
                first.push(HookView::Remote(auto_setup6(id, r6, l6)))
            } else {
                first
            }
        },
        None => if v4 {
            seq![HookView::Remote(manual_setup(device_name(tun.remote_tun), r4, l4))]
        } else {
            seq![]
        },
    }
}

/// A command of the user, with the placeholder for the device replaced where
/// there is one.
pub open spec fn user_command(cmd: Seq<char>, device: Option<Seq<char>>) -> Seq<char> {
    match device {
        Some(d) => with_interface(cmd, d),
        None => cmd,
    }
}

/// The commands to run once the tunnels are up, in order: what sets the server's
/// end up, the user's command for the server, and the user's command for here.
/// The device here is the one that was created, under the name that it was given.
pub open spec fn post_up(c: ResolvedView, created: Option<Seq<char>>) -> Seq<HookView> {
    let setup = match c.tun_forward {
        Some(t) => tun_hooks(t, c.tun_addrs),
        None => seq![],
    };
    let remote_device = match c.tun_forward {
        Some(t) => Some(device_name(t.remote_tun)),
        None => None,
    };
    let remote = match c.remote_post_up {
        Some(cmd) => setup.push(HookView::Remote(user_command(cmd, remote_device))),
        None => setup,
    };
    match c.local_post_up {
        Some(cmd) => remote.push(HookView::Local(user_command(cmd, created))),
        None => remote,
    }
}

/// What undoes the setup of the server's end; only that of an automatic tunnel is
/// undone.
pub open spec fn cleanup(tun: Option<TunView>) -> Option<Seq<char>> {
    match tun {
        Some(t) => match t.auto_id {
            Some(id) => Some(auto_cleanup(id)),
            None => None,
        },
        None => None,
    }
}

fn format_mark(id: u16) -> (r: String)
    ensures
        r@ == decimal(tun_mark(id)),
{
    format_decimal(id as u32 * 0x10000)
}

fn format_auto_setup(id: u16, remote: &str, local: &str) -> (r: String)
    ensures
        r@ == auto_setup(id, remote@, local@),
{
    let name = format_auto_tun_name(id);
    let dev = name.as_str();
    let mark_text = format_mark(id);
    let mark = mark_text.as_str();
    let id_text = format_decimal(id as u32);
    let id = id_text.as_str();
    let mut r = copy("for i in $(seq 1 30); do if ip link show dev ");
    r.append(dev);
    r.append(" >/dev/null 2>&1; then break; fi; sleep 0.1; done; sysctl -w net.ipv4.ip_forward=1 2>/dev/null || true; ip addr add ");
    r.append(remote);
    r.append("/32 peer ");
    r.append(local);
    r.append(" dev ");
    r.append(dev);
    r.append(" 2>/dev/null || true; ip link set dev ");
    r.append(dev);
    r.append(" up 2>/dev/null || true; nft 'add table inet sshtun");
    r.append(id);
    r.append("; delete table inet sshtun");
    r.append(id);
    r.append("; table inet sshtun");
    r.append(id);
    r.append(" { chain prerouting { type filter hook prerouting priority mangle; policy accept; iifname \"");
    r.append(dev);
    r.append("\" ct state new ct mark set ");
    r.append(mark);
    r.append("; iifname != \"");
    r.append(dev);
    r.append("\" ct mark ");
    r.append(mark);
    r.append(" meta mark set ct mark; }; chain output { type route hook output priority mangle; policy accept; ct mark ");
    r.append(mark);
    r.append(" meta mark set ct mark; }; chain postrouting { type nat hook postrouting priority srcnat; policy accept; oifname != \"");
    r.append(dev);
    r.append("\" ip saddr ");
    r.append(local);
    r.append(" masquerade; }; }'; ip rule del fwmark ");
    r.append(mark);
    r.append("/0xffff0000 lookup ");
    r.append(id);
    r.append(" 2>/dev/null || true; ip rule add fwmark ");
    r.append(mark);
    r.append("/0xffff0000 lookup ");
    r.append(id);
    r.append(" prio 10000; ip route replace default dev ");
    r.append(dev);
    r.append(" table ");
    r.append(id);
    r
}

fn format_auto_setup6(id: u16, remote: &str, local: &str) -> (r: String)
    ensures
        r@ == auto_setup6(id, remote@, local@),
{
    let name = format_auto_tun_name(id);
    let dev = name.as_str();
    let mut r = copy("ip addr add ");
    r.append(remote);
    r.append("/127 peer ");
    r.append(local);
    r.append(" dev ");
    r.append(dev);
    r.append(" 2>/dev/null || true");
    r
}

fn format_manual_setup(dev: &str, remote: &str, local: &str) -> (r: String)
    ensures
        r@ == manual_setup(dev@, remote@, local@),
{
    let mut r = copy("ip addr add ");
    r.append(remote);
    r.append("/32 peer ");
    r.append(local);
    r.append(" dev ");
    r.append(dev);
    r.append(" 2>/dev/null || true; ip link set ");
    r.append(dev);
    r.append(" up");
    r
}

fn format_auto_cleanup(id: u16) -> (r: String)
    ensures
        r@ == auto_cleanup(id),
{
    let name = format_auto_tun_name(id);
    let dev = name.as_str();
    let mark_text = format_mark(id);
    let mark = mark_text.as_str();
    let id_text = format_decimal(id as u32);
    let id = id_text.as_str();
    let mut r = copy("nft 'add table inet sshtun");
    r.append(id);
    r.append("; delete table inet sshtun");
    r.append(id);
    r.append("' 2>/dev/null || true; ip rule del fwmark ");
    r.append(mark);
    r.append("/0xffff0000 lookup ");
    r.append(id);
    r.append(" 2>/dev/null || true; ip route del default dev ");
    r.append(dev);
    r.append(" table ");
    r.append(id);
    r.append(" 2>/dev/null || true; ip link set dev ");
    r.append(dev);
    r.append(" down 2>/dev/null || true");
    r
}

/// `cmd` with every `%i` replaced by the name of a device.
pub fn name_interface(cmd: &str, device: &str) -> (r: String)
    ensures
        r@ == with_interface(cmd@, device@),
{
    let n = cmd.unicode_len();
    let mut r = String::new();
    let mut i: usize = 0;
    assert(cmd@.skip(0) == cmd@);
    while i < n
        invariant
            n == cmd@.len(),
            i <= n,
            with_interface(cmd@, device@) == r@ + with_interface(cmd@.skip(i as int), device@),
        decreases n - i,
    {
        let ghost rest = cmd@.skip(i as int);
        let c = cmd.get_char(i);
        if n - i >= 2 && c == '%' && cmd.get_char(i + 1) == 'i' {
            assert(rest.skip(2) == cmd@.skip(i + 2));
            assert(r@ + (device@ + with_interface(rest.skip(2), device@)) == (r@ + device@)
                + with_interface(rest.skip(2), device@));
            r.append(device);
            i += 2;
        } else {
            assert(rest.skip(1) == cmd@.skip(i + 1));
            assert(r@ + (seq![rest[0]] + with_interface(rest.skip(1), device@)) == (r@ + seq![
                rest[0],
            ]) + with_interface(rest.skip(1), device@));
            let one = slice(cmd, i, i + 1);
            assert(one@ == seq![rest[0]]);
            r.append(one.as_str());
            i += 1;
        }
    }
    assert(r@ + Seq::<char>::empty() == r@);
    r
}

fn push_hook(v: &mut Vec<Hook>, h: Hook)
    ensures
        hooks(final(v)@) == hooks(old(v)@).push(h@),
{
    v.push(h);
    assert(hooks(v@) =~= hooks(old(v)@).push(h@));
}

fn list_tun_hooks(tun: &TunForwardSpec, config: &ResolvedConfig) -> (r: Vec<Hook>)
    ensures
        hooks(r@) == tun_hooks(tun@, config@.tun_addrs),
{
    let mut r: Vec<Hook> = Vec::new();
    assert(hooks(r@) =~= seq![]);
    if let (Some(remote), Some(local)) = (&config.remote_tun_addr, &config.local_tun_addr) {
        let remote = strip_prefix_len4(remote.as_str());
        let local = strip_prefix_len4(local.as_str());
        let text = match tun.auto_id {
            Some(id) => format_auto_setup(id, remote.as_str(), local.as_str()),
            None => format_manual_setup(
                tun_device_name(tun.remote_tun.as_str()).as_str(),
                remote.as_str(),
                local.as_str(),
            ),
        };
        push_hook(&mut r, Hook::Remote(text));
    }
    if let Some(id) = tun.auto_id {
        if let (Some(remote), Some(local)) = (&config.remote_tun_addr6, &config.local_tun_addr6) {
            let remote = strip_prefix_len6(remote.as_str());
            let local = strip_prefix_len6(local.as_str());
            let text = format_auto_setup6(id, remote.as_str(), local.as_str());
            push_hook(&mut r, Hook::Remote(text));
        }
    }
    assert(hooks(r@) =~= tun_hooks(tun@, config@.tun_addrs));
    r
}

/// The commands to run once the tunnels are up, in order. `created` is the name of
/// the device that was created here, if there is one.
pub fn post_up_hooks(config: &ResolvedConfig, created: &Option<String>) -> (r: Vec<Hook>)
    ensures
        hooks(r@) == post_up(config@, opt_text(*created)),
{
    let mut r: Vec<Hook> = match &config.tun_forward {
        Some(tun) => list_tun_hooks(tun, config),
        None => Vec::new(),
    };
    assert(config.tun_forward is None ==> hooks(r@) =~= seq![]);
    if let Some(cmd) = &config.remote_post_up {
        let text = match &config.tun_forward {
            Some(tun) => name_interface(
                cmd.as_str(),
                tun_device_name(tun.remote_tun.as_str()).as_str(),
            ),
            None => copy(cmd.as_str()),
        };
        push_hook(&mut r, Hook::Remote(text));
    }
    if let Some(cmd) = &config.local_post_up {
        let text = match created {
            Some(device) => name_interface(cmd.as_str(), device.as_str()),
            None => copy(cmd.as_str()),
        };
        push_hook(&mut r, Hook::Local(text));
    }
    r
}

/// What undoes the setup of the server's end.
pub fn cleanup_command(config: &ResolvedConfig) -> (r: Option<String>)
    ensures
        opt_text(r) == cleanup(config@.tun_forward),
{
    match &config.tun_forward {
        Some(tun) => match tun.auto_id {
            Some(id) => Some(format_auto_cleanup(id)),
            None => None,
        },
        None => None,
    }
}

/// Whether the placeholder for a device stands at a position.
pub open spec fn placeholder_at(cmd: Seq<char>, i: int) -> bool {
    0 <= i && i + 1 < cmd.len() && cmd[i] == '%' && cmd[i + 1] == 'i'
}

/// A command without the placeholder stays as it is.
pub proof fn command_without_placeholder_is_kept(cmd: Seq<char>, device: Seq<char>)
    requires
        forall|i: int| !#[trigger] placeholder_at(cmd, i),
    ensures
        with_interface(cmd, device) == cmd,
    decreases cmd.len(),
{
    if cmd.len() > 0 {
        assert(!placeholder_at(cmd, 0));
        assert forall|i: int| !#[trigger] placeholder_at(cmd.skip(1), i) by {
            assert(!placeholder_at(cmd, i + 1));
        }
        command_without_placeholder_is_kept(cmd.skip(1), device);
        assert(seq![cmd[0]] + cmd.skip(1) == cmd);
    }
}

/// No placeholder is left in a command for a device, unless its name can make
/// one: by holding it, by ending with `%`, by beginning with `i`, or by being
/// empty.
pub proof fn placeholders_are_replaced(cmd: Seq<char>, device: Seq<char>, i: int)
    requires
        device.len() > 0,
        device[0] != 'i',
        device.last() != '%',
        forall|k: int| !#[trigger] placeholder_at(device, k),
    ensures
        !placeholder_at(with_interface(cmd, device), i),
    decreases cmd.len(),
{
    if cmd.len() > 0 {
        if cmd.len() >= 2 && cmd[0] == '%' && cmd[1] == 'i' {
            placeholders_are_replaced(cmd.skip(2), device, i - device.len());
            assert(!placeholder_at(device, i));
        } else {
            placeholders_are_replaced(cmd.skip(1), device, i - 1);
            if i == 0 && cmd.len() > 1 {
                let rest = cmd.skip(1);
                assert(with_interface(rest, device)[0] == rest[0] || with_interface(
                    rest,
                    device,
                )[0] == device[0]);
            }
        }
    }
}

/// The name of a device that is asked for begins with `tun`, so a command for it
/// keeps a placeholder only where the name has a `%` of its own.
pub proof fn placeholders_for_device_are_replaced(cmd: Seq<char>, name: Seq<char>, i: int)
    requires
        !name.contains('%'),
    ensures
        !placeholder_at(with_interface(cmd, device_name(name)), i),
{
    reveal_strlit("tun");
    reveal_strlit("tun0");
    let device = device_name(name);
    assert(device[0] == 't') by {
        if "tun"@.is_prefix_of(name) {
            assert(name[0] == "tun"@[0]);
        }
    }
    assert forall|k: int| 0 <= k < device.len() implies #[trigger] device[k] != '%' by {
        if device == "tun"@ + name && k >= 3 {
            assert(name.contains(name[k - 3]));
        } else if device == name {
            assert(name.contains(name[k]));
        }
    }
    placeholders_are_replaced(cmd, device, i);
}

/// A mark fits the 32 bits that the kernel has for one, and no two automatic
/// tunnels share one.
pub proof fn marks_are_distinct(a: u16, b: u16)
    ensures
        tun_mark(a) <= u32::MAX,
        tun_mark(a) == tun_mark(b) ==> a == b,
{
}

} // verus!
