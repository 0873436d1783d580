//! The commands that follow once the tunnels are up: which there are, and what
//! they say.

use crate::forward::TunView;
use crate::hooks::{
    auto_cleanup, auto_setup, auto_setup6, cleanup, manual_setup, post_up, tun_hooks,
    with_interface, HookView,
};
use crate::number::decimal;
use crate::resolve::{ResolvedView, TunAddrsView};
use crate::tun_setup::{bare4, bare6, device_name};
use vstd::prelude::*;
use vstd::string::*;

verus! {

/// The placeholder is replaced wherever it stands, and the text around it is
/// treated as if it stood alone.
pub proof fn placeholder_is_replaced_anywhere(a: Seq<char>, b: Seq<char>, device: Seq<char>)
    ensures
        with_interface(a + "%i"@ + b, device) == with_interface(a, device) + device
            + with_interface(b, device),
    decreases a.len(),
{
    reveal_strlit("%i");
    let s = a + "%i"@ + b;
    if a.len() == 0 {
        assert(s.skip(2) =~= b);
        assert(s[0] == '%' && s[1] == 'i');
        assert(with_interface(a, device) =~= Seq::<char>::empty());
        assert(Seq::<char>::empty() + device =~= device);
    } else if a.len() >= 2 && a[0] == '%' && a[1] == 'i' {
        placeholder_is_replaced_anywhere(a.skip(2), b, device);
        assert(s.skip(2) =~= a.skip(2) + "%i"@ + b);
        assert(s[0] == a[0] && s[1] == a[1]);
        let t = with_interface(a.skip(2), device);
        assert(device + (t + device + with_interface(b, device)) =~= (device + t) + device
            + with_interface(b, device));
    } else {
        placeholder_is_replaced_anywhere(a.skip(1), b, device);
        assert(s.skip(1) =~= a.skip(1) + "%i"@ + b);
        assert(s[0] == a[0]);
        if a.len() >= 2 {
            assert(s[1] == a[1]);
        } else {
            assert(s[1] == '%');
        }
        let t = with_interface(a.skip(1), device);
        assert(seq![a[0]] + (t + device + with_interface(b, device)) =~= (seq![a[0]] + t) + device
            + with_interface(b, device));
    }
}

/// The commands of the user come last, that for the server before that for here. In
/// each the placeholder stands for the device at its end of the tunnel: there the
/// one that is asked for, here the one that was created.
pub proof fn user_commands_come_last(c: ResolvedView, created: Option<Seq<char>>)
    ensures
        ({
            let v = post_up(c, created);
            let setup = match c.tun_forward {
                Some(t) => tun_hooks(t, c.tun_addrs),
                None => seq![],
            };
            let there = match (c.remote_post_up, c.tun_forward) {
                (None, _) => seq![],
                (Some(cmd), None) => seq![HookView::Remote(cmd)],
                (Some(cmd), Some(t)) => seq![
                    HookView::Remote(with_interface(cmd, device_name(t.remote_tun))),
                ],
            };
            let here = match (c.local_post_up, created) {
                (None, _) => seq![],
                (Some(cmd), None) => seq![HookView::Local(cmd)],
                (Some(cmd), Some(d)) => seq![HookView::Local(with_interface(cmd, d))],
            };
            v == setup + there + here
        }),
{
    let setup = match c.tun_forward {
        Some(t) => tun_hooks(t, c.tun_addrs),
        None => seq![],
    };
    assert(setup + Seq::<HookView>::empty() + Seq::<HookView>::empty() =~= setup);
    assert(setup + Seq::<HookView>::empty() =~= setup);
    assert(post_up(c, created) =~= post_up(c, created) + Seq::<HookView>::empty());
}

/// The server's end of a tunnel is given the addresses of each family of which both
/// ends have one, the remote address as its own and the local one as its peer's. Of
/// a tunnel without an identifier that is IPv4 alone.
pub proof fn server_end_is_addressed(tun: TunView, addrs: TunAddrsView)
    ensures
        ({
            let v = tun_hooks(tun, addrs);
            let v4 = addrs.remote is Some && addrs.local is Some;
            let v6 = addrs.remote6 is Some && addrs.local6 is Some;
            &&& tun.auto_id matches Some(id) ==> {
                &&& v.len() == (if v4 {
                    1int
                } else {
                    0
                }) + (if v6 {
                    1int
                } else {
                    0
                })
                &&& v4 ==> v[0] == HookView::Remote(
                    auto_setup(id, bare4(addrs.remote->0), bare4(addrs.local->0)),
                )
                &&& v6 ==> v.last() == HookView::Remote(
                    auto_setup6(id, bare6(addrs.remote6->0), bare6(addrs.local6->0)),
                )
            }
            &&& tun.auto_id is None && v4 ==> v == seq![
                HookView::Remote(
                    manual_setup(
                        device_name(tun.remote_tun),
                        bare4(addrs.remote->0),
                        bare4(addrs.local->0),
                    ),
                ),
            ]
            &&& tun.auto_id is None && !v4 ==> v.len() == 0
        }),
{
}

/// The server cleans up after a tunnel with an identifier and after no other.
pub proof fn only_automatic_tunnels_are_undone(tun: Option<TunView>)
    ensures
        tun is None ==> cleanup(tun) is None,
        tun matches Some(t) ==> (t.auto_id is None ==> cleanup(tun) is None),
        tun matches Some(t) ==> t.auto_id matches Some(id) ==> cleanup(tun) == Some(
            auto_cleanup(id),
        ),
{
}

/// What the server is told, word for word: the device is named `tun2222` and the
/// identifier, the table `sshtun` and the identifier, the traffic is marked with
/// 65536 times the identifier, and the routes are in the table of that number.
pub proof fn server_commands_are_these(
    id: u16,
    remote: Seq<char>,
    local: Seq<char>,
    dev: Seq<char>,
    mark: Seq<char>,
    n: Seq<char>,
)
    requires
        n == decimal(id as nat),
        dev == "tun2222"@ + n,
        mark == decimal(65536 * id as nat),
    ensures
        auto_setup(id, remote, local)
            == "for i in $(seq 1 30); do if ip link show dev "@ + dev
            + " >/dev/null 2>&1; then break; fi; sleep 0.1; done; sysctl -w net.ipv4.ip_forward=1 2>/dev/null || true; ip addr add "@
            + remote + "/32 peer "@ + local + " dev "@ + dev
            + " 2>/dev/null || true; ip link set dev "@ + dev
            + " up 2>/dev/null || true; nft 'add table inet sshtun"@ + n
            + "; delete table inet sshtun"@ + n + "; table inet sshtun"@ + n
            + " { chain prerouting { type filter hook prerouting priority mangle; policy accept; iifname \""@
            + dev + "\" ct state new ct mark set "@ + mark + "; iifname != \""@ + dev
            + "\" ct mark "@ + mark
            + " meta mark set ct mark; }; chain output { type route hook output priority mangle; policy accept; ct mark "@
            + mark
            + " meta mark set ct mark; }; chain postrouting { type nat hook postrouting priority srcnat; policy accept; oifname != \""@
            + dev + "\" ip saddr "@ + local + " masquerade; }; }'; ip rule del fwmark "@ + mark
            + "/0xffff0000 lookup "@ + n + " 2>/dev/null || true; ip rule add fwmark "@ + mark
            + "/0xffff0000 lookup "@ + n + " prio 10000; ip route replace default dev "@ + dev
            + " table "@ + n,
        auto_setup6(id, remote, local) == "ip addr add "@ + remote + "/127 peer "@ + local
            + " dev "@ + dev + " 2>/dev/null || true"@,
        manual_setup(dev, remote, local) == "ip addr add "@ + remote + "/32 peer "@ + local
            + " dev "@ + dev + " 2>/dev/null || true; ip link set "@ + dev + " up"@,
        auto_cleanup(id) == "nft 'add table inet sshtun"@ + n + "; delete table inet sshtun"@ + n
            + "' 2>/dev/null || true; ip rule del fwmark "@ + mark + "/0xffff0000 lookup "@ + n
            + " 2>/dev/null || true; ip route del default dev "@ + dev + " table "@ + n
            + " 2>/dev/null || true; ip link set dev "@ + dev + " down 2>/dev/null || true"@,
{
}

} // verus!
