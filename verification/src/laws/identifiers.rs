//! Automatic tunnels: where their identifiers come from.

use crate::auto_tun::{
    auto_id, auto_id_is_link_local, auto_tun_id, default_route, device_info, network_info,
};
use crate::facts::{Facts, QuestionView};
use crate::laws::addresses::link_local_is_the_identifier;
use crate::number::decimal;
use crate::outside::sha256;
use crate::text::{pieces, trimmed, words};
use vstd::prelude::*;
use vstd::string::*;
use vstd::utf8::*;

verus! {

/// Whether a file is known, and holds nothing or cannot be read.
pub open spec fn says_nothing(f: Facts, path: Seq<char>) -> bool {
    match f.document(path) {
        None => false,
        Some(None) => true,
        Some(Some(t)) => trimmed(t).len() == 0,
    }
}

/// Whether a file is known to hold a text, but for the white space around it.
pub open spec fn says(f: Facts, path: Seq<char>, t: Seq<char>) -> bool {
    t.len() > 0 && match f.document(path) {
        Some(Some(d)) => trimmed(d) == t,
        _ => false,
    }
}

/// A machine is told from others by the first of these that says something: its
/// machine identifier, the one that the message bus keeps, its host name, and the
/// variables for the host name and the user.
pub proof fn machine_has_a_first_name(f: Facts, t: Seq<char>)
    ensures
        says(f, "/etc/machine-id"@, t) ==> device_info(f) == Ok::<Seq<char>, QuestionView>(t),
        f.document("/etc/machine-id"@) is None ==> device_info(f) == Err::<
            Seq<char>,
            QuestionView,
        >(QuestionView::Document("/etc/machine-id"@)),
        says_nothing(f, "/etc/machine-id"@) ==> {
            &&& says(f, "/var/lib/dbus/machine-id"@, t) ==> device_info(f) == Ok::<
                Seq<char>,
                QuestionView,
            >(t)
            &&& says_nothing(f, "/var/lib/dbus/machine-id"@) ==> {
                &&& says(f, "/etc/hostname"@, t) ==> device_info(f) == Ok::<
                    Seq<char>,
                    QuestionView,
                >(t)
                &&& says_nothing(f, "/etc/hostname"@) ==> match f.variable("HOSTNAME"@) {
                    None => device_info(f) is Err,
                    Some(v) => if v is Some && trimmed(v->0).len() > 0 {
                        device_info(f) == Ok::<Seq<char>, QuestionView>(trimmed(v->0))
                    } else {
                        match f.variable("USER"@) {
                            None => device_info(f) is Err,
                            Some(Some(u)) => device_info(f) == Ok::<Seq<char>, QuestionView>(u),
                            Some(None) => device_info(f) == Ok::<Seq<char>, QuestionView>(
                                "localhost"@,
                            ),
                        }
                    },
                }
            }
        },
{
}

/// Whether a line of the routing table is a default route.
pub open spec fn is_default(line: Seq<char>) -> bool {
    words(line).len() >= 3 && words(line)[1] == "00000000"@
}

/// The first default route of the table counts: its interface is its first word, and
/// its gateway the third.
pub proof fn first_default_route_counts(lines: Seq<Seq<char>>, i: int)
    requires
        0 <= i <= lines.len(),
        forall|k: int| 0 <= k < i ==> !is_default(#[trigger] lines[k]),
        i < lines.len() ==> is_default(lines[i]),
    ensures
        i == lines.len() ==> default_route(lines) is None,
        i < lines.len() ==> default_route(lines) == Some((words(lines[i])[0], words(lines[i])[2])),
    decreases i,
{
    if i > 0 {
        assert(!is_default(lines[0]));
        let rest = lines.drop_first();
        assert forall|k: int| 0 <= k < i - 1 implies !is_default(#[trigger] rest[k]) by {
            assert(rest[k] == lines[k + 1]);
        }
        first_default_route_counts(rest, i - 1);
    }
}

/// A network is told from others by the interface, the gateway and the hardware
/// address of its default route, which is looked for below the first line of the
/// table. There may be none of them.
pub proof fn network_is_its_default_route(
    f: Facts,
    title: Seq<char>,
    table: Seq<char>,
    iface: Seq<char>,
    gateway: Seq<char>,
)
    ensures
        f.document("/proc/net/route"@) == Some(None::<Seq<char>>) ==> network_info(f) == Ok::<
            Seq<char>,
            QuestionView,
        >(seq![]),
        f.document("/proc/net/route"@) is None ==> network_info(f) == Err::<
            Seq<char>,
            QuestionView,
        >(QuestionView::Document("/proc/net/route"@)),
        f.document("/proc/net/route"@) == Some(Some(table)) && pieces(table, '\n')[0] == title
            ==> match default_route(pieces(table, '\n').skip(1)) {
            None => network_info(f) == Ok::<Seq<char>, QuestionView>(seq![]),
            Some((i, g)) => i == iface && g == gateway ==> match f.document(
                "/sys/class/net/"@ + iface + "/address"@,
            ) {
                None => network_info(f) is Err,
                Some(None) => network_info(f) == Ok::<Seq<char>, QuestionView>(
                    iface + ":"@ + gateway + ":"@,
                ),
                Some(Some(mac)) => network_info(f) == Ok::<Seq<char>, QuestionView>(
                    iface + ":"@ + gateway + ":"@ + trimmed(mac),
                ),
            },
        },
{
    let p = pieces(table, '\n');
    assert(p.len() > 0);
    assert(p.skip(1) =~= p.drop_first());
    assert(trimmed(Seq::<char>::empty()) =~= Seq::<char>::empty());
    let s = iface + ":"@ + gateway + ":"@;
    assert(s + Seq::<char>::empty() =~= s);
}

/// The identifier of the tunnel to a host comes from the first two bytes of the
/// digest of the host, its port, the machine and the network, so it is the same for
/// the same four. The local end has its address, and the remote end the next one.
pub proof fn identifier_comes_from_the_two_ends(
    f: Facts,
    host: Seq<char>,
    port: u16,
    device: Seq<char>,
    network: Seq<char>,
)
    requires
        device_info(f) == Ok::<Seq<char>, QuestionView>(device),
        network_info(f) == Ok::<Seq<char>, QuestionView>(network),
    ensures
        ({
            let digest = sha256(
                encode_utf8(
                    host + ":"@ + decimal(port as nat) + "|"@ + device + "|"@ + network,
                ),
            );
            let raw = (digest[0] * 256 + digest[1]) as nat;
            match auto_tun_id(f, host, port) {
                Err(_) => false,
                Ok((id, local, remote)) => {
                    &&& id / 256 == raw % (254 * 127) / 127 + 1
                    &&& id % 256 == 2 * (raw % 127) + 1
                    &&& local == "169.254."@ + decimal((id / 256) as nat) + "."@ + decimal(
                        (id % 256) as nat,
                    )
                    &&& remote == "169.254."@ + decimal((id / 256) as nat) + "."@ + decimal(
                        (id % 256) as nat + 1,
                    )
                },
            }
        }),
{
    let digest = sha256(
        encode_utf8(host + ":"@ + decimal(port as nat) + "|"@ + device + "|"@ + network),
    );
    let raw = (digest[0] * 256 + digest[1]) as nat;
    let id = auto_id(raw);
    auto_id_is_link_local(raw);
    let pair = raw % (254 * 127);
    let k: nat = 254 * (raw / 32258) + pair / 127;
    assert(raw == 127 * k + pair % 127);
    assert(pair % 127 == raw % 127);
    link_local_is_the_identifier(id);
    link_local_is_the_identifier(id + 1);
}

/// Nothing is made up: where the machine or the network is not known, that is what
/// is asked for.
pub proof fn unknown_ends_are_asked_for(f: Facts, host: Seq<char>, port: u16)
    ensures
        device_info(f) matches Err(q) ==> auto_tun_id(f, host, port) == Err::<
            (u16, Seq<char>, Seq<char>),
            QuestionView,
        >(q),
        device_info(f) is Ok ==> (network_info(f) matches Err(q) ==> auto_tun_id(f, host, port)
            == Err::<(u16, Seq<char>, Seq<char>), QuestionView>(q)),
{
}

} // verus!
