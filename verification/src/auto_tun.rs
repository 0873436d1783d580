//! Automatic TUN tunnels: identifiers and addresses derived from the two ends.

use crate::addr::{format_ipv4, format_ipv6, ipv4_text, ipv6_text};
use crate::facts::{Facts, Question, QuestionView};
use crate::number::{decimal, format_decimal};
use crate::outside::{sha256, sha256_digest};
use crate::text::{copy, opt_text, pieces, same, split_on, split_whitespace, texts, trim, trimmed, words};
use vstd::prelude::*;
use vstd::string::*;
use vstd::utf8::*;

verus! {

/// The text of a file without the white space around it, where it can be read
/// and is not empty then.
pub open spec fn document_text(f: Facts, path: Seq<char>) -> Result<Option<Seq<char>>, QuestionView> {
    match f.document(path) {
        None => Err(QuestionView::Document(path)),
        Some(None) => Ok(None),
        Some(Some(t)) => if trimmed(t).len() > 0 {
            Ok(Some(trimmed(t)))
        } else {
            Ok(None)
        },
    }
}

/// What tells this machine from others: its machine identifier, else its host
/// name, else the name of the user.
pub open spec fn device_info(f: Facts) -> Result<Seq<char>, QuestionView> {
    match document_text(f, "/etc/machine-id"@) {
        Err(q) => Err(q),
        Ok(Some(t)) => Ok(t),
        Ok(None) => match document_text(f, "/var/lib/dbus/machine-id"@) {
            Err(q) => Err(q),
            Ok(Some(t)) => Ok(t),
            Ok(None) => match document_text(f, "/etc/hostname"@) {
                Err(q) => Err(q),
                Ok(Some(t)) => Ok(t),
                Ok(None) => match f.variable("HOSTNAME"@) {
                    None => Err(QuestionView::Variable("HOSTNAME"@)),
                    Some(v) => if v is Some && trimmed(v->0).len() > 0 {
                        Ok(trimmed(v->0))
                    } else {
                        match f.variable("USER"@) {
                            None => Err(QuestionView::Variable("USER"@)),
                            Some(Some(u)) => Ok(u),
                            Some(None) => Ok("localhost"@),
                        }
                    },
                },
            },
        },
    }
}

/// The interface and the gateway of the first default route in lines of the
/// kernel's routing table.
pub open spec fn default_route(lines: Seq<Seq<char>>) -> Option<(Seq<char>, Seq<char>)>
    decreases lines.len(),
{
    if lines.len() == 0 {
        None
    } else {
        let w = words(lines[0]);
        if w.len() >= 3 && w[1] == "00000000"@ {
            Some((w[0], w[2]))
        } else {
            default_route(lines.drop_first())
        }
    }
}

/// The file that holds the hardware address of an interface.
pub open spec fn hardware_address_path(iface: Seq<char>) -> Seq<char> {
    "/sys/class/net/"@ + iface + "/address"@
}

/// What tells the network that this machine is in from others: the interface,
/// the gateway and the hardware address of its default route.
pub open spec fn network_info(f: Facts) -> Result<Seq<char>, QuestionView> {
    match f.document("/proc/net/route"@) {
        None => Err(QuestionView::Document("/proc/net/route"@)),
        Some(None) => Ok(seq![]),
        Some(Some(table)) => match default_route(pieces(table, '\n').drop_first()) {
            None => Ok(seq![]),
            Some((iface, gateway)) => match f.document(hardware_address_path(iface)) {
                None => Err(QuestionView::Document(hardware_address_path(iface))),
                Some(mac) => Ok(
                    iface + ":"@ + gateway + ":"@ + trimmed(
                        if mac is Some {
                            mac->0
                        } else {
                            seq![]
                        },
                    ),
                ),
            },
        },
    }
}

/// The text whose digest gives the identifier of the tunnel to a host.
pub open spec fn tun_seed(host: Seq<char>, port: u16, device: Seq<char>, network: Seq<char>) -> Seq<
    char,
> {
    host + ":"@ + decimal(port as nat) + "|"@ + device + "|"@ + network
}

/// The identifier that 16 bits of a digest give. There are 254 times 127 of
/// them: the high byte is neither 0 nor 255, and the low byte is odd.
pub open spec fn auto_id(raw: nat) -> nat {
    let pair = raw % (254 * 127);
    (pair / 127 + 1) * 256 + (pair % 127) * 2 + 1
}

/// The link-local IPv4 address whose low 16 bits are `id`.
pub open spec fn link_local(id: nat) -> Seq<char> {
    ipv4_text(seq![169u8, 254u8, (id / 256) as u8, (id % 256) as u8])
}

/// The identifier and the two addresses that a digest gives.
pub open spec fn auto_assignment(digest: Seq<u8>) -> (u16, Seq<char>, Seq<char>) {
    let id = auto_id((digest[0] * 256 + digest[1]) as nat);
    (id as u16, link_local(id), link_local(id + 1))
}

/// The identifier of the tunnel to a host, and the addresses of its two ends.
pub open spec fn auto_tun_id(f: Facts, host: Seq<char>, port: u16) -> Result<
    (u16, Seq<char>, Seq<char>),
    QuestionView,
> {
    match device_info(f) {
        Err(q) => Err(q),
        Ok(device) => match network_info(f) {
            Err(q) => Err(q),
            Ok(network) => Ok(
                auto_assignment(sha256(encode_utf8(tun_seed(host, port, device, network)))),
            ),
        },
    }
}

/// The octets of the IPv6 address of the local end: `fd`, then 119 bits of a
/// digest, then a bit that is 0.
pub open spec fn local_octets(digest: Seq<u8>) -> Seq<u8> {
    seq![0xfdu8] + digest.take(14) + seq![(digest[14] - digest[14] % 2) as u8]
}

/// The octets of the IPv6 address of the remote end: those of the local one, but
/// for the last bit, which is 1.
pub open spec fn remote_octets(digest: Seq<u8>) -> Seq<u8> {
    seq![0xfdu8] + digest.take(14) + seq![(digest[14] - digest[14] % 2 + 1) as u8]
}

/// The two bytes of an identifier, the high one first.
pub open spec fn id_bytes(id: u16) -> Seq<u8> {
    seq![(id / 256) as u8, (id % 256) as u8]
}

/// The IPv6 addresses of the two ends of the tunnel with an identifier.
pub open spec fn auto_tun_ipv6(id: u16) -> (Seq<char>, Seq<char>) {
    let digest = sha256(id_bytes(id));
    (ipv6_text(local_octets(digest)), ipv6_text(remote_octets(digest)))
}

fn find_document_text(f: &Facts, path: &str) -> (r: Result<Option<String>, Question>)
    ensures
        match r {
            Ok(o) => document_text(*f, path@) == Ok::<Option<Seq<char>>, QuestionView>(opt_text(o)),
            Err(q) => document_text(*f, path@) == Err::<Option<Seq<char>>, QuestionView>(q@),
        },
{
    match f.find_document(path) {
        None => Err(Question::Document(copy(path))),
        Some(None) => Ok(None),
        Some(Some(s)) => {
            let t = trim(s.as_str());
            if t.as_str().unicode_len() > 0 {
                Ok(Some(t))
            } else {
                Ok(None)
            }
        },
    }
}

/// The model of a text, or of the question that is open.
pub open spec fn text_answer(r: Result<String, Question>) -> Result<Seq<char>, QuestionView> {
    match r {
        Ok(s) => Ok(s@),
        Err(q) => Err(q@),
    }
}

/// Tells this machine from others.
pub fn get_local_device_info(facts: &Facts) -> (r: Result<String, Question>)
    ensures
        text_answer(r) == device_info(*facts),
{
    match find_document_text(facts, "/etc/machine-id") {
        Err(q) => {
            return Err(q);
        },
        Ok(Some(t)) => {
            return Ok(t);
        },
        Ok(None) => {},
    }
    match find_document_text(facts, "/var/lib/dbus/machine-id") {
        Err(q) => {
            return Err(q);
        },
        Ok(Some(t)) => {
            return Ok(t);
        },
        Ok(None) => {},
    }
    match find_document_text(facts, "/etc/hostname") {
        Err(q) => {
            return Err(q);
        },
        Ok(Some(t)) => {
            return Ok(t);
        },
        Ok(None) => {},
    }
    match facts.find_variable("HOSTNAME") {
        None => {
            return Err(Question::Variable(copy("HOSTNAME")));
        },
        Some(None) => {},
        Some(Some(s)) => {
            let t = trim(s.as_str());
            if t.as_str().unicode_len() > 0 {
                return Ok(t);
            }
        },
    }
    match facts.find_variable("USER") {
        None => Err(Question::Variable(copy("USER"))),
        Some(Some(u)) => Ok(copy(u.as_str())),
        Some(None) => Ok(copy("localhost")),
    }
}

/// Finds the first default route in the lines of `lines` from position `from` on.
fn find_default_route(lines: &Vec<String>, from: usize) -> (r: Option<(String, String)>)
    requires
        from <= lines@.len(),
    ensures
        match r {
            Some((i, g)) => default_route(texts(lines@).skip(from as int)) == Some((i@, g@)),
            None => default_route(texts(lines@).skip(from as int)) is None,
        },
{
    let ghost all = texts(lines@);
    let mut k: usize = from;
    while k < lines.len()
        invariant
            from <= k <= lines@.len(),
            all == texts(lines@),
            default_route(all.skip(from as int)) == default_route(all.skip(k as int)),
        decreases lines@.len() - k,
    {
        let ghost rest = all.skip(k as int);
        assert(rest[0] == lines@[k as int]@);
        assert(rest.drop_first() == all.skip(k + 1));
        let w = split_whitespace(lines[k].as_str());
        assert(texts(w@).len() == w@.len());
        if w.len() >= 3 && same(w[1].as_str(), "00000000") {
            return Some((copy(w[0].as_str()), copy(w[2].as_str())));
        }
        k += 1;
    }
    None
}

/// Tells the network that this machine is in from others.
pub fn get_local_network_info(facts: &Facts) -> (r: Result<String, Question>)
    ensures
        text_answer(r) == network_info(*facts),
{
    let table = match facts.find_document("/proc/net/route") {
        None => {
            return Err(Question::Document(copy("/proc/net/route")));
        },
        Some(None) => {
            let r = String::new();
            assert(r@ =~= seq![]);
            return Ok(r);
        },
        Some(Some(t)) => t,
    };
    let lines = split_on(table.as_str(), '\n');
    assert(texts(lines@).skip(1) == texts(lines@).drop_first());
    match find_default_route(&lines, 1) {
        None => {
            let r = String::new();
            assert(r@ =~= seq![]);
            Ok(r)
        },
        Some((iface, gateway)) => {
            let mut path = copy("/sys/class/net/");
            path.append(iface.as_str());
            path.append("/address");
            match facts.find_document(path.as_str()) {
                None => Err(Question::Document(path)),
                Some(mac) => {
                    let m = match mac {
                        Some(s) => trim(s.as_str()),
                        None => {
                            let none = String::new();
                            assert(none@ =~= seq![]);
                            trim(none.as_str())
                        },
                    };
                    let mut r = iface;
                    r.append(":");
                    r.append(gateway.as_str());
                    r.append(":");
                    r.append(m.as_str());
                    Ok(r)
                },
            }
        },
    }
}

/// An identifier lies in the middle of the link-local range: its high byte is
/// neither 0 nor 255, its low byte is odd and at most 253, and its successor has
/// the same high byte.
pub proof fn auto_id_is_link_local(raw: nat)
    ensures
        256 <= auto_id(raw) <= 65278,
        1 <= auto_id(raw) / 256 <= 254,
        1 <= auto_id(raw) % 256 <= 253,
        auto_id(raw) % 2 == 1,
        (auto_id(raw) + 1) / 256 == auto_id(raw) / 256,
        (auto_id(raw) + 1) % 256 == auto_id(raw) % 256 + 1,
{
}

/// Two tunnels with different identifiers have no IPv4 address in common: the
/// low 16 bits of the addresses of the one are not among those of the other.
pub proof fn auto_ids_do_not_overlap(a: nat, b: nat)
    requires
        auto_id(a) != auto_id(b),
    ensures
        auto_id(a) != auto_id(b) + 1,
        auto_id(a) + 1 != auto_id(b),
        auto_id(a) + 1 != auto_id(b) + 1,
{
    auto_id_is_link_local(a);
    auto_id_is_link_local(b);
}

/// The identifiers are as many as the pairs of addresses that they stand for:
/// different remainders give different identifiers.
pub proof fn auto_id_is_injective(a: nat, b: nat)
    requires
        auto_id(a) == auto_id(b),
    ensures
        a % (254 * 127) == b % (254 * 127),
{
    let p = a % (254 * 127);
    let q = b % (254 * 127);
    auto_id_is_link_local(a);
    auto_id_is_link_local(b);
    assert(p / 127 == q / 127);
    assert(p % 127 == q % 127);
}

/// The two ends of a tunnel share a /127 subnet in `fd00::/8`: their octets
/// differ in the last bit alone, which is 0 at the local end and 1 at the remote
/// end.
pub proof fn ipv6_ends_share_subnet(digest: Seq<u8>)
    requires
        digest.len() >= 15,
    ensures
        local_octets(digest).len() == 16,
        remote_octets(digest).len() == 16,
        local_octets(digest)[0] == 0xfd,
        local_octets(digest).take(15) == remote_octets(digest).take(15),
        local_octets(digest)[15] / 2 == remote_octets(digest)[15] / 2,
        local_octets(digest)[15] % 2 == 0,
        remote_octets(digest)[15] % 2 == 1,
{
    assert(local_octets(digest).take(15) =~= remote_octets(digest).take(15));
}

/// Writes the link-local IPv4 address whose low 16 bits are `id`.
pub fn format_link_local(id: u16) -> (r: String)
    ensures
        r@ == link_local(id as nat),
{
    format_ipv4(169, 254, (id / 256) as u8, (id % 256) as u8)
}

/// The identifier and the two addresses that a digest gives.
pub fn assign_auto_tun(digest: &Vec<u8>) -> (r: (u16, String, String))
    requires
        digest@.len() >= 2,
    ensures
        (r.0, r.1@, r.2@) == auto_assignment(digest@),
{
    let raw: u32 = digest[0] as u32 * 256 + digest[1] as u32;
    let pair: u32 = raw % (254 * 127);
    let x: u32 = pair / 127 + 1;
    let y: u32 = (pair % 127) * 2 + 1;
    let id: u16 = (x * 256 + y) as u16;
    proof {
        auto_id_is_link_local(raw as nat);
    }
    assert(id == auto_id(raw as nat));
    (id, format_link_local(id), format_link_local(id + 1))
}

/// The model of an assignment, or of the question that is open.
pub open spec fn assignment_answer(r: Result<(u16, String, String), Question>) -> Result<
    (u16, Seq<char>, Seq<char>),
    QuestionView,
> {
    match r {
        Ok((id, l, m)) => Ok((id, l@, m@)),
        Err(q) => Err(q@),
    }
}

/// The identifier of the tunnel to a host, and the addresses of its two ends.
pub fn generate_auto_tun_id(host: &str, port: u16, facts: &Facts) -> (r: Result<
    (u16, String, String),
    Question,
>)
    ensures
        assignment_answer(r) == auto_tun_id(*facts, host@, port),
        r is Ok ==> sha256(
            encode_utf8(
                tun_seed(host@, port, device_info(*facts)->Ok_0, network_info(*facts)->Ok_0),
            ),
        ).len() == 32,
{
    let device = match get_local_device_info(facts) {
        Ok(s) => s,
        Err(q) => {
            return Err(q);
        },
    };
    let network = match get_local_network_info(facts) {
        Ok(s) => s,
        Err(q) => {
            return Err(q);
        },
    };
    let mut seed = copy(host);
    seed.append(":");
    seed.append(format_decimal(port as u32).as_str());
    seed.append("|");
    seed.append(device.as_str());
    seed.append("|");
    seed.append(network.as_str());
    let bytes = seed.as_str().as_bytes_vec();
    let digest = sha256_digest(&bytes);
    Ok(assign_auto_tun(&digest))
}

/// The IPv6 addresses of the two ends of the tunnel whose identifier has a
/// digest.
pub fn assign_auto_tun_ipv6(digest: &Vec<u8>) -> (r: (String, String))
    requires
        digest@.len() >= 15,
    ensures
        r.0@ == ipv6_text(local_octets(digest@)),
        r.1@ == ipv6_text(remote_octets(digest@)),
{
    let mut local: Vec<u8> = Vec::new();
    let mut remote: Vec<u8> = Vec::new();
    local.push(0xfd);
    remote.push(0xfd);
    let mut i: usize = 0;
    while i < 14
        invariant
            i <= 14,
            digest@.len() >= 15,
            local@ == seq![0xfdu8] + digest@.take(i as int),
            remote@ == local@,
        decreases 14 - i,
    {
        local.push(digest[i]);
        remote.push(digest[i]);
        assert(digest@.take(i + 1) =~= digest@.take(i as int).push(digest@[i as int]));
        i += 1;
    }
    let last: u8 = digest[14] - digest[14] % 2;
    local.push(last);
    remote.push(last + 1);
    assert(local@ =~= local_octets(digest@));
    assert(remote@ =~= remote_octets(digest@));
    (format_ipv6(&local), format_ipv6(&remote))
}

/// The IPv6 addresses of the two ends of the tunnel with an identifier.
pub fn derive_auto_tun_ipv6(id: u16) -> (r: (String, String))
    ensures
        (r.0@, r.1@) == auto_tun_ipv6(id),
        sha256(id_bytes(id)).len() == 32,
{
    let mut bytes: Vec<u8> = Vec::new();
    bytes.push((id / 256) as u8);
    bytes.push((id % 256) as u8);
    assert(bytes@ =~= id_bytes(id));
    let digest = sha256_digest(&bytes);
    assign_auto_tun_ipv6(&digest)
}

} // verus!
