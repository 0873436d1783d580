//! The configuration of a run.

use crate::addr::ipv6_text;
use crate::auto_tun::{
    auto_id_is_link_local, auto_tun_id, auto_tun_ipv6, device_info, id_bytes, link_local,
    local_octets, network_info, remote_octets, tun_seed,
};
use crate::facts::{Facts, QuestionView};
use crate::forward::{
    dynamic_forward, local_forward, remote_forward, tun_forward, ConfigErrorView, DynamicView,
    ForwardView, TunView,
};
use crate::host::{host_connection, host_settings, HostView};
use crate::laws::addresses::{link_local_is_the_identifier, link_locals_differ};
use crate::number::decimal;
use crate::outside::sha256;
use crate::resolve::{
    addressable, all_forwards, all_parsed, assigned_tun, cli_jumps, given_addrs, item_words,
    jump_connections, jump_specs, named_words, nonempty_items, resolved, CliArgs,
    ResolveErrorView, ResolvedView, TunAddrsView,
};
use crate::ssh_config::ExtractedView;
use crate::text::{lower_text, opt_text, pieces, texts, trimmed, words};
use crate::written::{free_of, lemma_first_piece, lemma_last_piece};
use vstd::prelude::*;
use vstd::string::*;
use vstd::utf8::*;

verus! {

proof fn lemma_assignment(f: Facts, host: Seq<char>, port: u16)
    ensures
        auto_tun_id(f, host, port) matches Ok((id, local, remote)) ==> {
            &&& id < 0xffff
            &&& local == link_local(id as nat)
            &&& remote == link_local(id as nat + 1)
        },
{
    if let Ok(device) = device_info(f) {
        if let Ok(network) = network_info(f) {
            let digest = sha256(encode_utf8(tun_seed(host, port, device, network)));
            auto_id_is_link_local((digest[0] * 256 + digest[1]) as nat);
        }
    }
}

/// Where no address is given, each end of a tunnel with an identifier is assigned
/// the address that belongs to it: the local end that of the identifier, and the
/// remote end that of the next number.
pub proof fn assigned_ends_have_their_own_address(
    f: Facts,
    host: Seq<char>,
    port: u16,
    tun: Option<TunView>,
    given: TunAddrsView,
)
    ensures
        assigned_tun(f, host, port, tun, given) matches Ok((Some(t), a))
            ==> t.auto_id matches Some(id) ==> {
            &&& given.local is None ==> a.local == Some(link_local(id as nat))
            &&& given.remote is None ==> a.remote == Some(link_local(id as nat + 1))
        },
{
    lemma_assignment(f, host, port);
}

/// Where no address is given, the local end of a tunnel with an identifier is
/// assigned the link-local IPv4 address whose low 16 bits are the identifier, and
/// the remote end that of the next number; so the two differ.
pub proof fn assigned_ends_are_neighbours(
    f: Facts,
    host: Seq<char>,
    port: u16,
    tun: Option<TunView>,
    given: TunAddrsView,
)
    ensures
        assigned_tun(f, host, port, tun, given) matches Ok((Some(t), a))
            ==> t.auto_id matches Some(id) ==> {
            &&& given.local is None ==> a.local == Some(
                "169.254."@ + decimal(id as nat / 256) + "."@ + decimal(id as nat % 256),
            )
            &&& given.remote is None && id < 0xffff ==> a.remote == Some(
                "169.254."@ + decimal((id as nat + 1) / 256) + "."@ + decimal(
                    (id as nat + 1) % 256,
                ),
            )
            &&& given.local is None && given.remote is None && id < 0xffff ==> a.local != a.remote
        },
{
    if let Ok((Some(t), a)) = assigned_tun(f, host, port, tun, given) {
        if let Some(id) = t.auto_id {
            assigned_ends_have_their_own_address(f, host, port, tun, given);
            link_local_is_the_identifier(id as nat);
            if id < 0xffff {
                link_local_is_the_identifier(id as nat + 1);
                if link_local(id as nat) == link_local(id as nat + 1) {
                    link_locals_differ(id as nat, id as nat + 1);
                }
            }
        }
    }
}

/// So are those of the tunnel of a run, where the command line gives no address.
pub proof fn tunnel_ends_are_neighbours(f: Facts, args: CliArgs)
    ensures
        resolved(f, args) matches Ok(c) ==> c.tun_forward matches Some(t)
            ==> t.auto_id matches Some(id) ==> {
            &&& args.local_tun_addr is None ==> c.tun_addrs.local == Some(
                "169.254."@ + decimal(id as nat / 256) + "."@ + decimal(id as nat % 256),
            )
            &&& args.remote_tun_addr is None && id < 0xffff ==> c.tun_addrs.remote == Some(
                "169.254."@ + decimal((id as nat + 1) / 256) + "."@ + decimal(
                    (id as nat + 1) % 256,
                ),
            )
            &&& args.local_tun_addr is None && args.remote_tun_addr is None && id < 0xffff
                ==> c.tun_addrs.local != c.tun_addrs.remote
        },
{
    if let Ok(target) = host_connection(f, args.destination@, args.port, texts(args.identity@)) {
        if let Ok(x) = host_settings(f, target.host) {
            if let Ok(w) = all_forwards(args, x) {
                assigned_ends_are_neighbours(
                    f,
                    target.host,
                    target.port,
                    w.tun,
                    given_addrs(args),
                );
            }
        }
    }
}

/// Every configuration has its addresses, but for one whose tunnel has the largest
/// identifier and whose remote end is given none.
pub proof fn one_identifier_has_no_neighbour(f: Facts, args: CliArgs)
    ensures
        addressable(f, args) <==> !(resolved(f, args) matches Ok(c) && c.tun_forward is Some
            && c.tun_forward->0.auto_id == Some(65535u16) && args.remote_tun_addr is None),
{
}

/// What the command line says of a run, and the library has no part in, comes out
/// unchanged.
pub proof fn run_settings_are_kept(f: Facts, args: CliArgs)
    ensures
        resolved(f, args) matches Ok(c) ==> {
            &&& c.local_post_up == opt_text(args.local_post_up)
            &&& c.remote_post_up == opt_text(args.remote_post_up)
            &&& c.reconnect_interval == args.reconnect_interval
            &&& c.keepalive_interval == args.keepalive_interval
            &&& c.keepalive_max == args.keepalive_max
            &&& c.fwmark == args.fwmark
        },
{
}

proof fn lemma_jumps_in_order(f: Facts, specs: Seq<Seq<char>>, ids: Seq<Seq<char>>)
    ensures
        jump_connections(f, specs, ids) matches Ok(v) ==> {
            &&& v.len() == specs.len()
            &&& forall|i: int|
                0 <= i < specs.len() ==> host_connection(f, #[trigger] specs[i], None, ids) == Ok::<HostView, QuestionView>(v[i])
        },
    decreases specs.len(),
{
    if specs.len() > 0 {
        let head = specs.drop_last();
        lemma_jumps_in_order(f, head, ids);
        if let Ok(v) = jump_connections(f, specs, ids) {
            let w = jump_connections(f, head, ids)->Ok_0;
            assert forall|i: int| 0 <= i < specs.len() implies host_connection(
                f,
                #[trigger] specs[i],
                None,
                ids,
            ) == Ok::<HostView, QuestionView>(v[i]) by {
                if i < head.len() {
                    assert(head[i] == specs[i]);
                    assert(w[i] == v[i]);
                }
            }
        }
    }
}

/// There is one host to go through for each that is named, in the order in which
/// they are named, each reached without the port of the command line and with its
/// identity files. The target is the destination of the command line.
pub proof fn hosts_follow_their_names(f: Facts, args: CliArgs, i: int)
    ensures
        resolved(f, args) matches Ok(c) ==> host_settings(f, c.target.host) matches Ok(x) ==> {
            let ids = texts(args.identity@);
            let names = jump_specs(texts(args.jump_hosts@), x.proxy_jump);
            &&& host_connection(f, args.destination@, args.port, ids) == Ok::<HostView, QuestionView>(
                c.target,
            )
            &&& c.jump_hosts.len() == names.len()
            &&& 0 <= i < names.len() ==> host_connection(f, names[i], None, ids) == Ok::<HostView, QuestionView>(c.jump_hosts[i])
        },
{
    if let Ok(c) = resolved(f, args) {
        if let Ok(x) = host_settings(f, c.target.host) {
            lemma_jumps_in_order(
                f,
                jump_specs(texts(args.jump_hosts@), x.proxy_jump),
                texts(args.identity@),
            );
        }
    }
}

/// A tunnel that the command line asks for is the one of the configuration of the
/// run, whatever the SSH configuration says; otherwise the SSH configuration
/// decides. Only a device `auto` is replaced, by the names of an identifier.
pub proof fn asked_tunnel_is_set_up(f: Facts, args: CliArgs)
    ensures
        resolved(f, args) matches Ok(c) ==> host_settings(f, c.target.host) matches Ok(x) ==> {
            let asked = if args.tun_forward is Some {
                opt_text(args.tun_forward)
            } else {
                x.tun_forward
            };
            &&& asked is None <==> c.tun_forward is None
            &&& asked matches Some(text) ==> match tun_forward(text) {
                Err(_) => false,
                Ok(t) => if t.local_tun == "auto"@ || t.remote_tun == "auto"@ {
                    match auto_tun_id(f, c.target.host, c.target.port) {
                        Err(_) => false,
                        Ok((id, _, _)) => c.tun_forward == Some(
                            TunView {
                                local_tun: "tun2222"@ + decimal(id as nat),
                                remote_tun: "tun2222"@ + decimal(id as nat),
                                auto_id: Some(id),
                            },
                        ),
                    }
                } else {
                    c.tun_forward == Some(t)
                },
            }
        },
{
}

/// A tunnel without an identifier has the addresses that the command line gives
/// and no others.
pub proof fn other_tunnels_have_given_addresses(f: Facts, args: CliArgs)
    ensures
        resolved(f, args) matches Ok(c) ==> (c.tun_forward matches Some(t) ==> t.auto_id is None)
            ==> {
            &&& c.tun_addrs.local == opt_text(args.local_tun_addr)
            &&& c.tun_addrs.remote == opt_text(args.remote_tun_addr)
            &&& c.tun_addrs.local6 == opt_text(args.local_tun_addr6)
            &&& c.tun_addrs.remote6 == opt_text(args.remote_tun_addr6)
        },
{
}

proof fn lemma_all_parsed<V>(
    specs: Seq<Seq<char>>,
    parser: spec_fn(Seq<char>) -> Result<V, ConfigErrorView>,
)
    ensures
        match all_parsed(specs, parser) {
            Ok(v) => {
                &&& v.len() == specs.len()
                &&& forall|i: int|
                    0 <= i < specs.len() ==> parser(#[trigger] specs[i]) == Ok::<
                        V,
                        ConfigErrorView,
                    >(v[i])
            },
            Err(e) => exists|i: int|
                0 <= i < specs.len() && parser(#[trigger] specs[i]) == Err::<V, ConfigErrorView>(e)
                    && forall|j: int| 0 <= j < i ==> parser(#[trigger] specs[j]) is Ok,
        },
    decreases specs.len(),
{
    if specs.len() > 0 {
        let head = specs.drop_last();
        lemma_all_parsed(head, parser);
        assert forall|j: int| 0 <= j < head.len() implies #[trigger] specs[j] == head[j] by {}
        match all_parsed(head, parser) {
            Err(e) => {
                let i = choose|i: int|
                    0 <= i < head.len() && parser(#[trigger] head[i]) == Err::<V, ConfigErrorView>(e)
                        && forall|j: int| 0 <= j < i ==> parser(#[trigger] head[j]) is Ok;
                assert(specs[i] == head[i]);
            },
            Ok(w) => {
                assert(specs.last() == specs[specs.len() - 1]);
                assert forall|j: int| 0 <= j < head.len() implies parser(#[trigger] specs[j]) is Ok by {
                    assert(specs[j] == head[j]);
                }
                if let Ok(v) = all_parsed(specs, parser) {
                    assert forall|i: int| 0 <= i < specs.len() implies parser(#[trigger] specs[i])
                        == Ok::<V, ConfigErrorView>(v[i]) by {
                        if i < head.len() {
                            assert(specs[i] == head[i]);
                            assert(w[i] == v[i]);
                        }
                    }
                }
            },
        }
    }
}

/// The ports that are opened are those of the configuration, and then those of the
/// command line: one for each text, in its order.
pub proof fn ports_follow_their_texts(f: Facts, args: CliArgs, i: int)
    ensures
        resolved(f, args) matches Ok(c) ==> host_settings(f, c.target.host) matches Ok(x) ==> {
            let l = x.local_forwards + texts(args.local_forwards@);
            let r = x.remote_forwards + texts(args.remote_forwards@);
            let d = x.dynamic_forwards + texts(args.dynamic_forwards@);
            &&& c.local_forwards.len() == x.local_forwards.len() + args.local_forwards@.len()
            &&& c.remote_forwards.len() == x.remote_forwards.len() + args.remote_forwards@.len()
            &&& c.dynamic_forwards.len() == x.dynamic_forwards.len() + args.dynamic_forwards@.len()
            &&& 0 <= i < l.len() ==> local_forward(l[i]) == Ok::<ForwardView, ConfigErrorView>(
                c.local_forwards[i],
            )
            &&& 0 <= i < r.len() ==> remote_forward(r[i]) == Ok::<ForwardView, ConfigErrorView>(
                c.remote_forwards[i],
            )
            &&& 0 <= i < d.len() ==> dynamic_forward(d[i]) == Ok::<DynamicView, ConfigErrorView>(
                c.dynamic_forwards[i],
            )
        },
{
    if let Ok(c) = resolved(f, args) {
        if let Ok(x) = host_settings(f, c.target.host) {
            let l = x.local_forwards + texts(args.local_forwards@);
            let r = x.remote_forwards + texts(args.remote_forwards@);
            let d = x.dynamic_forwards + texts(args.dynamic_forwards@);
            let pl = |s: Seq<char>| local_forward(s);
            let pr = |s: Seq<char>| remote_forward(s);
            let pd = |s: Seq<char>| dynamic_forward(s);
            lemma_all_parsed(l, pl);
            lemma_all_parsed(r, pr);
            lemma_all_parsed(d, pd);
            if 0 <= i < l.len() {
                assert(pl(l[i]) == Ok::<ForwardView, ConfigErrorView>(c.local_forwards[i]));
            }
            if 0 <= i < r.len() {
                assert(pr(r[i]) == Ok::<ForwardView, ConfigErrorView>(c.remote_forwards[i]));
            }
            if 0 <= i < d.len() {
                assert(pd(d[i]) == Ok::<DynamicView, ConfigErrorView>(c.dynamic_forwards[i]));
            }
        }
    }
}

/// Whether every text that describes a tunnel or a port can be read.
pub open spec fn texts_are_sound(args: CliArgs, x: ExtractedView) -> bool {
    let l = x.local_forwards + texts(args.local_forwards@);
    let r = x.remote_forwards + texts(args.remote_forwards@);
    let d = x.dynamic_forwards + texts(args.dynamic_forwards@);
    &&& forall|i: int| 0 <= i < l.len() ==> local_forward(#[trigger] l[i]) is Ok
    &&& forall|i: int| 0 <= i < r.len() ==> remote_forward(#[trigger] r[i]) is Ok
    &&& forall|i: int| 0 <= i < d.len() ==> dynamic_forward(#[trigger] d[i]) is Ok
    &&& args.tun_forward matches Some(t) ==> tun_forward(t@) is Ok
    &&& args.tun_forward is None ==> (x.tun_forward matches Some(t) ==> tun_forward(t) is Ok)
}

/// A run is refused only over a text that cannot be read, and there is no
/// configuration with such a text in it.
pub proof fn only_unsound_texts_are_refused(f: Facts, args: CliArgs)
    ensures
        match host_connection(f, args.destination@, args.port, texts(args.identity@)) {
            Err(q) => resolved(f, args) == Err::<ResolvedView, ResolveErrorView>(
                ResolveErrorView::Unanswered(q),
            ),
            Ok(target) => host_settings(f, target.host) matches Ok(x) ==> match resolved(f, args) {
                Ok(_) => texts_are_sound(args, x),
                Err(ResolveErrorView::Refused(_)) => !texts_are_sound(args, x),
                Err(ResolveErrorView::Unanswered(_)) => true,
            },
        },
{
    if let Ok(target) = host_connection(f, args.destination@, args.port, texts(args.identity@)) {
        if let Ok(x) = host_settings(f, target.host) {
            let l = x.local_forwards + texts(args.local_forwards@);
            let r = x.remote_forwards + texts(args.remote_forwards@);
            let d = x.dynamic_forwards + texts(args.dynamic_forwards@);
            let pl = |s: Seq<char>| local_forward(s);
            let pr = |s: Seq<char>| remote_forward(s);
            let pd = |s: Seq<char>| dynamic_forward(s);
            lemma_all_parsed(l, pl);
            lemma_all_parsed(r, pr);
            lemma_all_parsed(d, pd);
            assert(forall|i: int| 0 <= i < l.len() ==> pl(#[trigger] l[i]) == local_forward(l[i]));
            assert(forall|i: int| 0 <= i < r.len() ==> pr(#[trigger] r[i]) == remote_forward(r[i]));
            assert(forall|i: int| 0 <= i < d.len() ==> pd(#[trigger] d[i]) == dynamic_forward(
                d[i],
            ));
        }
    }
}

proof fn lemma_nonempty_items(v: Seq<Seq<char>>)
    ensures
        nonempty_items(v) == v.map_values(|s: Seq<char>| trimmed(s)).filter(
            |s: Seq<char>| s.len() > 0,
        ),
    decreases v.len(),
{
    let m = v.map_values(|s: Seq<char>| trimmed(s));
    reveal(Seq::filter);
    if v.len() > 0 {
        lemma_nonempty_items(v.drop_last());
        assert(m.drop_last() =~= v.drop_last().map_values(|s: Seq<char>| trimmed(s)));
    }
}

proof fn lemma_named_words(v: Seq<Seq<char>>)
    ensures
        named_words(v) == v.filter(|s: Seq<char>| lower_text(s) != "none"@),
    decreases v.len(),
{
    reveal(Seq::filter);
    if v.len() > 0 {
        lemma_named_words(v.drop_last());
    }
}

/// The hosts that the command line names are the items between the commas of its
/// options, without the white space around them and without those that are empty
/// then, option by option. They are all, whatever the configuration says.
pub proof fn named_hosts_come_in_order(
    options: Seq<Seq<char>>,
    last: Seq<char>,
    configured: Option<Seq<char>>,
)
    ensures
        jump_specs(options.push(last), configured) == (if options.len() > 0 {
            jump_specs(options, configured)
        } else {
            seq![]
        }) + pieces(last, ',').map_values(|s: Seq<char>| trimmed(s)).filter(
            |s: Seq<char>| s.len() > 0,
        ),
{
    reveal_with_fuel(cli_jumps, 2);
    assert(options.push(last).drop_last() =~= options);
    lemma_nonempty_items(pieces(last, ','));
}

proof fn lemma_item_words(a: Seq<Seq<char>>, b: Seq<Seq<char>>)
    ensures
        item_words(a + b) == item_words(a) + item_words(b),
    decreases b.len(),
{
    if b.len() == 0 {
        assert(a + b =~= a);
    } else {
        lemma_item_words(a, b.drop_last());
        assert((a + b).drop_last() =~= a + b.drop_last());
        assert((a + b).last() == b.last());
    }
}

/// Where the command line names no host to go through, those of the configuration
/// are: the words between its commas, in their order, but for `none` in whatever
/// case. A configuration that says `none`, or nothing, names none.
pub proof fn configured_hosts_come_in_order(a: Seq<char>, b: Seq<char>)
    requires
        free_of(a, ','),
        free_of(b, ','),
        lower_text(trimmed(a)) != "none"@,
    ensures
        jump_specs(seq![], None) == Seq::<Seq<char>>::empty(),
        jump_specs(seq![], Some(a)) == words(a).filter(|s: Seq<char>| lower_text(s) != "none"@),
        lower_text(trimmed(b)) == "none"@ ==> jump_specs(seq![], Some(b)) == Seq::<
            Seq<char>,
        >::empty(),
        lower_text(trimmed(a + ","@ + b)) != "none"@ ==> jump_specs(seq![], Some(a + ","@ + b))
            == words(a).filter(|s: Seq<char>| lower_text(s) != "none"@) + words(b).filter(
            |s: Seq<char>| lower_text(s) != "none"@,
        ),
{
    reveal_strlit(",");
    assert(","@ =~= seq![',']);
    lemma_last_piece(a, ',');
    lemma_last_piece(b, ',');
    lemma_first_piece(a, b, ',');
    lemma_named_words(words(a));
    lemma_named_words(words(b));
    assert(seq![a].drop_last() =~= Seq::<Seq<char>>::empty());
    assert(seq![b].drop_last() =~= Seq::<Seq<char>>::empty());
    assert(item_words(seq![a].drop_last()) =~= Seq::<Seq<char>>::empty());
    assert(item_words(seq![b].drop_last()) =~= Seq::<Seq<char>>::empty());
    assert(item_words(seq![a]) =~= named_words(words(a)));
    assert(item_words(seq![b]) =~= named_words(words(b)));
    lemma_item_words(seq![a], seq![b]);
}

/// The IPv6 addresses that belong to an identifier are made of the digest of its
/// two bytes: `fd` and 119 bits of it, and then a bit that is 0 at the local end
/// and 1 at the remote end.
pub proof fn ipv6_ends_come_from_the_digest(id: u16)
    ensures
        ({
            let digest = sha256(seq![(id / 256) as u8, (id % 256) as u8]);
            let start = seq![0xfdu8] + digest.take(14);
            let end = digest[14] - digest[14] % 2;
            auto_tun_ipv6(id) == (
                ipv6_text(start.push(end as u8)),
                ipv6_text(start.push((end + 1) as u8)),
            )
        }),
{
    let digest = sha256(id_bytes(id));
    let start = seq![0xfdu8] + digest.take(14);
    let end = digest[14] - digest[14] % 2;
    assert(id_bytes(id) =~= seq![(id / 256) as u8, (id % 256) as u8]);
    assert(local_octets(digest) =~= start.push(end as u8));
    assert(remote_octets(digest) =~= start.push((end + 1) as u8));
}

/// An address that the command line gives is used, whatever belongs to the
/// identifier; where it gives no IPv6 address, the one of the identifier is.
#[verifier::spinoff_prover]
pub proof fn given_addresses_come_first(f: Facts, args: CliArgs)
    ensures
        resolved(f, args) matches Ok(c) ==> {
            &&& args.local_tun_addr is Some ==> c.tun_addrs.local == opt_text(args.local_tun_addr)
            &&& args.remote_tun_addr is Some ==> c.tun_addrs.remote == opt_text(
                args.remote_tun_addr,
            )
            &&& args.local_tun_addr6 is Some ==> c.tun_addrs.local6 == opt_text(
                args.local_tun_addr6,
            )
            &&& args.remote_tun_addr6 is Some ==> c.tun_addrs.remote6 == opt_text(
                args.remote_tun_addr6,
            )
            &&& c.tun_forward matches Some(t) ==> t.auto_id matches Some(id) ==> {
                &&& args.local_tun_addr6 is None ==> c.tun_addrs.local6 == Some(
                    auto_tun_ipv6(id).0,
                )
                &&& args.remote_tun_addr6 is None ==> c.tun_addrs.remote6 == Some(
                    auto_tun_ipv6(id).1,
                )
            }
        },
{
}

} // verus!
