//! The forms in which users write forwardings and marks, and that each is read as
//! what it says.

use crate::forward::{
    auto_tun_name, dynamic_forward, fwmark, local_forward, port_forward, remote_forward,
    tun_forward, ConfigErrorView, DynamicView, ForwardView, TunView,
};
use crate::host::{destination, DestinationView};
use crate::number::{
    decimal, digit_value, digits, digits_value, lemma_digit_run, lemma_digits, number_u16,
    number_u32, written_number_reads_back, IntError,
};
use crate::text::{
    is_white, last_index, lemma_first_index, pieces, trim_end, trim_start, trimmed, word_len, words,
};
use crate::tunnels::endpoint_text;
use vstd::prelude::*;
use vstd::string::*;

verus! {

/// Whether there is no white space in `s`.
pub open spec fn solid(s: Seq<char>) -> bool {
    forall|k: int| 0 <= k < s.len() ==> !is_white(#[trigger] s[k])
}

/// Whether there is no `c` in `s`.
pub open spec fn free_of(s: Seq<char>, c: char) -> bool {
    forall|k: int| 0 <= k < s.len() ==> #[trigger] s[k] != c
}

/// Whether `s` can be a field between colons.
pub open spec fn field(s: Seq<char>) -> bool {
    solid(s) && free_of(s, ':')
}

/// A word is as long as what stands before the first white space.
pub proof fn lemma_word_len(s: Seq<char>, n: int)
    requires
        0 <= n <= s.len(),
        forall|k: int| 0 <= k < n ==> !is_white(#[trigger] s[k]),
        n < s.len() ==> is_white(s[n]),
    ensures
        word_len(s) == n,
    decreases s.len(),
{
    if n > 0 {
        assert(!is_white(s[0]));
        let t = s.drop_first();
        assert forall|k: int| 0 <= k < n - 1 implies !is_white(#[trigger] t[k]) by {
            assert(t[k] == s[k + 1]);
        }
        lemma_word_len(t, n - 1);
    }
}

/// A text without white space is one word.
pub proof fn lemma_one_word(s: Seq<char>)
    requires
        solid(s),
        s.len() > 0,
    ensures
        words(s) == seq![s],
{
    lemma_word_len(s, s.len() as int);
    assert(!is_white(s[0]));
    assert(s.take(s.len() as int) == s);
    assert(words(s.skip(s.len() as int)) == Seq::<Seq<char>>::empty());
    assert(words(s) == seq![s]);
}

/// A word ends at a space.
pub proof fn lemma_first_word(a: Seq<char>, rest: Seq<char>)
    requires
        solid(a),
        a.len() > 0,
    ensures
        words(a + " "@ + rest) == seq![a] + words(rest),
{
    reveal_strlit(" ");
    let s = a + " "@ + rest;
    assert forall|k: int| 0 <= k < a.len() implies !is_white(#[trigger] s[k]) by {
        assert(s[k] == a[k]);
    }
    assert(is_white(s[a.len() as int]));
    lemma_word_len(s, a.len() as int);
    assert(!is_white(s[0]));
    assert(s.take(a.len() as int) == a);
    let t = s.skip(a.len() as int);
    assert(t == " "@ + rest);
    assert(t.drop_first() == rest);
    assert(words(t) == words(rest));
    assert(words(s) == seq![a] + words(t));
}

proof fn lemma_two_words(a: Seq<char>, b: Seq<char>)
    requires
        solid(a),
        solid(b),
        a.len() > 0,
        b.len() > 0,
    ensures
        words(a + " "@ + b) == seq![a, b],
{
    lemma_first_word(a, b);
    lemma_one_word(b);
    assert(seq![a] + seq![b] == seq![a, b]);
}

/// A text without `c` is one piece.
pub proof fn lemma_last_piece(s: Seq<char>, c: char)
    requires
        free_of(s, c),
    ensures
        pieces(s, c) == seq![s],
{
    lemma_first_index(s, c, s.len() as int);
}

/// What stands before the first `c` is the first piece.
pub proof fn lemma_first_piece(a: Seq<char>, rest: Seq<char>, c: char)
    requires
        free_of(a, c),
    ensures
        pieces(a + seq![c] + rest, c) == seq![a] + pieces(rest, c),
{
    let s = a + seq![c] + rest;
    assert forall|k: int| 0 <= k < a.len() implies #[trigger] s[k] != c by {
        assert(s[k] == a[k]);
    }
    lemma_first_index(s, c, a.len() as int);
    assert(s.take(a.len() as int) == a);
    assert(s.skip(a.len() as int + 1) == rest);
}

/// The last `c` is the one that no other follows.
pub proof fn lemma_split_at_last(a: Seq<char>, b: Seq<char>, c: char)
    requires
        free_of(b, c),
    ensures
        last_index(a + seq![c] + b, c) == a.len(),
    decreases b.len(),
{
    let s = a + seq![c] + b;
    if b.len() > 0 {
        assert(s.last() == b[b.len() - 1]);
        assert(s.drop_last() == a + seq![c] + b.drop_last());
        assert forall|k: int| 0 <= k < b.len() - 1 implies #[trigger] b.drop_last()[k] != c by {
            assert(b.drop_last()[k] == b[k]);
        }
        lemma_split_at_last(a, b.drop_last(), c);
    }
}

/// There is no last `c` where there is none.
pub proof fn lemma_no_last(s: Seq<char>, c: char)
    requires
        free_of(s, c),
    ensures
        last_index(s, c) == -1,
    decreases s.len(),
{
    if s.len() > 0 {
        assert(s.last() == s[s.len() - 1]);
        assert forall|k: int| 0 <= k < s.len() - 1 implies #[trigger] s.drop_last()[k] != c by {
            assert(s.drop_last()[k] == s[k]);
        }
        lemma_no_last(s.drop_last(), c);
    }
}

/// A text without white space has none to trim.
pub proof fn lemma_nothing_to_trim(s: Seq<char>)
    requires
        solid(s),
    ensures
        trimmed(s) == s,
{
    if s.len() > 0 {
        assert(!is_white(s[0]));
        assert(!is_white(s[s.len() - 1]));
    }
}

/// Digits are a field.
pub proof fn lemma_digits_are_plain(n: nat, radix: nat)
    requires
        2 <= radix <= 16,
    ensures
        digits(n, radix).len() > 0,
        field(digits(n, radix)),
{
    lemma_digits(n, radix);
    let s = digits(n, radix);
    assert forall|k: int| 0 <= k < s.len() implies !is_white(#[trigger] s[k]) by {
        assert(digit_value(s[k]) < radix);
    }
    assert forall|k: int| 0 <= k < s.len() implies #[trigger] s[k] != ':' by {
        assert(digit_value(s[k]) < radix);
    }
}

proof fn lemma_port_reads_back(port: u16)
    ensures
        number_u16(decimal(port as nat)) == Ok::<u16, IntError>(port),
        decimal(port as nat).len() > 0,
        field(decimal(port as nat)),
{
    written_number_reads_back(port as nat, 10, 0xffff);
    lemma_digits_are_plain(port as nat, 10);
}

proof fn lemma_solid_pair(a: Seq<char>, b: Seq<char>)
    requires
        solid(a),
        solid(b),
    ensures
        solid(a + ":"@ + b),
        a + ":"@ + b == a + seq![':'] + b,
{
    reveal_strlit(":");
    let s = a + ":"@ + b;
    assert(":"@ =~= seq![':']);
    assert forall|k: int| 0 <= k < s.len() implies !is_white(#[trigger] s[k]) by {
        if k < a.len() {
            assert(s[k] == a[k]);
        } else if k > a.len() {
            assert(s[k] == b[k - a.len() - 1]);
        }
    }
}

/// A host and a port can be told apart again.
pub proof fn lemma_endpoint(host: Seq<char>, port: u16)
    requires
        solid(host),
    ensures
        solid(endpoint_text(host, port)),
        endpoint_text(host, port).len() > 0,
        last_index(endpoint_text(host, port), ':') == host.len(),
        endpoint_text(host, port).take(host.len() as int) == host,
        endpoint_text(host, port).skip(host.len() as int + 1) == decimal(port as nat),
        field(host) ==> pieces(endpoint_text(host, port), ':') == seq![host, decimal(port as nat)],
{
    let d = decimal(port as nat);
    lemma_port_reads_back(port);
    lemma_solid_pair(host, d);
    lemma_split_at_last(host, d, ':');
    let s = endpoint_text(host, port);
    assert(s.take(host.len() as int) == host);
    assert(s.skip(host.len() as int + 1) == d);
    if field(host) {
        lemma_first_piece(host, d, ':');
        lemma_last_piece(d, ':');
        assert(seq![host] + seq![d] == seq![host, d]);
    }
}

proof fn lemma_three_fields(port: u16, host: Seq<char>, host_port: u16)
    requires
        field(host),
    ensures
        ({
            let s = decimal(port as nat) + ":"@ + endpoint_text(host, host_port);
            &&& words(s) == seq![s]
            &&& pieces(s, ':') == seq![decimal(port as nat), host, decimal(host_port as nat)]
            &&& solid(s)
            &&& s.len() > 0
        }),
{
    let p = decimal(port as nat);
    let rest = endpoint_text(host, host_port);
    lemma_port_reads_back(port);
    lemma_endpoint(host, host_port);
    lemma_solid_pair(p, rest);
    lemma_one_word(p + ":"@ + rest);
    lemma_first_piece(p, rest, ':');
    assert(seq![p] + seq![host, decimal(host_port as nat)] == seq![
        p,
        host,
        decimal(host_port as nat),
    ]);
}

/// `port:host:hostport` is read as a forwarding from that port on the default
/// address to that host and port.
#[verifier::spinoff_prover]
#[verifier::rlimit(30)]
pub proof fn short_form_reads_back(
    port: u16,
    host: Seq<char>,
    host_port: u16,
    default_addr: Seq<char>,
    noun: Seq<char>,
)
    requires
        field(host),
    ensures
        port_forward(
            decimal(port as nat) + ":"@ + endpoint_text(host, host_port),
            default_addr,
            noun,
        ) == Ok::<ForwardView, ConfigErrorView>(
            ForwardView {
                bind_addr: default_addr,
                bind_port: port,
                target_host: host,
                target_port: host_port,
            },
        ),
{
    lemma_three_fields(port, host, host_port);
    lemma_port_reads_back(port);
    lemma_port_reads_back(host_port);
}

/// `bind_address:port:host:hostport` is read as a forwarding from that address
/// and port to that host and port.
#[verifier::spinoff_prover]
#[verifier::rlimit(30)]
pub proof fn long_form_reads_back(
    addr: Seq<char>,
    port: u16,
    host: Seq<char>,
    host_port: u16,
    default_addr: Seq<char>,
    noun: Seq<char>,
)
    requires
        field(addr),
        field(host),
    ensures
        port_forward(
            addr + ":"@ + (decimal(port as nat) + ":"@ + endpoint_text(host, host_port)),
            default_addr,
            noun,
        ) == Ok::<ForwardView, ConfigErrorView>(
            ForwardView {
                bind_addr: addr,
                bind_port: port,
                target_host: host,
                target_port: host_port,
            },
        ),
{
    let rest = decimal(port as nat) + ":"@ + endpoint_text(host, host_port);
    lemma_three_fields(port, host, host_port);
    lemma_solid_pair(addr, rest);
    lemma_one_word(addr + ":"@ + rest);
    lemma_first_piece(addr, rest, ':');
    let p = pieces(addr + ":"@ + rest, ':');
    assert(p == seq![
        addr,
        decimal(port as nat),
        host,
        decimal(host_port as nat),
    ]);
    lemma_port_reads_back(port);
    lemma_port_reads_back(host_port);
}

/// `port host:hostport`, the form of the SSH configuration, is read as a
/// forwarding from that port on the default address to that host and port. The
/// host may hold colons, as an IPv6 address does.
#[verifier::spinoff_prover]
#[verifier::rlimit(30)]
pub proof fn config_form_reads_back(
    port: u16,
    host: Seq<char>,
    host_port: u16,
    default_addr: Seq<char>,
    noun: Seq<char>,
)
    requires
        solid(host),
    ensures
        port_forward(
            decimal(port as nat) + " "@ + endpoint_text(host, host_port),
            default_addr,
            noun,
        ) == Ok::<ForwardView, ConfigErrorView>(
            ForwardView {
                bind_addr: default_addr,
                bind_port: port,
                target_host: host,
                target_port: host_port,
            },
        ),
{
    lemma_port_reads_back(port);
    lemma_port_reads_back(host_port);
    lemma_endpoint(host, host_port);
    lemma_two_words(decimal(port as nat), endpoint_text(host, host_port));
    lemma_no_last(decimal(port as nat), ':');
}

/// `bind_address:port host:hostport`, the form of the SSH configuration, is read
/// as a forwarding from that address and port to that host and port. Both the
/// address and the host may hold colons.
#[verifier::spinoff_prover]
#[verifier::rlimit(30)]
pub proof fn bound_config_form_reads_back(
    addr: Seq<char>,
    port: u16,
    host: Seq<char>,
    host_port: u16,
    default_addr: Seq<char>,
    noun: Seq<char>,
)
    requires
        solid(addr),
        solid(host),
    ensures
        port_forward(
            endpoint_text(addr, port) + " "@ + endpoint_text(host, host_port),
            default_addr,
            noun,
        ) == Ok::<ForwardView, ConfigErrorView>(
            ForwardView {
                bind_addr: addr,
                bind_port: port,
                target_host: host,
                target_port: host_port,
            },
        ),
{
    lemma_port_reads_back(port);
    lemma_port_reads_back(host_port);
    lemma_endpoint(addr, port);
    lemma_endpoint(host, host_port);
    lemma_two_words(endpoint_text(addr, port), endpoint_text(host, host_port));
}

/// A local and a remote forwarding differ only in the address that they bind to
/// where none is given: one that works for the one works for the other.
pub proof fn directions_differ_in_default(s: Seq<char>)
    ensures
        local_forward(s) is Ok <==> remote_forward(s) is Ok,
        local_forward(s) matches Ok(l) ==> remote_forward(s) matches Ok(r) ==> {
            &&& l.bind_port == r.bind_port
            &&& l.target_host == r.target_host
            &&& l.target_port == r.target_port
            &&& l.bind_addr == r.bind_addr || (l.bind_addr == "127.0.0.1"@ && r.bind_addr
                == "0.0.0.0"@)
        },
{
}

/// `port` is read as a proxy on the loopback address.
pub proof fn short_proxy_reads_back(port: u16)
    ensures
        dynamic_forward(decimal(port as nat)) == Ok::<DynamicView, ConfigErrorView>(
            DynamicView { bind_addr: "127.0.0.1"@, bind_port: port },
        ),
{
    lemma_port_reads_back(port);
    lemma_one_word(decimal(port as nat));
    lemma_last_piece(decimal(port as nat), ':');
}

/// `bind_address:port` is read as a proxy on that address.
#[verifier::spinoff_prover]
#[verifier::rlimit(30)]
pub proof fn long_proxy_reads_back(addr: Seq<char>, port: u16)
    requires
        field(addr),
    ensures
        dynamic_forward(endpoint_text(addr, port)) == Ok::<DynamicView, ConfigErrorView>(
            DynamicView { bind_addr: addr, bind_port: port },
        ),
{
    lemma_port_reads_back(port);
    lemma_endpoint(addr, port);
    lemma_one_word(endpoint_text(addr, port));
}

/// `auto:<id>` is read as the automatic tunnel with that identifier, between two
/// devices of the name that belongs to it.
pub proof fn auto_tunnel_reads_back(id: u16)
    ensures
        tun_forward("auto:"@ + decimal(id as nat)) == Ok::<TunView, ConfigErrorView>(
            TunView {
                local_tun: auto_tun_name(id),
                remote_tun: auto_tun_name(id),
                auto_id: Some(id),
            },
        ),
{
    reveal_strlit("auto:");
    reveal_strlit("auto");
    let d = decimal(id as nat);
    let s = "auto:"@ + d;
    lemma_port_reads_back(id);
    assert(solid(s)) by {
        assert forall|k: int| 0 <= k < s.len() implies !is_white(#[trigger] s[k]) by {
            if k >= 5 {
                assert(s[k] == d[k - 5]);
            }
        }
    }
    lemma_nothing_to_trim(s);
    assert("auto:"@.is_prefix_of(s));
    assert(s.skip(5) == d);
    lemma_nothing_to_trim(d);
    assert(s != "auto"@) by {
        assert(s.len() != "auto"@.len());
    }
}

/// `local_tun:remote_tun` is read as a tunnel between those two devices.
pub proof fn tunnel_reads_back(local: Seq<char>, remote: Seq<char>)
    requires
        field(local),
        field(remote),
        local != "auto"@,
    ensures
        tun_forward(local + ":"@ + remote) == Ok::<TunView, ConfigErrorView>(
            TunView { local_tun: local, remote_tun: remote, auto_id: None },
        ),
{
    reveal_strlit("auto:");
    reveal_strlit("auto");
    let s = local + ":"@ + remote;
    lemma_solid_pair(local, remote);
    lemma_nothing_to_trim(s);
    assert(s[local.len() as int] == ':');
    assert(s != "auto"@) by {
        if s == "auto"@ {
            assert("auto"@[local.len() as int] == ':');
        }
    }
    assert(!"auto:"@.is_prefix_of(s)) by {
        if "auto:"@.is_prefix_of(s) {
            assert(s.take(5) == "auto:"@);
            assert(s[4] == ':') by {
                assert(s.take(5)[4] == ':');
            }
            if local.len() < 4 {
                assert("auto:"@[local.len() as int] == s.take(5)[local.len() as int]);
            } else if local.len() > 4 {
                assert(local[4] == s[4]);
            } else {
                assert(local =~= "auto"@) by {
                    assert forall|k: int| 0 <= k < 4 implies local[k] == "auto"@[k] by {
                        assert(local[k] == s.take(5)[k]);
                    }
                }
            }
        }
    }
    lemma_one_word(s);
    lemma_first_piece(local, remote, ':');
    lemma_last_piece(remote, ':');
    assert(pieces(s, ':') == seq![local, remote]);
}

/// A mark in hexadecimal behind `0x`, or in decimal, is read as that mark.
pub proof fn mark_reads_back(n: u32)
    ensures
        fwmark("0x"@ + digits(n as nat, 16)) == Ok::<u32, Seq<char>>(n),
        fwmark(decimal(n as nat)) == Ok::<u32, Seq<char>>(n),
{
    reveal_strlit("0x");
    reveal_strlit("0X");
    lemma_digits(n as nat, 16);
    lemma_hexadecimal(digits(n as nat, 16));
    lemma_digits_are_plain(n as nat, 10);
    written_number_reads_back(n as nat, 10, 0xffff_ffff);
    let d = decimal(n as nat);
    lemma_nothing_to_trim(d);
    lemma_digits(n as nat, 10);
    assert(!"0x"@.is_prefix_of(d) && !"0X"@.is_prefix_of(d)) by {
        if d.len() >= 2 {
            assert(digit_value(d[1]) < 10);
            if "0x"@.is_prefix_of(d) {
                assert("0x"@[1] == d[1]);
            }
            if "0X"@.is_prefix_of(d) {
                assert("0X"@[1] == d[1]);
            }
        }
    }
}

/// `user@host:port` is read as that user, host and port; a port from the command
/// line takes the place of the one in it. The host may hold colons.
pub proof fn destination_reads_back(
    user: Seq<char>,
    host: Seq<char>,
    port: u16,
    cli_port: Option<u16>,
)
    requires
        free_of(user, '@'),
    ensures
        destination(user + "@"@ + endpoint_text(host, port), cli_port) == (DestinationView {
            user: Some(user),
            host,
            port: if cli_port is Some {
                cli_port
            } else {
                Some(port)
            },
        }),
{
    reveal_strlit("@");
    let rest = endpoint_text(host, port);
    let s = user + "@"@ + rest;
    assert forall|k: int| 0 <= k < user.len() implies #[trigger] s[k] != '@' by {
        assert(s[k] == user[k]);
    }
    lemma_first_index(s, '@', user.len() as int);
    assert(s.take(user.len() as int) == user);
    assert(s.skip(user.len() as int + 1) == rest);
    lemma_host_and_port(host, port);
}

/// A host alone is read as a host, with no user and no port of its own.
pub proof fn bare_host_reads_back(host: Seq<char>, cli_port: Option<u16>)
    requires
        free_of(host, '@'),
        free_of(host, ':'),
    ensures
        destination(host, cli_port) == (DestinationView { user: None, host, port: cli_port }),
{
    lemma_first_index(host, '@', host.len() as int);
    lemma_no_last(host, ':');
}

proof fn lemma_host_and_port(host: Seq<char>, port: u16)
    ensures
        ({
            let s = endpoint_text(host, port);
            let c = last_index(s, ':');
            &&& c == host.len()
            &&& s.take(c) == host
            &&& number_u16(s.skip(c + 1)) == Ok::<u16, IntError>(port)
        }),
{
    reveal_strlit(":");
    let d = decimal(port as nat);
    let s = endpoint_text(host, port);
    lemma_port_reads_back(port);
    assert(s == host + seq![':'] + d);
    lemma_split_at_last(host, d, ':');
    assert(s.take(host.len() as int) == host);
    assert(s.skip(host.len() as int + 1) == d);
}

/// `port host hostport` is read as a forwarding from that port on the default
/// address to that host and port.
#[verifier::spinoff_prover]
#[verifier::rlimit(30)]
pub proof fn three_words_read_back(
    port: u16,
    host: Seq<char>,
    host_port: u16,
    default_addr: Seq<char>,
    noun: Seq<char>,
)
    requires
        solid(host),
        host.len() > 0,
    ensures
        port_forward(
            decimal(port as nat) + " "@ + (host + " "@ + decimal(host_port as nat)),
            default_addr,
            noun,
        ) == Ok::<ForwardView, ConfigErrorView>(
            ForwardView {
                bind_addr: default_addr,
                bind_port: port,
                target_host: host,
                target_port: host_port,
            },
        ),
{
    lemma_three_words(port, host, host_port);
    lemma_port_reads_back(port);
    lemma_port_reads_back(host_port);
}

proof fn lemma_three_words(port: u16, host: Seq<char>, host_port: u16)
    requires
        solid(host),
        host.len() > 0,
    ensures
        words(decimal(port as nat) + " "@ + (host + " "@ + decimal(host_port as nat))) == seq![
            decimal(port as nat),
            host,
            decimal(host_port as nat),
        ],
{
    let (p, h) = (decimal(port as nat), decimal(host_port as nat));
    lemma_port_reads_back(port);
    lemma_port_reads_back(host_port);
    lemma_two_words(host, h);
    lemma_first_word(p, host + " "@ + h);
    assert(seq![p] + seq![host, h] == seq![p, host, h]);
}

/// `bind_address port host hostport` is read as a forwarding from that address
/// and port to that host and port. Both the address and the host may hold colons.
#[verifier::spinoff_prover]
#[verifier::rlimit(30)]
pub proof fn four_words_read_back(
    addr: Seq<char>,
    port: u16,
    host: Seq<char>,
    host_port: u16,
    default_addr: Seq<char>,
    noun: Seq<char>,
)
    requires
        solid(addr),
        addr.len() > 0,
        solid(host),
        host.len() > 0,
    ensures
        port_forward(
            addr + " "@ + (decimal(port as nat) + " "@ + (host + " "@ + decimal(host_port as nat))),
            default_addr,
            noun,
        ) == Ok::<ForwardView, ConfigErrorView>(
            ForwardView {
                bind_addr: addr,
                bind_port: port,
                target_host: host,
                target_port: host_port,
            },
        ),
{
    let (p, h) = (decimal(port as nat), decimal(host_port as nat));
    let rest = p + " "@ + (host + " "@ + h);
    lemma_three_words(port, host, host_port);
    lemma_first_word(addr, rest);
    assert(words(addr + " "@ + rest) == seq![addr, p, host, h]);
    lemma_port_reads_back(port);
    lemma_port_reads_back(host_port);
}

/// `bind_address port` is read as a proxy on that address, which may hold colons.
pub proof fn two_word_proxy_reads_back(addr: Seq<char>, port: u16)
    requires
        solid(addr),
        addr.len() > 0,
    ensures
        dynamic_forward(addr + " "@ + decimal(port as nat)) == Ok::<DynamicView, ConfigErrorView>(
            DynamicView { bind_addr: addr, bind_port: port },
        ),
{
    lemma_port_reads_back(port);
    lemma_two_words(addr, decimal(port as nat));
}

/// `local_tun remote_tun` is read as a tunnel between those two devices, unless
/// it begins as one with an identifier does.
pub proof fn two_word_tunnel_reads_back(local: Seq<char>, remote: Seq<char>)
    requires
        solid(local),
        local.len() > 0,
        solid(remote),
        remote.len() > 0,
        !"auto:"@.is_prefix_of(local),
    ensures
        tun_forward(local + " "@ + remote) == Ok::<TunView, ConfigErrorView>(
            TunView { local_tun: local, remote_tun: remote, auto_id: None },
        ),
{
    reveal_strlit("auto:");
    reveal_strlit("auto");
    reveal_strlit(" ");
    let s = local + " "@ + remote;
    let n = local.len() as int;
    assert(s[0] == local[0] && s.last() == remote.last());
    assert(remote.last() == remote[remote.len() - 1]);
    assert(trimmed(s) == s);
    assert(s[n] == ' ');
    assert(s != "auto"@) by {
        if s == "auto"@ {
            assert("auto"@[n] == ' ');
        }
    }
    assert(!"auto:"@.is_prefix_of(s)) by {
        if "auto:"@.is_prefix_of(s) {
            assert(s.take(5) == "auto:"@);
            if n < 5 {
                assert(s.take(5)[n] == ' ');
            } else {
                assert(local.take(5) =~= s.take(5));
                assert("auto:"@ =~= local.subrange(0, 5));
            }
        }
    }
    lemma_two_words(local, remote);
}

/// Whether `s` is white space alone.
pub open spec fn blank(s: Seq<char>) -> bool {
    forall|k: int| 0 <= k < s.len() ==> is_white(#[trigger] s[k])
}

/// White space at the start is trimmed.
pub proof fn lemma_skip_blank(a: Seq<char>, s: Seq<char>)
    requires
        blank(a),
    ensures
        trim_start(a + s) == trim_start(s),
    decreases a.len(),
{
    if a.len() == 0 {
        assert(a + s == s);
    } else {
        assert(is_white(a[0]));
        let t = a.drop_first();
        assert forall|k: int| 0 <= k < t.len() implies is_white(#[trigger] t[k]) by {
            assert(t[k] == a[k + 1]);
        }
        assert((a + s).drop_first() == t + s);
        lemma_skip_blank(t, s);
    }
}

/// White space at the end is trimmed.
pub proof fn lemma_drop_blank(s: Seq<char>, b: Seq<char>)
    requires
        blank(b),
    ensures
        trim_end(s + b) == trim_end(s),
    decreases b.len(),
{
    if b.len() == 0 {
        assert(s + b == s);
    } else {
        assert(is_white(b[b.len() - 1]));
        let t = b.drop_last();
        assert forall|k: int| 0 <= k < t.len() implies is_white(#[trigger] t[k]) by {
            assert(t[k] == b[k]);
        }
        assert((s + b).last() == b[b.len() - 1]);
        assert((s + b).drop_last() == s + t);
        lemma_drop_blank(s, t);
    }
}

/// White space at the end does not keep that at the start from being trimmed.
pub proof fn lemma_start_of_padded(s: Seq<char>, b: Seq<char>)
    requires
        blank(b),
    ensures
        trim_start(s).len() > 0 ==> trim_start(s + b) == trim_start(s) + b,
        trim_start(s).len() == 0 ==> trim_start(s + b).len() == 0,
    decreases s.len(),
{
    if s.len() == 0 {
        lemma_skip_blank(b, s);
        assert(s + b == b + s);
    } else if is_white(s[0]) {
        assert((s + b).drop_first() == s.drop_first() + b);
        lemma_start_of_padded(s.drop_first(), b);
    }
}

/// White space at either end is trimmed.
pub proof fn lemma_padding_is_trimmed(a: Seq<char>, s: Seq<char>, b: Seq<char>)
    requires
        blank(a),
        blank(b),
    ensures
        trimmed(a + s + b) == trimmed(s),
{
    assert(a + s + b == a + (s + b));
    lemma_skip_blank(a, s + b);
    lemma_start_of_padded(s, b);
    if trim_start(s).len() > 0 {
        lemma_drop_blank(trim_start(s), b);
    } else {
        assert(trim_start(s + b) =~= trim_start(s));
    }
}

/// White space around a mark makes no difference.
pub proof fn padded_mark_reads_the_same(a: Seq<char>, s: Seq<char>, b: Seq<char>)
    requires
        blank(a),
        blank(b),
    ensures
        fwmark(a + s + b) == fwmark(s),
{
    lemma_padding_is_trimmed(a, s, b);
}

/// White space around the text of a tunnel makes no difference to the tunnel; it
/// shows only in the words for a text that is refused.
pub proof fn padded_tunnel_reads_the_same(a: Seq<char>, s: Seq<char>, b: Seq<char>)
    requires
        blank(a),
        blank(b),
    ensures
        tun_forward(s) is Ok ==> tun_forward(a + s + b) == tun_forward(s),
        tun_forward(s) is Err ==> tun_forward(a + s + b) is Err,
{
    lemma_padding_is_trimmed(a, s, b);
}

/// A letter of the English alphabet as a capital.
pub open spec fn capital(c: char) -> char {
    if 'a' <= c <= 'z' {
        (c as u32 - 32) as char
    } else {
        c
    }
}

/// `s` in capitals.
pub open spec fn capitals(s: Seq<char>) -> Seq<char> {
    s.map_values(|c: char| capital(c))
}

proof fn lemma_capitals_are_worth_the_same(s: Seq<char>, radix: nat)
    ensures
        digits_value(capitals(s), radix) == digits_value(s, radix),
    decreases s.len(),
{
    if s.len() > 0 {
        assert(capitals(s).drop_last() =~= capitals(s.drop_last()));
        lemma_capitals_are_worth_the_same(s.drop_last(), radix);
        assert(digit_value(capital(s.last())) == digit_value(s.last()));
    }
}

/// A mark in hexadecimal is read as that mark behind `0x` as behind `0X`, and in
/// capitals as in small letters.
pub proof fn capital_mark_reads_back(n: u32)
    ensures
        fwmark("0X"@ + capitals(digits(n as nat, 16))) == Ok::<u32, Seq<char>>(n),
        fwmark("0x"@ + capitals(digits(n as nat, 16))) == Ok::<u32, Seq<char>>(n),
        fwmark("0X"@ + digits(n as nat, 16)) == Ok::<u32, Seq<char>>(n),
{
    let h = digits(n as nat, 16);
    let c = capitals(h);
    lemma_digits(n as nat, 16);
    lemma_capitals_are_worth_the_same(h, 16);
    assert forall|k: int| 0 <= k < c.len() implies digit_value(#[trigger] c[k]) < 16 by {
        assert(digit_value(h[k]) < 16);
    }
    lemma_hexadecimal(c);
    lemma_hexadecimal(h);
}

proof fn lemma_hexadecimal(h: Seq<char>)
    requires
        h.len() > 0,
        forall|k: int| 0 <= k < h.len() ==> digit_value(#[trigger] h[k]) < 16,
        digits_value(h, 16) <= 0xffff_ffff,
    ensures
        fwmark("0x"@ + h) == Ok::<u32, Seq<char>>(digits_value(h, 16) as u32),
        fwmark("0X"@ + h) == Ok::<u32, Seq<char>>(digits_value(h, 16) as u32),
{
    reveal_strlit("0x");
    reveal_strlit("0X");
    assert(digit_value(h[0]) < 16);
    lemma_digit_run(h, 16, h.len());
    assert(h.take(h.len() as int) == h);
    assert(number_u32(h, 16) == Ok::<u32, IntError>(digits_value(h, 16) as u32));
    let (s, t) = ("0x"@ + h, "0X"@ + h);
    assert forall|k: int| 0 <= k < s.len() implies !is_white(#[trigger] s[k]) && !is_white(t[k]) by {
        if k >= 2 {
            assert(s[k] == h[k - 2] && t[k] == h[k - 2]);
        }
    }
    assert(solid(t)) by {
        assert forall|k: int| 0 <= k < t.len() implies !is_white(#[trigger] t[k]) by {
            assert(!is_white(s[k]) && !is_white(t[k]));
        }
    }
    lemma_nothing_to_trim(s);
    lemma_nothing_to_trim(t);
    assert("0x"@.is_prefix_of(s) && "0X"@.is_prefix_of(t));
    assert(s.skip(2) == h && t.skip(2) == h);
}

} // verus!
