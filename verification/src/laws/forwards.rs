//! What a text must be like to describe a port, a proxy, a tunnel or a mark.

use crate::forward::{
    dynamic_forward, fwmark, host_port_pair, local_forward, remote_forward, target_pair,
    tun_forward, ConfigErrorView, DynamicView, ForwardView, TunView,
};
use crate::laws::texts::trimming_takes_the_ends;
use crate::number::{
    decimal, digit_run, digit_value, digits_value, int_error_text, number, number_u16,
    number_u32, IntError,
};
use crate::text::{pieces, trimmed, words};
use crate::written::{free_of, lemma_no_last, lemma_split_at_last};
use vstd::prelude::*;
use vstd::string::*;

verus! {

/// A text that describes a port to open has one to four words; one word has three
/// or four fields between its colons. Every number in it fits 16 bits, and what it
/// does not name is the address to bind to.
pub proof fn accepted_ports_have_a_form(s: Seq<char>)
    ensures
        local_forward(s) is Ok <==> remote_forward(s) is Ok,
        local_forward(s) matches Ok(v) ==> {
            let t = words(s);
            let p = pieces(s, ':');
            &&& 1 <= t.len() <= 4
            &&& t.len() == 1 ==> p.len() == 3 || p.len() == 4
            &&& t.len() == 1 && p.len() == 3 ==> {
                &&& v.bind_addr == "127.0.0.1"@
                &&& number_u16(p[0]) == Ok::<u16, IntError>(v.bind_port)
                &&& v.target_host == p[1]
                &&& number_u16(p[2]) == Ok::<u16, IntError>(v.target_port)
            }
            &&& t.len() == 1 && p.len() == 4 ==> {
                &&& v.bind_addr == p[0]
                &&& number_u16(p[1]) == Ok::<u16, IntError>(v.bind_port)
                &&& v.target_host == p[2]
                &&& number_u16(p[3]) == Ok::<u16, IntError>(v.target_port)
            }
            &&& t.len() == 3 ==> {
                &&& v.bind_addr == "127.0.0.1"@
                &&& number_u16(t[0]) == Ok::<u16, IntError>(v.bind_port)
                &&& v.target_host == t[1]
                &&& number_u16(t[2]) == Ok::<u16, IntError>(v.target_port)
            }
            &&& t.len() == 4 ==> {
                &&& v.bind_addr == t[0]
                &&& number_u16(t[1]) == Ok::<u16, IntError>(v.bind_port)
                &&& v.target_host == t[2]
                &&& number_u16(t[3]) == Ok::<u16, IntError>(v.target_port)
            }
        },
{
}

/// A text with another number of words, or of fields in its one word, is refused,
/// and the refusal quotes it.
pub proof fn other_ports_are_refused(s: Seq<char>)
    ensures
        words(s).len() == 0 || words(s).len() > 4 ==> {
            &&& local_forward(s) == Err::<ForwardView, ConfigErrorView>(
                ConfigErrorView::Syntax("Invalid "@ + "local"@ + " forward spec '"@ + s + "'"@),
            )
            &&& remote_forward(s) == Err::<ForwardView, ConfigErrorView>(
                ConfigErrorView::Syntax("Invalid "@ + "remote"@ + " forward spec '"@ + s + "'"@),
            )
        },
        words(s).len() == 1 && pieces(s, ':').len() != 3 && pieces(s, ':').len() != 4 ==> {
            &&& local_forward(s) == Err::<ForwardView, ConfigErrorView>(
                ConfigErrorView::Syntax(
                    "Invalid "@ + "local"@ + " forward spec '"@ + s
                        + "', expected [bind_addr:]port:host:hostport"@,
                ),
            )
            &&& remote_forward(s) == Err::<ForwardView, ConfigErrorView>(
                ConfigErrorView::Syntax(
                    "Invalid "@ + "remote"@ + " forward spec '"@ + s
                        + "', expected [bind_addr:]port:host:hostport"@,
                ),
            )
        },
{
}

/// A text that describes a proxy has one or two words, and one word has one or two
/// fields; the last of them is a number of 16 bits.
pub proof fn accepted_proxies_have_a_form(s: Seq<char>)
    ensures
        ({
            let t = words(s);
            let p = pieces(s, ':');
            &&& t.len() == 0 || t.len() > 2 ==> dynamic_forward(s) == Err::<DynamicView, ConfigErrorView>(
                ConfigErrorView::Syntax("Invalid dynamic forward spec '"@ + s + "'"@),
            )
            &&& t.len() == 1 && p.len() > 2 ==> dynamic_forward(s) == Err::<DynamicView, ConfigErrorView>(
                ConfigErrorView::Syntax(
                    "Invalid dynamic forward spec '"@ + s + "', expected [bind_addr:]port"@,
                ),
            )
            &&& dynamic_forward(s) matches Ok(v) ==> {
                &&& t.len() == 1 && p.len() == 1 ==> v.bind_addr == "127.0.0.1"@ && number_u16(
                    p[0],
                ) == Ok::<u16, IntError>(v.bind_port)
                &&& t.len() == 1 && p.len() == 2 ==> v.bind_addr == p[0] && number_u16(p[1])
                    == Ok::<u16, IntError>(v.bind_port)
                &&& t.len() == 2 ==> v.bind_addr == t[0] && number_u16(t[1])
                    == Ok::<u16, IntError>(v.bind_port)
            }
        }),
{
}

/// A tunnel is automatic where its text says `auto`, has an identifier where it says
/// `auto:` and a number, and otherwise has one or two devices, the second of which is
/// the remote one.
pub proof fn accepted_tunnels_have_a_form(s: Seq<char>)
    ensures
        ({
            let u = trimmed(s);
            let t = words(u);
            let p = pieces(u, ':');
            let named = u != "auto"@ && !"auto:"@.is_prefix_of(u);
            &&& u == "auto"@ ==> tun_forward(s) == Ok::<TunView, ConfigErrorView>(
                TunView { local_tun: "auto"@, remote_tun: "auto"@, auto_id: None },
            )
            &&& "auto:"@.is_prefix_of(u) && u != "auto"@ ==> match (
                number_u16(trimmed(u.skip("auto:"@.len() as int))),
                tun_forward(s),
            ) {
                (Ok(id), Ok(v)) => {
                    &&& v.auto_id == Some(id)
                    &&& v.local_tun == "tun2222"@ + decimal(id as nat)
                    &&& v.remote_tun == v.local_tun
                },
                (Err(_), Err(e)) => e is Syntax,
                _ => false,
            }
            &&& named && t.len() == 1 && p.len() == 1 ==> tun_forward(s) == Ok::<
                TunView,
                ConfigErrorView,
            >(TunView { local_tun: p[0], remote_tun: p[0], auto_id: None })
            &&& named && t.len() == 1 && p.len() == 2 ==> tun_forward(s) == Ok::<
                TunView,
                ConfigErrorView,
            >(TunView { local_tun: p[0], remote_tun: p[1], auto_id: None })
            &&& named && t.len() == 2 ==> tun_forward(s) == Ok::<TunView, ConfigErrorView>(
                TunView { local_tun: t[0], remote_tun: t[1], auto_id: None },
            )
            &&& named && (t.len() == 0 || t.len() > 2 || t.len() == 1 && p.len() > 2)
                ==> tun_forward(s) is Err
        }),
{
}

/// A mark is hexadecimal behind `0x` or `0X`, and decimal otherwise. It is refused
/// where the number is, and the refusal quotes it.
pub proof fn marks_are_numbers(s: Seq<char>)
    requires
        trimmed(s) == s,
    ensures
        ({
            let hex = "0x"@ + s;
            let big = "0X"@ + s;
            &&& s.len() > 0 ==> (fwmark(hex) is Ok <==> number_u32(s, 16) is Ok)
            &&& s.len() > 0 ==> (number_u32(s, 16) matches Ok(n) ==> fwmark(hex) == Ok::<
                u32,
                Seq<char>,
            >(n) && fwmark(big) == Ok::<u32, Seq<char>>(n))
            &&& !"0x"@.is_prefix_of(s) && !"0X"@.is_prefix_of(s) ==> match number_u32(s, 10) {
                Ok(n) => fwmark(s) == Ok::<u32, Seq<char>>(n),
                Err(e) => fwmark(s) is Err,
            }
        }),
{
    reveal_strlit("0x");
    reveal_strlit("0X");
    if s.len() > 0 {
        lemma_trimmed_behind(s, "0x"@);
        lemma_trimmed_behind(s, "0X"@);
        assert("0x"@ =~= ("0x"@ + s).subrange(0, 2));
        assert("0X"@ =~= ("0X"@ + s).subrange(0, 2));
        assert(("0x"@ + s).skip(2) =~= s);
        assert(("0X"@ + s).skip(2) =~= s);
    }
}

proof fn lemma_trimmed_behind(s: Seq<char>, p: Seq<char>)
    requires
        trimmed(s) == s,
        s.len() > 0,
        p.len() > 0,
        p[0] == '0',
    ensures
        trimmed(p + s) == p + s,
{
    trimming_takes_the_ends(s);
    assert((p + s).last() == s.last());
}

/// A text stands for a number where it is made of digits, but for a `+` in front of
/// them, and the number is no larger than allowed. It is the value of its digits.
pub proof fn numbers_are_made_of_digits(s: Seq<char>, radix: nat, max: nat)
    requires
        radix <= 36,
    ensures
        number(s, radix, max) matches Ok(n) ==> {
            let d = if s[0] == '+' {
                s.drop_first()
            } else {
                s
            };
            &&& d.len() > 0
            &&& n <= max
            &&& n == digits_value(d, radix)
            &&& forall|i: int| 0 <= i < d.len() ==> digit_value(#[trigger] d[i]) < radix
        },
        s.len() == 0 ==> number(s, radix, max) == Err::<nat, IntError>(IntError::Empty),
        s.len() > 0 && s[0] != '+' && (forall|i: int|
            0 <= i < s.len() ==> digit_value(#[trigger] s[i]) < radix) ==> number(s, radix, max)
            == (if digits_value(s, radix) <= max {
            Ok::<nat, IntError>(digits_value(s, radix))
        } else {
            Err::<nat, IntError>(IntError::PosOverflow)
        }),
        s.len() > 0 && s[0] != '+' && digit_value(s[0]) >= radix ==> number(s, radix, max)
            == Err::<nat, IntError>(IntError::InvalidDigit),
{
    let d = if s.len() > 0 && s[0] == '+' {
        s.drop_first()
    } else {
        s
    };
    lemma_run_of_digits(d, radix);
    let n = digit_run(d, radix) as int;
    assert(d.take(d.len() as int) =~= d);
    if n == 0 {
        assert(d.take(0) =~= Seq::<char>::empty());
    }
}

proof fn lemma_run_of_digits(s: Seq<char>, radix: nat)
    ensures
        digit_run(s, radix) <= s.len(),
        forall|i: int|
            0 <= i < digit_run(s, radix) ==> digit_value(#[trigger] s[i]) < radix,
        digit_run(s, radix) < s.len() ==> digit_value(
            s[digit_run(s, radix) as int],
        ) >= radix,
    decreases s.len(),
{
    if s.len() > 0 && digit_value(s[0]) < radix {
        lemma_run_of_digits(s.drop_first(), radix);
        assert forall|i: int| 0 <= i < digit_run(s, radix) implies digit_value(
            #[trigger] s[i],
        ) < radix by {
            if i > 0 {
                assert(s.drop_first()[i - 1] == s[i]);
            }
        }
    }
}

/// A digit more multiplies what stands before it by the radix; the digits are worth
/// 0 to 9, and the letters, small or large, 10 and more.
pub proof fn digits_have_places(s: Seq<char>, c: char, radix: nat)
    ensures
        digits_value(s.push(c), radix) == digits_value(s, radix) * radix + digit_value(c),
        '0' <= c <= '9' ==> digit_value(c) == c as int - 48,
        'a' <= c <= 'z' ==> digit_value(c) == c as int - 87,
        'A' <= c <= 'Z' ==> digit_value(c) == c as int - 55,
        !('0' <= c <= '9' || 'a' <= c <= 'z' || 'A' <= c <= 'Z') ==> digit_value(c) >= 36,
{
    assert(s.push(c).drop_last() =~= s);
}

/// A `+` in front of a number makes no difference, and alone it is no number.
pub proof fn plus_makes_no_difference(s: Seq<char>, radix: nat, max: nat)
    ensures
        s.len() > 0 && s[0] != '+' ==> number("+"@ + s, radix, max) == number(s, radix, max),
        number("+"@, radix, max) == Err::<nat, IntError>(IntError::InvalidDigit),
        number_u16(s) is Ok <==> number(s, 10, 65535) is Ok,
        number_u32(s, radix) is Ok <==> number(s, radix, 4294967295) is Ok,
{
    reveal_strlit("+");
    assert(("+"@ + s).drop_first() =~= s);
    if s.len() > 0 {
        assert(("+"@ + s)[0] == '+');
    }
}

/// Of two words the first is the port to bind, behind an address and a colon or
/// alone, and the second a host and a port with a colon between them, which must be
/// there.
pub proof fn two_words_are_the_two_ends(s: Seq<char>)
    requires
        words(s).len() == 2,
    ensures
        ({
            let t = words(s);
            &&& local_forward(s) matches Ok(v) ==> {
                &&& host_port_pair(t[0], "127.0.0.1"@) == Ok::<(Seq<char>, u16), ConfigErrorView>(
                    (v.bind_addr, v.bind_port),
                )
                &&& target_pair(t[1]) == Ok::<(Seq<char>, u16), ConfigErrorView>(
                    (v.target_host, v.target_port),
                )
            }
            &&& remote_forward(s) matches Ok(v) ==> {
                &&& host_port_pair(t[0], "0.0.0.0"@) == Ok::<(Seq<char>, u16), ConfigErrorView>(
                    (v.bind_addr, v.bind_port),
                )
                &&& target_pair(t[1]) == Ok::<(Seq<char>, u16), ConfigErrorView>(
                    (v.target_host, v.target_port),
                )
            }
            &&& host_port_pair(t[0], "127.0.0.1"@) is Ok && target_pair(t[1]) is Ok
                ==> local_forward(s) is Ok
            &&& free_of(t[1], ':') ==> target_pair(t[1]) == Err::<
                (Seq<char>, u16),
                ConfigErrorView,
            >(
                ConfigErrorView::Syntax(
                    "Target must be in host:port format, got '"@ + t[1] + "'"@,
                ),
            )
        }),
{
    let t = words(s);
    if free_of(t[1], ':') {
        lemma_no_last(t[1], ':');
    }
}

/// A host and a port are told apart at the last colon; a port alone is one on the
/// default host.
pub proof fn last_colon_separates(host: Seq<char>, port: Seq<char>, default_host: Seq<char>)
    requires
        free_of(port, ':'),
    ensures
        match number_u16(port) {
            Ok(n) => {
                &&& host_port_pair(port, default_host) == Ok::<(Seq<char>, u16), ConfigErrorView>(
                    (default_host, n),
                )
                &&& host_port_pair(host + ":"@ + port, default_host) == Ok::<
                    (Seq<char>, u16),
                    ConfigErrorView,
                >((host, n))
                &&& target_pair(host + ":"@ + port) == Ok::<(Seq<char>, u16), ConfigErrorView>(
                    (host, n),
                )
            },
            Err(e) => {
                &&& host_port_pair(port, default_host) == Err::<(Seq<char>, u16), ConfigErrorView>(
                    ConfigErrorView::Number(e),
                )
                &&& target_pair(host + ":"@ + port) == Err::<(Seq<char>, u16), ConfigErrorView>(
                    ConfigErrorView::Number(e),
                )
            },
        },
{
    reveal_strlit(":");
    assert(":"@ =~= seq![':']);
    let s = host + ":"@ + port;
    lemma_no_last(port, ':');
    lemma_split_at_last(host, port, ':');
    assert(s.take(host.len() as int) =~= host);
    assert(s.skip(host.len() as int + 1) =~= port);
}

/// What is said of a text that is no number tells an empty one, one with something
/// else than digits in it, and one that is too large apart.
pub proof fn refused_numbers_are_explained(e: IntError)
    ensures
        int_error_text(e) == (if e == IntError::Empty {
            "cannot parse integer from empty string"@
        } else if e == IntError::InvalidDigit {
            "invalid digit found in string"@
        } else {
            "number too large to fit in target type"@
        }),
{
}

/// Digits are read up to the first character that is none. It makes the text no
/// number, unless the digits before it are too large already.
pub proof fn first_fault_decides(d: Seq<char>, c: char, rest: Seq<char>, radix: nat, max: nat)
    requires
        d.len() > 0,
        d[0] != '+',
        forall|i: int| 0 <= i < d.len() ==> digit_value(#[trigger] d[i]) < radix,
        digit_value(c) >= radix,
    ensures
        number(d + seq![c] + rest, radix, max) == Err::<nat, IntError>(
            if digits_value(d, radix) > max {
                IntError::PosOverflow
            } else {
                IntError::InvalidDigit
            },
        ),
{
    let s = d + seq![c] + rest;
    lemma_run_of_digits(s, radix);
    let n = digit_run(s, radix) as int;
    assert(s[d.len() as int] == c);
    assert forall|i: int| 0 <= i < d.len() implies digit_value(#[trigger] s[i]) < radix by {
        assert(s[i] == d[i]);
    }
    assert(n == d.len());
    assert(s.take(n) =~= d);
}

/// What is said of a refused mark quotes it without the white space around it, and
/// says why it is no number.
pub proof fn refused_marks_are_explained(s: Seq<char>)
    ensures
        ({
            let t = trimmed(s);
            let hex = "0x"@.is_prefix_of(t) || "0X"@.is_prefix_of(t);
            &&& hex ==> (number_u32(t.skip(2), 16) matches Err(e) ==> fwmark(s) == Err::<
                u32,
                Seq<char>,
            >("Invalid hex fwmark '"@ + t + "': "@ + int_error_text(e)))
            &&& !hex ==> (number_u32(t, 10) matches Err(e) ==> fwmark(s) == Err::<u32, Seq<char>>(
                "Invalid fwmark '"@ + t + "': "@ + int_error_text(e),
            ))
        }),
{
}

/// What is said of a refused tunnel quotes its text, or the identifier in it.
pub proof fn refused_tunnels_are_explained(s: Seq<char>)
    ensures
        ({
            let u = trimmed(s);
            let t = words(u);
            let id = u.skip(5);
            let named = u != "auto"@ && !"auto:"@.is_prefix_of(u);
            &&& "auto:"@.is_prefix_of(u) && u != "auto"@ ==> (number_u16(trimmed(id)) matches Err(e)
                ==> tun_forward(s) == Err::<TunView, ConfigErrorView>(
                ConfigErrorView::Syntax(
                    "Invalid auto TUN id '"@ + id + "': "@ + int_error_text(e),
                ),
            ))
            &&& named && t.len() == 1 && pieces(u, ':').len() > 2 ==> tun_forward(s) == Err::<
                TunView,
                ConfigErrorView,
            >(
                ConfigErrorView::Syntax(
                    "Invalid TUN spec '"@ + s + "', expected local_tun[:remote_tun] or 'auto'"@,
                ),
            )
            &&& named && (t.len() == 0 || t.len() > 2) ==> tun_forward(s) == Err::<
                TunView,
                ConfigErrorView,
            >(ConfigErrorView::Syntax("Invalid TUN spec '"@ + s + "'"@))
        }),
{
    reveal_strlit("auto:");
}

} // verus!
