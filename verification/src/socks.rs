//! The server's side of a SOCKS5 conversation, up to the point at which bytes are
//! passed on between the client and the target.

use crate::addr::{format_ipv4, format_ipv6, ipv4_text, ipv6_text};
use crate::text::{copy, decode, decoded};
use vstd::prelude::*;
use vstd::string::*;

verus! {

/// The version of the protocol.
pub const SOCKS_VERSION: u8 = 5;

/// The command that asks for a connection.
pub const CMD_CONNECT: u8 = 1;

/// The address type of an IPv4 address.
pub const ATYP_IPV4: u8 = 1;

/// The address type of a domain name.
pub const ATYP_DOMAIN: u8 = 3;

/// The address type of an IPv6 address.
pub const ATYP_IPV6: u8 = 4;

/// The reply that a connection stands.
pub const REP_SUCCEEDED: u8 = 0;

/// The reply that the target refused the connection.
pub const REP_REFUSED: u8 = 5;

/// The reply that the command is not supported.
pub const REP_UNSUPPORTED: u8 = 7;

/// What the next thing to do is.
#[derive(Debug, Clone, PartialEq, Eq)]
pub enum SocksAction {
    /// Read exactly so many bytes from the client.
    Read(usize),
    /// Write these bytes to the client.
    Write(Vec<u8>),
    /// Open a channel to this host and port.
    Dial(String, u16),
    /// Pass bytes on in both directions until both have ended.
    Relay,
    /// Close the connection to the client.
    Close,
}

/// The model of a `SocksAction`.
pub enum SocksActionView {
    Read(nat),
    Write(Seq<u8>),
    Dial(Seq<char>, u16),
    Relay,
    Close,
}

impl View for SocksAction {
    type V = SocksActionView;

    open spec fn view(&self) -> SocksActionView {
        match self {
            SocksAction::Read(n) => SocksActionView::Read(*n as nat),
            SocksAction::Write(v) => SocksActionView::Write(v@),
            SocksAction::Dial(h, p) => SocksActionView::Dial(h@, *p),
            SocksAction::Relay => SocksActionView::Relay,
            SocksAction::Close => SocksActionView::Close,
        }
    }
}

/// How an action went.
#[derive(Debug, Clone, PartialEq, Eq)]
pub enum SocksOutcome {
    /// These bytes were read.
    Bytes(Vec<u8>),
    /// It succeeded.
    Done,
    /// It failed.
    Failed,
}

/// The model of a `SocksOutcome`.
pub enum SocksOutcomeView {
    Bytes(Seq<u8>),
    Done,
    Failed,
}

impl View for SocksOutcome {
    type V = SocksOutcomeView;

    open spec fn view(&self) -> SocksOutcomeView {
        match self {
            SocksOutcome::Bytes(v) => SocksOutcomeView::Bytes(v@),
            SocksOutcome::Done => SocksOutcomeView::Done,
            SocksOutcome::Failed => SocksOutcomeView::Failed,
        }
    }
}

/// How far a conversation has come.
#[derive(Debug, Clone, PartialEq, Eq)]
pub enum SocksStage {
    /// The version and the number of methods are read.
    Greeting,
    /// So many methods are read.
    Methods(u8),
    /// The client is told that it need not authenticate.
    Welcome,
    /// The request up to its address is read.
    Header,
    /// The client is told that the command is not supported.
    Deny,
    /// An IPv4 address is read.
    Addr4,
    /// The length of a name is read.
    NameLen,
    /// A name of this length is read.
    Name(u8),
    /// An IPv6 address is read.
    Addr6,
    /// The port on this host is read.
    Port(String),
    /// A channel to this host and port is opened.
    Dial(String, u16),
    /// The client is told that there is no connection.
    Refuse,
    /// The client is told that there is a connection.
    Confirm,
    /// Bytes are passed on.
    Relay,
    /// The conversation is over.
    Closed,
}

/// The model of a `SocksStage`.
pub enum SocksView {
    Greeting,
    Methods(u8),
    Welcome,
    Header,
    Deny,
    Addr4,
    NameLen,
    Name(u8),
    Addr6,
    Port(Seq<char>),
    Dial(Seq<char>, u16),
    Refuse,
    Confirm,
    Relay,
    Closed,
}

impl View for SocksStage {
    type V = SocksView;

    open spec fn view(&self) -> SocksView {
        match self {
            SocksStage::Greeting => SocksView::Greeting,
            SocksStage::Methods(n) => SocksView::Methods(*n),
            SocksStage::Welcome => SocksView::Welcome,
            SocksStage::Header => SocksView::Header,
            SocksStage::Deny => SocksView::Deny,
            SocksStage::Addr4 => SocksView::Addr4,
            SocksStage::NameLen => SocksView::NameLen,
            SocksStage::Name(n) => SocksView::Name(*n),
            SocksStage::Addr6 => SocksView::Addr6,
            SocksStage::Port(h) => SocksView::Port(h@),
            SocksStage::Dial(h, p) => SocksView::Dial(h@, *p),
            SocksStage::Refuse => SocksView::Refuse,
            SocksStage::Confirm => SocksView::Confirm,
            SocksStage::Relay => SocksView::Relay,
            SocksStage::Closed => SocksView::Closed,
        }
    }
}

/// The answer to a greeting: the version, and the method without authentication.
pub open spec fn welcome() -> Seq<u8> {
    seq![SOCKS_VERSION, 0u8]
}

/// A reply to a request, with an unspecified IPv4 address and port.
pub open spec fn reply(code: u8) -> Seq<u8> {
    seq![SOCKS_VERSION, code, 0u8, ATYP_IPV4, 0u8, 0u8, 0u8, 0u8, 0u8, 0u8]
}

/// What to do next.
pub open spec fn socks_action(s: SocksView) -> SocksActionView {
    match s {
        SocksView::Greeting => SocksActionView::Read(2),
        SocksView::Methods(n) => SocksActionView::Read(n as nat),
        SocksView::Welcome => SocksActionView::Write(welcome()),
        SocksView::Header => SocksActionView::Read(4),
        SocksView::Deny => SocksActionView::Write(reply(REP_UNSUPPORTED)),
        SocksView::Addr4 => SocksActionView::Read(4),
        SocksView::NameLen => SocksActionView::Read(1),
        SocksView::Name(n) => SocksActionView::Read(n as nat),
        SocksView::Addr6 => SocksActionView::Read(16),
        SocksView::Port(_) => SocksActionView::Read(2),
        SocksView::Dial(h, p) => SocksActionView::Dial(h, p),
        SocksView::Refuse => SocksActionView::Write(reply(REP_REFUSED)),
        SocksView::Confirm => SocksActionView::Write(reply(REP_SUCCEEDED)),
        SocksView::Relay => SocksActionView::Relay,
        SocksView::Closed => SocksActionView::Close,
    }
}

/// The stage that follows when the bytes that were asked for have been read.
pub open spec fn after_bytes(s: SocksView, b: Seq<u8>) -> SocksView {
    match s {
        SocksView::Greeting => if b[0] == SOCKS_VERSION {
            SocksView::Methods(b[1])
        } else {
            SocksView::Closed
        },
        SocksView::Methods(_) => SocksView::Welcome,
        SocksView::Header => if b[0] != SOCKS_VERSION || b[1] != CMD_CONNECT {
            SocksView::Deny
        } else if b[3] == ATYP_IPV4 {
            SocksView::Addr4
        } else if b[3] == ATYP_DOMAIN {
            SocksView::NameLen
        } else if b[3] == ATYP_IPV6 {
            SocksView::Addr6
        } else {
            SocksView::Closed
        },
        SocksView::Addr4 => SocksView::Port(ipv4_text(b)),
        SocksView::NameLen => SocksView::Name(b[0]),
        SocksView::Name(_) => SocksView::Port(decoded(b)),
        SocksView::Addr6 => SocksView::Port(ipv6_text(b)),
        SocksView::Port(h) => SocksView::Dial(h, (b[0] * 256 + b[1]) as u16),
        _ => SocksView::Closed,
    }
}

/// The stage that follows an outcome. Where bytes are to be read, anything but
/// exactly as many as were asked for closes the connection.
pub open spec fn socks_next(s: SocksView, o: SocksOutcomeView) -> SocksView {
    match socks_action(s) {
        SocksActionView::Read(n) => match o {
            SocksOutcomeView::Bytes(b) => if b.len() == n {
                after_bytes(s, b)
            } else {
                SocksView::Closed
            },
            _ => SocksView::Closed,
        },
        _ => match s {
            SocksView::Welcome => if o is Done {
                SocksView::Header
            } else {
                SocksView::Closed
            },
            SocksView::Dial(_, _) => if o is Done {
                SocksView::Confirm
            } else {
                SocksView::Refuse
            },
            SocksView::Confirm => if o is Done {
                SocksView::Relay
            } else {
                SocksView::Closed
            },
            _ => SocksView::Closed,
        },
    }
}

/// A conversation with a client.
pub struct SocksSession {
    stage: SocksStage,
}

impl View for SocksSession {
    type V = SocksView;

    closed spec fn view(&self) -> SocksView {
        self.stage@
    }
}

fn make_reply(code: u8) -> (r: Vec<u8>)
    ensures
        r@ == reply(code),
{
    let r: Vec<u8> = vec![SOCKS_VERSION, code, 0, ATYP_IPV4, 0, 0, 0, 0, 0, 0];
    assert(r@ == reply(code));
    r
}

impl SocksSession {
    /// A conversation that has not begun.
    pub fn new() -> (r: SocksSession)
        ensures
            r@ == SocksView::Greeting,
    {
        SocksSession { stage: SocksStage::Greeting }
    }

    /// What to do next.
    pub fn action(&self) -> (r: SocksAction)
        ensures
            r@ == socks_action(self@),
    {
        match &self.stage {
            SocksStage::Greeting => SocksAction::Read(2),
            SocksStage::Methods(n) => SocksAction::Read(*n as usize),
            SocksStage::Welcome => {
                let bytes: Vec<u8> = vec![SOCKS_VERSION, 0];
                assert(bytes@ == welcome());
                SocksAction::Write(bytes)
            },
            SocksStage::Header => SocksAction::Read(4),
            SocksStage::Deny => SocksAction::Write(make_reply(REP_UNSUPPORTED)),
            SocksStage::Addr4 => SocksAction::Read(4),
            SocksStage::NameLen => SocksAction::Read(1),
            SocksStage::Name(n) => SocksAction::Read(*n as usize),
            SocksStage::Addr6 => SocksAction::Read(16),
            SocksStage::Port(_) => SocksAction::Read(2),
            SocksStage::Dial(h, p) => SocksAction::Dial(copy(h.as_str()), *p),
            SocksStage::Refuse => SocksAction::Write(make_reply(REP_REFUSED)),
            SocksStage::Confirm => SocksAction::Write(make_reply(REP_SUCCEEDED)),
            SocksStage::Relay => SocksAction::Relay,
            SocksStage::Closed => SocksAction::Close,
        }
    }

    fn take_bytes(&self, b: &Vec<u8>) -> (r: SocksStage)
        requires
            socks_action(self@) == SocksActionView::Read(b@.len()),
        ensures
            r@ == after_bytes(self@, b@),
    {
        match &self.stage {
            SocksStage::Greeting => if b[0] == SOCKS_VERSION {
                SocksStage::Methods(b[1])
            } else {
                SocksStage::Closed
            },
            SocksStage::Methods(_) => SocksStage::Welcome,
            SocksStage::Header => if b[0] != SOCKS_VERSION || b[1] != CMD_CONNECT {
                SocksStage::Deny
            } else if b[3] == ATYP_IPV4 {
                SocksStage::Addr4
            } else if b[3] == ATYP_DOMAIN {
                SocksStage::NameLen
            } else if b[3] == ATYP_IPV6 {
                SocksStage::Addr6
            } else {
                SocksStage::Closed
            },
            SocksStage::Addr4 => {
                assert(b@ == seq![b@[0], b@[1], b@[2], b@[3]]);
                SocksStage::Port(format_ipv4(b[0], b[1], b[2], b[3]))
            },
            SocksStage::NameLen => SocksStage::Name(b[0]),
            SocksStage::Name(_) => SocksStage::Port(decode(b)),
            SocksStage::Addr6 => SocksStage::Port(format_ipv6(b)),
            SocksStage::Port(h) => SocksStage::Dial(
                copy(h.as_str()),
                b[0] as u16 * 256 + b[1] as u16,
            ),
            _ => SocksStage::Closed,
        }
    }

    /// Goes on after the action that was to be done next.
    pub fn advance(&mut self, outcome: SocksOutcome)
        ensures
            final(self)@ == socks_next(old(self)@, outcome@),
    {
        let stage = match (self.action(), &self.stage, outcome) {
            (SocksAction::Read(n), _, SocksOutcome::Bytes(b)) => if b.len() == n {
                self.take_bytes(&b)
            } else {
                SocksStage::Closed
            },
            (SocksAction::Read(_), _, _) => SocksStage::Closed,
            (_, SocksStage::Welcome, SocksOutcome::Done) => SocksStage::Header,
            (_, SocksStage::Dial(_, _), SocksOutcome::Done) => SocksStage::Confirm,
            (_, SocksStage::Dial(_, _), _) => SocksStage::Refuse,
            (_, SocksStage::Confirm, SocksOutcome::Done) => SocksStage::Relay,
            _ => SocksStage::Closed,
        };
        self.stage = stage;
    }
}

/// How many outcomes a conversation can still wait for.
pub open spec fn socks_rank(s: SocksView) -> nat {
    match s {
        SocksView::Greeting => 10,
        SocksView::Methods(_) => 9,
        SocksView::Welcome => 8,
        SocksView::Header => 7,
        SocksView::NameLen => 6,
        SocksView::Name(_) => 5,
        SocksView::Addr4 => 5,
        SocksView::Addr6 => 5,
        SocksView::Port(_) => 4,
        SocksView::Dial(_, _) => 3,
        SocksView::Confirm => 2,
        SocksView::Relay => 1,
        SocksView::Refuse => 1,
        SocksView::Deny => 1,
        SocksView::Closed => 0,
    }
}

/// What a client that sends `input` brings about, as long as what is written to
/// it arrives: the stage at which a channel must be opened, the connection is
/// closed or more input is needed, the input that is left, and what was written.
pub open spec fn conversation(s: SocksView, input: Seq<u8>, output: Seq<u8>) -> (
    SocksView,
    Seq<u8>,
    Seq<u8>,
)
    decreases socks_rank(s),
{
    match socks_action(s) {
        SocksActionView::Read(n) => if n <= input.len() {
            conversation(
                socks_next(s, SocksOutcomeView::Bytes(input.take(n as int))),
                input.skip(n as int),
                output,
            )
        } else {
            (s, input, output)
        },
        SocksActionView::Write(b) => conversation(
            socks_next(s, SocksOutcomeView::Done),
            input,
            output + b,
        ),
        _ => (s, input, output),
    }
}

/// Every conversation comes to an end: each outcome brings it closer to being
/// closed.
pub proof fn conversation_ends(s: SocksView, o: SocksOutcomeView)
    ensures
        socks_next(s, o) == SocksView::Closed || socks_rank(socks_next(s, o)) < socks_rank(s),
{
}

proof fn lemma_read(s: SocksView, head: Seq<u8>, rest: Seq<u8>, output: Seq<u8>)
    requires
        socks_action(s) == SocksActionView::Read(head.len()),
    ensures
        conversation(s, head + rest, output) == conversation(after_bytes(s, head), rest, output),
{
    assert((head + rest).take(head.len() as int) == head);
    assert((head + rest).skip(head.len() as int) == rest);
}

/// A greeting, of whatever methods.
pub open spec fn greeting(methods: Seq<u8>) -> Seq<u8> {
    seq![SOCKS_VERSION, methods.len() as u8] + methods
}

proof fn lemma_greeting(methods: Seq<u8>, rest: Seq<u8>)
    requires
        methods.len() < 256,
    ensures
        conversation(SocksView::Greeting, greeting(methods) + rest, seq![]) == conversation(
            SocksView::Header,
            rest,
            welcome(),
        ),
{
    let start = seq![SOCKS_VERSION, methods.len() as u8];
    assert(greeting(methods) + rest == start + (methods + rest));
    lemma_read(SocksView::Greeting, start, methods + rest, seq![]);
    lemma_read(SocksView::Methods(methods.len() as u8), methods, rest, seq![]);
    assert(Seq::<u8>::empty() + welcome() == welcome());
}

/// A port in network byte order.
pub open spec fn port_bytes(port: u16) -> Seq<u8> {
    seq![(port / 256) as u8, (port % 256) as u8]
}

proof fn lemma_port(host: Seq<char>, port: u16, rest: Seq<u8>, output: Seq<u8>)
    ensures
        conversation(SocksView::Port(host), port_bytes(port) + rest, output) == (
            SocksView::Dial(host, port),
            rest,
            output,
        ),
{
    lemma_read(SocksView::Port(host), port_bytes(port), rest, output);
    assert((port / 256) * 256 + port % 256 == port) by (nonlinear_arith);
}

/// A client that asks for a connection to an IPv4 address gets one to that
/// address and port, whatever methods it offers.
pub proof fn ipv4_request_is_dialled(
    methods: Seq<u8>,
    reserved: u8,
    ip: Seq<u8>,
    port: u16,
    rest: Seq<u8>,
)
    requires
        methods.len() < 256,
        ip.len() == 4,
    ensures
        conversation(
            SocksView::Greeting,
            greeting(methods) + (seq![SOCKS_VERSION, CMD_CONNECT, reserved, ATYP_IPV4] + (ip + (
            port_bytes(port) + rest))),
            seq![],
        ) == (SocksView::Dial(ipv4_text(ip), port), rest, welcome()),
{
    let header = seq![SOCKS_VERSION, CMD_CONNECT, reserved, ATYP_IPV4];
    let tail = ip + (port_bytes(port) + rest);
    lemma_greeting(methods, header + tail);
    lemma_read(SocksView::Header, header, tail, welcome());
    lemma_read(SocksView::Addr4, ip, port_bytes(port) + rest, welcome());
    lemma_port(ipv4_text(ip), port, rest, welcome());
}

/// A client that asks for a connection to an IPv6 address gets one to that
/// address and port, whatever methods it offers.
pub proof fn ipv6_request_is_dialled(
    methods: Seq<u8>,
    reserved: u8,
    ip: Seq<u8>,
    port: u16,
    rest: Seq<u8>,
)
    requires
        methods.len() < 256,
        ip.len() == 16,
    ensures
        conversation(
            SocksView::Greeting,
            greeting(methods) + (seq![SOCKS_VERSION, CMD_CONNECT, reserved, ATYP_IPV6] + (ip + (
            port_bytes(port) + rest))),
            seq![],
        ) == (SocksView::Dial(ipv6_text(ip), port), rest, welcome()),
{
    let header = seq![SOCKS_VERSION, CMD_CONNECT, reserved, ATYP_IPV6];
    let tail = ip + (port_bytes(port) + rest);
    lemma_greeting(methods, header + tail);
    lemma_read(SocksView::Header, header, tail, welcome());
    lemma_read(SocksView::Addr6, ip, port_bytes(port) + rest, welcome());
    lemma_port(ipv6_text(ip), port, rest, welcome());
}

/// A client that asks for a connection to a named host gets one to that host and
/// port, whatever methods it offers.
pub proof fn domain_request_is_dialled(
    methods: Seq<u8>,
    reserved: u8,
    name: Seq<u8>,
    port: u16,
    rest: Seq<u8>,
)
    requires
        methods.len() < 256,
        name.len() < 256,
    ensures
        conversation(
            SocksView::Greeting,
            greeting(methods) + (seq![SOCKS_VERSION, CMD_CONNECT, reserved, ATYP_DOMAIN] + (seq![
                name.len() as u8,
            ] + (name + (port_bytes(port) + rest)))),
            seq![],
        ) == (SocksView::Dial(decoded(name), port), rest, welcome()),
{
    let header = seq![SOCKS_VERSION, CMD_CONNECT, reserved, ATYP_DOMAIN];
    let len = seq![name.len() as u8];
    let tail = name + (port_bytes(port) + rest);
    lemma_greeting(methods, header + (len + tail));
    lemma_read(SocksView::Header, header, len + tail, welcome());
    lemma_read(SocksView::NameLen, len, tail, welcome());
    lemma_read(SocksView::Name(name.len() as u8), name, port_bytes(port) + rest, welcome());
    lemma_port(decoded(name), port, rest, welcome());
}

/// A request for anything but a connection is answered with the reply that the
/// command is not supported, and the connection is closed.
pub proof fn other_command_is_denied(methods: Seq<u8>, header: Seq<u8>, rest: Seq<u8>)
    requires
        methods.len() < 256,
        header.len() == 4,
        header[0] != SOCKS_VERSION || header[1] != CMD_CONNECT,
    ensures
        conversation(SocksView::Greeting, greeting(methods) + (header + rest), seq![]) == (
            SocksView::Closed,
            rest,
            welcome() + reply(REP_UNSUPPORTED),
        ),
{
    lemma_greeting(methods, header + rest);
    lemma_read(SocksView::Header, header, rest, welcome());
    reveal_with_fuel(conversation, 2);
}

/// A client that speaks another version is not answered.
pub proof fn other_version_is_not_answered(input: Seq<u8>)
    requires
        input.len() >= 2,
        input[0] != SOCKS_VERSION,
    ensures
        conversation(SocksView::Greeting, input, seq![]) == (
            SocksView::Closed,
            input.skip(2),
            Seq::<u8>::empty(),
        ),
{
    reveal_with_fuel(conversation, 2);
}

/// A client hears of a connection that stands before any of its bytes, and of
/// one that could not be opened before it is closed.
pub proof fn client_hears_of_connection(host: Seq<char>, port: u16)
    ensures
        ({
            let s = socks_next(SocksView::Dial(host, port), SocksOutcomeView::Done);
            &&& socks_action(s) == SocksActionView::Write(reply(REP_SUCCEEDED))
            &&& socks_action(socks_next(s, SocksOutcomeView::Done)) == SocksActionView::Relay
        }),
        ({
            let s = socks_next(SocksView::Dial(host, port), SocksOutcomeView::Failed);
            &&& socks_action(s) == SocksActionView::Write(reply(REP_REFUSED))
            &&& forall|o: SocksOutcomeView| #[trigger]
                socks_action(socks_next(s, o)) == SocksActionView::Close
        }),
{
}

} // verus!
