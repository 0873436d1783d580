//! What goes over the wire: frames and SOCKS5 conversations, byte by byte.

use crate::addr::{ipv4_text, ipv6_text};
use crate::frame::{frame, inbound, outbound, RelayView};
use crate::socks::{
    conversation, domain_request_is_dialled, ipv4_request_is_dialled, ipv6_request_is_dialled,
    other_command_is_denied, socks_action, socks_next, SocksActionView, SocksOutcomeView,
    SocksView,
};
use crate::text::decoded;
use vstd::prelude::*;

verus! {

/// A frame is a packet behind four bytes: three zeros, and 10 where the packet is of
/// version 6, else 2.
pub proof fn frame_holds_the_packet(packet: Seq<u8>)
    requires
        packet.len() > 0,
    ensures
        frame(packet).len() == packet.len() + 4,
        frame(packet).skip(4) == packet,
        frame(packet)[0] == 0,
        frame(packet)[1] == 0,
        frame(packet)[2] == 0,
        frame(packet)[3] == (if packet[0] / 16 == 6 {
            10
        } else {
            2int
        }),
{
    assert(frame(packet).skip(4) =~= packet);
}

/// A tunnel ends with either side: where nothing more can be read, and where reading
/// fails. Every packet of the device is written to the channel.
pub proof fn reading_decides_what_is_written(read: Option<Seq<u8>>)
    ensures
        read is None ==> outbound(read) == RelayView::Stop && inbound(read) == RelayView::Stop,
        read matches Some(b) ==> {
            &&& b.len() == 0 ==> outbound(read) == RelayView::Stop && inbound(read)
                == RelayView::Stop
            &&& b.len() > 0 ==> outbound(read) == RelayView::Write(frame(b))
            &&& 1 <= b.len() <= 4 ==> inbound(read) == RelayView::Skip
            &&& b.len() > 4 ==> inbound(read) == RelayView::Write(b.skip(4))
        },
{
}

/// A client that asks for an address of four bytes gets a connection to it, at the
/// port whose high byte comes first.
pub proof fn four_byte_address_is_dialled(
    methods: Seq<u8>,
    reserved: u8,
    ip: Seq<u8>,
    port: u16,
    rest: Seq<u8>,
)
    requires
        methods.len() < 256,
        ip.len() == 4,
    ensures
        conversation(
            SocksView::Greeting,
            seq![5u8, methods.len() as u8] + methods + (seq![5u8, 1u8, reserved, 1u8] + (ip + (
            seq![(port / 256) as u8, (port % 256) as u8] + rest))),
            seq![],
        ) == (SocksView::Dial(ipv4_text(ip), port), rest, seq![5u8, 0u8]),
{
    ipv4_request_is_dialled(methods, reserved, ip, port, rest);
}

/// A client that asks for an address of sixteen bytes gets a connection to it.
pub proof fn sixteen_byte_address_is_dialled(
    methods: Seq<u8>,
    reserved: u8,
    ip: Seq<u8>,
    port: u16,
    rest: Seq<u8>,
)
    requires
        methods.len() < 256,
        ip.len() == 16,
    ensures
        conversation(
            SocksView::Greeting,
            seq![5u8, methods.len() as u8] + methods + (seq![5u8, 1u8, reserved, 4u8] + (ip + (
            seq![(port / 256) as u8, (port % 256) as u8] + rest))),
            seq![],
        ) == (SocksView::Dial(ipv6_text(ip), port), rest, seq![5u8, 0u8]),
{
    ipv6_request_is_dialled(methods, reserved, ip, port, rest);
}

/// A client that asks for a name, which stands behind its length, gets a connection
/// to the host of that name.
pub proof fn name_is_dialled(
    methods: Seq<u8>,
    reserved: u8,
    name: Seq<u8>,
    port: u16,
    rest: Seq<u8>,
)
    requires
        methods.len() < 256,
        name.len() < 256,
    ensures
        conversation(
            SocksView::Greeting,
            seq![5u8, methods.len() as u8] + methods + (seq![5u8, 1u8, reserved, 3u8] + (seq![
                name.len() as u8,
            ] + (name + (seq![(port / 256) as u8, (port % 256) as u8] + rest)))),
            seq![],
        ) == (SocksView::Dial(decoded(name), port), rest, seq![5u8, 0u8]),
{
    domain_request_is_dialled(methods, reserved, name, port, rest);
}

/// A request of another version or for anything but a connection is denied with the
/// code 7, and nothing more is read.
pub proof fn other_requests_are_denied(methods: Seq<u8>, header: Seq<u8>, rest: Seq<u8>)
    requires
        methods.len() < 256,
        header.len() == 4,
        header[0] != 5 || header[1] != 1,
    ensures
        conversation(
            SocksView::Greeting,
            seq![5u8, methods.len() as u8] + methods + (header + rest),
            seq![],
        ) == (
            SocksView::Closed,
            rest,
            seq![5u8, 0u8] + seq![5u8, 7u8, 0u8, 1u8, 0u8, 0u8, 0u8, 0u8, 0u8, 0u8],
        ),
{
    other_command_is_denied(methods, header, rest);
}

/// A request for an address of an unknown kind is not answered.
pub proof fn unknown_addresses_are_not_answered(header: Seq<u8>)
    requires
        header.len() == 4,
        header[0] == 5,
        header[1] == 1,
        header[3] != 1,
        header[3] != 3,
        header[3] != 4,
    ensures
        socks_action(socks_next(SocksView::Header, SocksOutcomeView::Bytes(header)))
            == SocksActionView::Close,
{
}

/// The client is told 0 where the connection stands, and 5 where it does not.
pub proof fn client_is_told(host: Seq<char>, port: u16, o: SocksOutcomeView)
    ensures
        ({
            let next = socks_next(SocksView::Dial(host, port), o);
            let code = if o is Done {
                0u8
            } else {
                5u8
            };
            &&& socks_action(SocksView::Dial(host, port)) == SocksActionView::Dial(host, port)
            &&& socks_action(next) == SocksActionView::Write(
                seq![5u8, code, 0u8, 1u8, 0u8, 0u8, 0u8, 0u8, 0u8, 0u8],
            )
        }),
{
}

/// A conversation is over where its client cannot be read from, where fewer or more
/// bytes come than were asked for, and where it cannot be written to. Only what was
/// asked for is relayed.
pub proof fn failures_close_the_conversation(s: SocksView, o: SocksOutcomeView)
    ensures
        socks_action(s) matches SocksActionView::Read(n) ==> !(o matches SocksOutcomeView::Bytes(b)
            && b.len() == n) ==> socks_action(socks_next(s, o)) == SocksActionView::Close,
        socks_action(s) is Write && !(o is Done) ==> socks_action(socks_next(s, o))
            == SocksActionView::Close,
        socks_action(s) is Relay || socks_action(s) is Close ==> socks_action(socks_next(s, o))
            == SocksActionView::Close,
        socks_action(socks_next(s, o)) is Relay ==> socks_action(s) is Write && o is Done,
{
}

} // verus!
