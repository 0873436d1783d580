//! The frames that carry packets over an SSH channel: four bytes that name the
//! address family, the most significant first, and then the packet.

use vstd::prelude::*;

verus! {

/// How many bytes of a frame stand before the packet.
pub const HEADER_LEN: usize = 4;

/// The number of the IPv4 address family.
pub const AF_INET: u32 = 2;

/// The number of the IPv6 address family.
pub const AF_INET6: u32 = 10;

/// The address family of a packet, by the version in the upper half of its first
/// byte. A packet of another version than 6 counts as IPv4.
pub open spec fn packet_family(first: u8) -> u32 {
    if first / 16 == 6 {
        AF_INET6
    } else {
        AF_INET
    }
}

/// The frame of a packet.
pub open spec fn frame(packet: Seq<u8>) -> Seq<u8> {
    seq![0u8, 0u8, 0u8, packet_family(packet[0]) as u8] + packet
}

/// What to do with bytes that were read on one side of a tunnel.
#[derive(Debug, Clone, PartialEq, Eq)]
pub enum RelayStep {
    /// Write these bytes on the other side.
    Write(Vec<u8>),
    /// Nothing; read on.
    Skip,
    /// Nothing; the tunnel has ended.
    Stop,
}

/// The model of a `RelayStep`.
pub enum RelayView {
    Write(Seq<u8>),
    Skip,
    Stop,
}

impl View for RelayStep {
    type V = RelayView;

    open spec fn view(&self) -> RelayView {
        match self {
            RelayStep::Write(v) => RelayView::Write(v@),
            RelayStep::Skip => RelayView::Skip,
            RelayStep::Stop => RelayView::Stop,
        }
    }
}

/// What becomes of the bytes that were read from the device; there are none where
/// reading failed.
pub open spec fn outbound(read: Option<Seq<u8>>) -> RelayView {
    match read {
        None => RelayView::Stop,
        Some(packet) => if packet.len() == 0 {
            RelayView::Stop
        } else {
            RelayView::Write(frame(packet))
        },
    }
}

/// What becomes of the bytes that were read from the channel; there are none
/// where reading failed. A frame without a packet is skipped.
pub open spec fn inbound(read: Option<Seq<u8>>) -> RelayView {
    match read {
        None => RelayView::Stop,
        Some(bytes) => if bytes.len() == 0 {
            RelayView::Stop
        } else if bytes.len() <= HEADER_LEN {
            RelayView::Skip
        } else {
            RelayView::Write(bytes.skip(HEADER_LEN as int))
        },
    }
}

/// The model of what was read.
pub open spec fn read_view(read: Option<Vec<u8>>) -> Option<Seq<u8>> {
    match read {
        Some(v) => Some(v@),
        None => None,
    }
}

fn push_from(r: &mut Vec<u8>, v: &Vec<u8>, from: usize)
    requires
        from <= v@.len(),
    ensures
        final(r)@ == old(r)@ + v@.skip(from as int),
{
    let ghost before = r@;
    let mut i: usize = from;
    while i < v.len()
        invariant
            from <= i <= v@.len(),
            r@ == before + v@.subrange(from as int, i as int),
        decreases v.len() - i,
    {
        r.push(v[i]);
        i += 1;
        assert(v@.subrange(from as int, i as int) == v@.subrange(from as int, i - 1).push(
            v@[i - 1],
        ));
    }
    assert(v@.subrange(from as int, i as int) == v@.skip(from as int));
}

/// The frame of a packet.
pub fn frame_packet(packet: &Vec<u8>) -> (r: Vec<u8>)
    requires
        packet@.len() > 0,
    ensures
        r@ == frame(packet@),
{
    let first = packet[0];
    let family: u8 = if first / 16 == 6 {
        10
    } else {
        2
    };
    let mut r: Vec<u8> = vec![0, 0, 0, family];
    assert(r@ == seq![0u8, 0u8, 0u8, packet_family(packet@[0]) as u8]);
    push_from(&mut r, packet, 0);
    assert(packet@.skip(0) == packet@);
    r
}

/// What becomes of the bytes that were read from the device.
pub fn relay_outbound(read: &Option<Vec<u8>>) -> (r: RelayStep)
    ensures
        r@ == outbound(read_view(*read)),
{
    match read {
        None => RelayStep::Stop,
        Some(packet) => if packet.len() == 0 {
            RelayStep::Stop
        } else {
            RelayStep::Write(frame_packet(packet))
        },
    }
}

/// What becomes of the bytes that were read from the channel.
pub fn relay_inbound(read: &Option<Vec<u8>>) -> (r: RelayStep)
    ensures
        r@ == inbound(read_view(*read)),
{
    match read {
        None => RelayStep::Stop,
        Some(bytes) => if bytes.len() == 0 {
            RelayStep::Stop
        } else if bytes.len() <= HEADER_LEN {
            RelayStep::Skip
        } else {
            let mut packet: Vec<u8> = Vec::new();
            push_from(&mut packet, bytes, HEADER_LEN);
            assert(packet@ == bytes@.skip(4));
            RelayStep::Write(packet)
        },
    }
}

/// A packet that goes through the channel as a frame comes out of it unchanged.
pub proof fn packet_survives_channel(packet: Seq<u8>)
    requires
        packet.len() > 0,
    ensures
        outbound(Some(packet)) == RelayView::Write(frame(packet)),
        inbound(Some(frame(packet))) == RelayView::Write(packet),
{
    assert(frame(packet).skip(4) == packet);
}

/// The header of a frame is the number of the packet's address family in network
/// byte order: that of IPv6 for version 6, and that of IPv4 for version 4.
pub proof fn header_names_family(packet: Seq<u8>)
    requires
        packet.len() > 0,
    ensures
        ({
            let f = frame(packet);
            f[0] * 0x1000000 + f[1] * 0x10000 + f[2] * 0x100 + f[3] == packet_family(packet[0])
        }),
        packet[0] / 16 == 6 ==> packet_family(packet[0]) == AF_INET6,
        packet[0] / 16 == 4 ==> packet_family(packet[0]) == AF_INET,
{
}

} // verus!
