//! Wire framing: a UDP packet is one type byte followed by a JSON payload, and a reliable
//! stream carries one JSON message per line.
use vstd::prelude::*;

verus! {

/// Type byte of a reliable packet.
pub const PKT_RELIABLE: u8 = 0x01;

/// Type byte of a datagram packet.
pub const PKT_UNRELIABLE: u8 = 0x02;

/// The byte that ends a line.
pub const NEWLINE: u8 = 0x0a;

/// How an incoming packet is to be handled.
#[derive(Clone, Copy, Debug, PartialEq, Eq, Structural)]
pub enum PacketKind {
    /// No bytes at all: ignored.
    Empty,
    /// A reliable message follows the type byte.
    Reliable,
    /// A datagram follows the type byte.
    Unreliable,
    /// An unknown type byte.
    Unknown(u8),
}

/// How a packet with these bytes is handled.
pub open spec fn spec_packet_kind(packet: Seq<u8>) -> PacketKind {
    if packet.len() == 0 {
        PacketKind::Empty
    } else if packet[0] == PKT_RELIABLE {
        PacketKind::Reliable
    } else if packet[0] == PKT_UNRELIABLE {
        PacketKind::Unreliable
    } else {
        PacketKind::Unknown(packet[0])
    }
}

/// Classifies a packet by its type byte.
pub fn packet_kind(packet: &[u8]) -> (k: PacketKind)
    ensures
        k == spec_packet_kind(packet@),
{
    if packet.len() == 0 {
        PacketKind::Empty
    } else if packet[0] == PKT_RELIABLE {
        PacketKind::Reliable
    } else if packet[0] == PKT_UNRELIABLE {
        PacketKind::Unreliable
    } else {
        PacketKind::Unknown(packet[0])
    }
}

/// Returns a copy of `bytes[from..]`.
pub fn copy_from(bytes: &[u8], from: usize) -> (r: Vec<u8>)
    requires
        from <= bytes@.len(),
    ensures
        r@ == bytes@.skip(from as int),
{
    let mut r: Vec<u8> = Vec::new();
    let mut i = from;
    while i < bytes.len()
        invariant
            from <= i <= bytes@.len(),
            r@ == bytes@.subrange(from as int, i as int),
        decreases bytes@.len() - i,
    {
        r.push(bytes[i]);
        i = i + 1;
        assert(r@ =~= bytes@.subrange(from as int, i as int));
    }
    assert(r@ =~= bytes@.skip(from as int));
    r
}

/// Appends `bytes` to `out`.
pub fn push_all(out: &mut Vec<u8>, bytes: &[u8])
    ensures
        final(out)@ == old(out)@ + bytes@,
{
    let mut i: usize = 0;
    while i < bytes.len()
        invariant
            i <= bytes@.len(),
            out@ == old(out)@ + bytes@.subrange(0, i as int),
        decreases bytes@.len() - i,
    {
        out.push(bytes[i]);
        i = i + 1;
        assert(out@ =~= old(out)@ + bytes@.subrange(0, i as int));
    }
    assert(bytes@.subrange(0, i as int) =~= bytes@);
}

/// Returns the packet made of `pkt_type` followed by `payload`.
pub fn encode_packet(pkt_type: u8, payload: &[u8]) -> (packet: Vec<u8>)
    ensures
        packet@ == seq![pkt_type] + payload@,
{
    let mut packet: Vec<u8> = Vec::new();
    packet.push(pkt_type);
    push_all(&mut packet, payload);
    assert(packet@ =~= seq![pkt_type] + payload@);
    packet
}

/// The payload after the type byte, when the packet starts with `pkt_type`.
pub open spec fn spec_payload_of(packet: Seq<u8>, pkt_type: u8) -> Option<Seq<u8>> {
    if packet.len() > 0 && packet[0] == pkt_type {
        Some(packet.skip(1))
    } else {
        None
    }
}

/// Returns the payload of a packet of type `pkt_type`, or `None` for any other packet.
pub fn payload_of(packet: &[u8], pkt_type: u8) -> (r: Option<Vec<u8>>)
    ensures
        r matches Some(p) ==> spec_payload_of(packet@, pkt_type) == Some(p@),
        r is None ==> spec_payload_of(packet@, pkt_type) is None,
{
    if packet.len() > 0 && packet[0] == pkt_type {
        Some(copy_from(packet, 1))
    } else {
        None
    }
}

/// Returns the payload of a reliable packet, or `None` for any other packet.
pub fn parse_reliable(packet: &[u8]) -> (r: Option<Vec<u8>>)
    ensures
        r matches Some(p) ==> spec_payload_of(packet@, PKT_RELIABLE) == Some(p@),
        r is None ==> spec_payload_of(packet@, PKT_RELIABLE) is None,
{
    payload_of(packet, PKT_RELIABLE)
}

/// Returns the payload of a datagram packet, or `None` for any other packet.
pub fn parse_datagram(packet: &[u8]) -> (r: Option<Vec<u8>>)
    ensures
        r matches Some(p) ==> spec_payload_of(packet@, PKT_UNRELIABLE) == Some(p@),
        r is None ==> spec_payload_of(packet@, PKT_UNRELIABLE) is None,
{
    payload_of(packet, PKT_UNRELIABLE)
}

/// A packet framed with a type byte gives back its payload, and only for that type.
pub proof fn lemma_frame_then_parse(pkt_type: u8, other: u8, payload: Seq<u8>)
    requires
        other != pkt_type,
    ensures
        spec_payload_of(seq![pkt_type] + payload, pkt_type) == Some(payload),
        spec_payload_of(seq![pkt_type] + payload, other) is None,
{
    assert((seq![pkt_type] + payload).skip(1) =~= payload);
}

/// The position of the first newline in `buf`, if any.
pub open spec fn first_newline(buf: Seq<u8>) -> Option<int>
    decreases buf.len(),
{
    if buf.len() == 0 {
        None
    } else if buf[0] == NEWLINE {
        Some(0)
    } else {
        match first_newline(buf.skip(1)) {
            Some(p) => Some(p + 1),
            None => None,
        }
    }
}

/// The next non-empty line of `buf` and what follows it; empty lines are skipped. When no
/// complete non-empty line is buffered, the answer is `None` with the buffer past the skipped
/// empty lines.
pub open spec fn split_line(buf: Seq<u8>) -> (Option<Seq<u8>>, Seq<u8>)
    decreases buf.len(),
{
    match first_newline(buf) {
        None => (None, buf),
        Some(pos) => if pos == 0 {
            split_line(buf.skip(1))
        } else {
            (Some(buf.take(pos)), buf.skip(pos + 1))
        },
    }
}

proof fn lemma_first_newline_at(buf: Seq<u8>, i: int)
    requires
        0 <= i <= buf.len(),
        forall|j: int| 0 <= j < i ==> buf[j] != NEWLINE,
    ensures
        i < buf.len() && buf[i] == NEWLINE ==> first_newline(buf) == Some(i),
        i == buf.len() ==> first_newline(buf) is None,
    decreases i,
{
    if i > 0 {
        lemma_first_newline_at(buf.skip(1), i - 1);
    }
}

proof fn lemma_first_newline_bounds(buf: Seq<u8>)
    ensures
        first_newline(buf) matches Some(p) ==> 0 <= p < buf.len() && buf[p] == NEWLINE,
    decreases buf.len(),
{
    if buf.len() > 0 {
        lemma_first_newline_bounds(buf.skip(1));
    }
}

/// Takes the next non-empty line (without its newline) off the front of `buf`, skipping
/// empty lines; `None` when no complete non-empty line is buffered yet.
pub fn take_json_line(buf: &mut Vec<u8>) -> (r: Option<Vec<u8>>)
    ensures
        split_line(old(buf)@) == (
            match r {
                Some(line) => Some(line@),
                None => None,
            },
            final(buf)@,
        ),
    decreases old(buf)@.len(),
{
    let mut i: usize = 0;
    while i < buf.len()
        invariant
            i <= buf@.len(),
            buf@ == old(buf)@,
            forall|j: int| 0 <= j < i ==> buf@[j] != NEWLINE,
        ensures
            i <= buf@.len(),
            buf@ == old(buf)@,
            forall|j: int| 0 <= j < i ==> buf@[j] != NEWLINE,
            i < buf@.len() ==> buf@[i as int] == NEWLINE,
        decreases buf@.len() - i,
    {
        if buf[i] == NEWLINE {
            break;
        }
        i = i + 1;
    }
    proof {
        lemma_first_newline_at(buf@, i as int);
    }
    if i == buf.len() {
        return None;
    }
    let line = copy_from(&buf.as_slice()[0..i], 0);
    let rest = copy_from(buf.as_slice(), i + 1);
    proof {
        assert(line@ =~= old(buf)@.take(i as int));
    }
    *buf = rest;
    if i == 0 {
        return take_json_line(buf);
    }
    Some(line)
}

/// Returns `message` followed by a newline: one line of a reliable stream.
pub fn json_line(message: &[u8]) -> (line: Vec<u8>)
    ensures
        line@ == message@.push(NEWLINE),
{
    let mut line: Vec<u8> = Vec::new();
    push_all(&mut line, message);
    line.push(NEWLINE);
    line
}

/// A message without newlines written as a line is read back whole, leaving whatever was
/// buffered after it.
pub proof fn lemma_line_round_trip(message: Seq<u8>, after: Seq<u8>)
    requires
        message.len() > 0,
        forall|j: int| 0 <= j < message.len() ==> message[j] != NEWLINE,
    ensures
        split_line(message.push(NEWLINE) + after) == (Some(message), after),
{
    let buf = message.push(NEWLINE) + after;
    assert forall|j: int| 0 <= j < message.len() implies buf[j] != NEWLINE by {
        assert(buf[j] == message[j]);
    }
    lemma_first_newline_at(buf, message.len() as int);
    assert(buf.take(message.len() as int) =~= message);
    assert(buf.skip(message.len() + 1int) =~= after);
}

} // verus!
