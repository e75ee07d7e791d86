//! RFC 4733 telephone events: digit codes, the 4-byte payload, and the
//! eight-packet schedule of one event.
use vstd::prelude::*;

verus! {

/// Timestamp units per 20 ms packet at 8 kHz.
pub const PACKET_DURATION: u16 = 160;

/// Packets sent for one event.
pub const TOTAL_PACKETS: usize = 8;

/// Volume in dBm0 (0 is loudest, 63 silence).
pub const VOLUME: u8 = 10;

/// The event code of a DTMF digit: 0-9, `*` is 10, `#` is 11, A-D (either
/// case) are 12-15.
pub open spec fn event_code_of(d: char) -> Option<u8> {
    if '0' <= d <= '9' {
        Some((d as u32 - '0' as u32) as u8)
    } else if d == '*' {
        Some(10)
    } else if d == '#' {
        Some(11)
    } else if d == 'A' || d == 'a' {
        Some(12)
    } else if d == 'B' || d == 'b' {
        Some(13)
    } else if d == 'C' || d == 'c' {
        Some(14)
    } else if d == 'D' || d == 'd' {
        Some(15)
    } else {
        None
    }
}

pub fn event_code(d: char) -> (r: Option<u8>)
    ensures
        r == event_code_of(d),
{
    if '0' <= d && d <= '9' {
        Some(((d as u32) - ('0' as u32)) as u8)
    } else if d == '*' {
        Some(10)
    } else if d == '#' {
        Some(11)
    } else if d == 'A' || d == 'a' {
        Some(12)
    } else if d == 'B' || d == 'b' {
        Some(13)
    } else if d == 'C' || d == 'c' {
        Some(14)
    } else if d == 'D' || d == 'd' {
        Some(15)
    } else {
        None
    }
}

/// The telephone-event payload: event code; the End bit (low bit of `end`)
/// over a zero R bit and the six volume bits; the duration, big-endian.
pub open spec fn dtmf_payload(event: u8, end: u8, volume: u8, duration: u16) -> Seq<u8> {
    seq![
        event,
        ((end % 2) * 128 + volume % 64) as u8,
        (duration / 256) as u8,
        (duration % 256) as u8,
    ]
}

/// Build the 4-byte RFC 4733 telephone-event payload.
pub fn build_dtmf_payload(event: u8, end: u8, volume: u8, duration: u16) -> (r: Vec<u8>)
    ensures
        r@ == dtmf_payload(event, end, volume, duration),
{
    let mut payload: Vec<u8> = Vec::with_capacity(4);
    payload.push(event);
    let flags: u8 = (end << 7u8) | (volume & 0x3Fu8);
    assert(flags == (end % 2) * 128 + volume % 64) by (bit_vector)
        requires
            flags == (end << 7u8) | (volume & 0x3Fu8),
    ;
    payload.push(flags);
    payload.push((duration >> 8u16) as u8);
    payload.push((duration & 0xFFu16) as u8);
    assert((duration >> 8u16) == duration / 256) by (bit_vector);
    assert((duration & 0xFFu16) == duration % 256) by (bit_vector);
    assert(payload@ =~= dtmf_payload(event, end, volume, duration));
    payload
}

/// One telephone-event RTP packet: its payload, payload type, and the RTP
/// timestamp of the event start.
#[derive(Debug, Clone, PartialEq, Eq)]
pub struct DtmfPacket {
    pub payload: Vec<u8>,
    pub payload_type: u8,
    pub timestamp: u32,
}

/// Packet `k` (0-based) of an event: duration `160 * (k + 1)`, End bit on
/// the last three packets.
pub open spec fn packet_payload(event: u8, k: int) -> Seq<u8> {
    dtmf_payload(event, if k >= 5 { 1 } else { 0 }, VOLUME, (160 * (k + 1)) as u16)
}

/// The eight packets of one event, all stamped with the event start `base_ts`.
pub fn dtmf_packets(event: u8, payload_type: u8, base_ts: u32) -> (r: Vec<DtmfPacket>)
    ensures
        r@.len() == TOTAL_PACKETS,
        forall|k: int|
            0 <= k < r@.len() ==> (#[trigger] r@[k]).timestamp == base_ts && r@[k].payload_type
                == payload_type && r@[k].payload@ == packet_payload(event, k),
{
    let mut out: Vec<DtmfPacket> = Vec::new();
    let mut i: usize = 0;
    while i < TOTAL_PACKETS
        invariant
            i <= TOTAL_PACKETS,
            out@.len() == i,
            forall|k: int|
                0 <= k < i ==> (#[trigger] out@[k]).timestamp == base_ts && out@[k].payload_type
                    == payload_type && out@[k].payload@ == packet_payload(event, k),
        decreases TOTAL_PACKETS - i,
    {
        let duration: u16 = PACKET_DURATION * (i as u16 + 1);
        let end_bit: u8 = if i >= TOTAL_PACKETS - 3 {
            1
        } else {
            0
        };
        let payload = build_dtmf_payload(event, end_bit, VOLUME, duration);
        out.push(DtmfPacket { payload, payload_type, timestamp: base_ts });
        i = i + 1;
    }
    out
}

/// Why a DTMF request was refused.
#[derive(Debug, Clone, Copy, PartialEq, Eq, Structural)]
pub enum DtmfError {
    InvalidDigit(char),
}

/// The RTP timestamp counter of telephone events on one call (8 kHz clock).
pub struct DtmfClock {
    pub next: u32,
}

/// Timestamp units that one event occupies (8 packets of 160).
pub const EVENT_SPAN: u32 = 1280;

impl DtmfClock {
    pub fn new() -> (r: DtmfClock)
        ensures
            r.next == 0,
    {
        DtmfClock { next: 0 }
    }

    /// Reserve the start timestamp of one event; the next event starts
    /// 1280 units later (wrapping).
    pub fn reserve(&mut self) -> (r: u32)
        ensures
            r == old(self).next,
            final(self).next == (old(self).next + EVENT_SPAN) % 0x1_0000_0000,
    {
        let r = self.next;
        self.next = self.next.wrapping_add(EVENT_SPAN);
        r
    }

    /// The packets for one digit: an invalid digit is refused and reserves
    /// nothing; a valid one reserves a start timestamp shared by all eight.
    pub fn plan(&mut self, digit: char, payload_type: u8) -> (r: Result<Vec<DtmfPacket>, DtmfError>)
        ensures
            event_code_of(digit) is None ==> r == Err::<Vec<DtmfPacket>, DtmfError>(
                DtmfError::InvalidDigit(digit),
            ) && final(self).next == old(self).next,
            event_code_of(digit) matches Some(code) ==> (r matches Ok(ps) && ps@.len()
                == TOTAL_PACKETS && final(self).next == (old(self).next + EVENT_SPAN)
                % 0x1_0000_0000 && forall|k: int|
                0 <= k < ps@.len() ==> (#[trigger] ps@[k]).timestamp == old(self).next
                    && ps@[k].payload_type == payload_type && ps@[k].payload@ == packet_payload(
                    code,
                    k,
                )),
    {
        match event_code(digit) {
            None => Err(DtmfError::InvalidDigit(digit)),
            Some(code) => {
                let base = self.reserve();
                Ok(dtmf_packets(code, payload_type, base))
            },
        }
    }
}

} // verus!
