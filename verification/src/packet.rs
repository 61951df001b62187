//! Datagram header flags, the reliability class, and the packet
//! classifier that tells offline control packets from encapsulated
//! datagrams.

use vstd::prelude::*;

use crate::error::DecodeError;
use crate::protocol::{spec_packet_id_from, PacketId};

verus! {

/// The delivery-guarantee tag carried in an envelope's flags byte as a
/// 3-bit field. Only `Unreliable`, `Reliable` and `ReliableOrdered` are
/// exercised by the handshake; the rest are defined for wire
/// compatibility.
#[derive(Clone, Copy, Debug, PartialEq, Eq, Structural)]
pub enum Reliability {
    Unreliable,
    UnreliableSequenced,
    Reliable,
    ReliableOrdered,
    ReliableSequenced,
    UnreliableAck,
    ReliableAck,
    ReliableOrderedAck,
}

/// The 3-bit encoding of a reliability class.
pub open spec fn spec_reliability_bits(r: Reliability) -> u8 {
    match r {
        Reliability::Unreliable => 0u8,
        Reliability::UnreliableSequenced => 1u8,
        Reliability::Reliable => 2u8,
        Reliability::ReliableOrdered => 3u8,
        Reliability::ReliableSequenced => 4u8,
        Reliability::UnreliableAck => 5u8,
        Reliability::ReliableAck => 6u8,
        Reliability::ReliableOrderedAck => 7u8,
    }
}

/// The reliability class a 3-bit value names. All eight values are
/// defined; inputs above 7 (which a 3-bit field cannot produce) fall
/// back to `Unreliable` and are rejected by [`Reliability::try_from`].
pub open spec fn spec_reliability_from_bits(b: u8) -> Reliability {
    match b {
        0u8 => Reliability::Unreliable,
        1u8 => Reliability::UnreliableSequenced,
        2u8 => Reliability::Reliable,
        3u8 => Reliability::ReliableOrdered,
        4u8 => Reliability::ReliableSequenced,
        5u8 => Reliability::UnreliableAck,
        6u8 => Reliability::ReliableAck,
        7u8 => Reliability::ReliableOrderedAck,
        _ => Reliability::Unreliable,
    }
}

impl Reliability {
    /// The reliability class of a 3-bit value; values outside the
    /// enumeration are rejected.
    pub fn try_from(value: u8) -> (r: Result<Reliability, ()>)
        ensures
            r is Ok <==> value <= 7,
            r is Ok ==> r->Ok_0 == spec_reliability_from_bits(value),
    {
        if value == 0 {
            Ok(Reliability::Unreliable)
        } else if value == 1 {
            Ok(Reliability::UnreliableSequenced)
        } else if value == 2 {
            Ok(Reliability::Reliable)
        } else if value == 3 {
            Ok(Reliability::ReliableOrdered)
        } else if value == 4 {
            Ok(Reliability::ReliableSequenced)
        } else if value == 5 {
            Ok(Reliability::UnreliableAck)
        } else if value == 6 {
            Ok(Reliability::ReliableAck)
        } else if value == 7 {
            Ok(Reliability::ReliableOrderedAck)
        } else {
            Err(())
        }
    }
}

/// The envelope's first byte, unpacked: one flag per bit, high to low.
/// Bits 0 and 1 are unused on the wire.
#[derive(Clone, Copy, Debug, PartialEq, Eq, Structural)]
pub struct PacketType {
    pub is_connected_to_peer: bool,
    pub is_ack: bool,
    pub is_nak: bool,
    pub is_pair: bool,
    pub is_continuous_send: bool,
    pub b_and_as: bool,
}

/// The per-message flags byte inside a data envelope: the reliability
/// class in the high 3 bits and the has-split bit below them.
#[derive(Clone, Copy, Debug, PartialEq, Eq, Structural)]
pub struct PacketFlags {
    pub reliability: Reliability,
    pub has_split_packet: bool,
}

/// What the classifier found: the logical identifier, if the datagram
/// carries one, and whether it is an encapsulated envelope.
#[derive(Clone, Copy, Debug, PartialEq, Eq)]
pub struct PacketInfo {
    pub packet_id: Option<PacketId>,
    pub encapsulated: bool,
}

/// One ACK/NAK range: a single 24-bit sequence number, or a min/max
/// pair, flagged by a "max equals min" byte.
#[derive(Clone, Copy, Debug, PartialEq, Eq)]
pub struct SequenceNumberRange {
    pub max_equals_to_min: bool,
    /// decoded as a 24-bit value
    pub sequence_number_min: u32,
    /// decoded as a 24-bit value; present exactly when `max_equals_to_min`
    /// is false
    pub sequence_number_max: Option<u32>,
}

/// The byte a [`PacketType`] is packed into.
pub open spec fn spec_packet_type_byte(t: PacketType) -> u8 {
    ((if t.is_connected_to_peer {
        128int
    } else {
        0int
    }) + (if t.is_ack {
        64int
    } else {
        0int
    }) + (if t.is_nak {
        32int
    } else {
        0int
    }) + (if t.is_pair {
        16int
    } else {
        0int
    }) + (if t.is_continuous_send {
        8int
    } else {
        0int
    }) + (if t.b_and_as {
        4int
    } else {
        0int
    })) as u8
}

/// The flags a byte unpacks to; bits 0 and 1 are ignored.
pub open spec fn spec_packet_type_from_byte(b: u8) -> PacketType {
    PacketType {
        is_connected_to_peer: b / 128 % 2 == 1,
        is_ack: b / 64 % 2 == 1,
        is_nak: b / 32 % 2 == 1,
        is_pair: b / 16 % 2 == 1,
        is_continuous_send: b / 8 % 2 == 1,
        b_and_as: b / 4 % 2 == 1,
    }
}

/// The byte a [`PacketFlags`] is packed into: reliability in the high
/// 3 bits, the split flag in bit 4.
pub open spec fn spec_flags_byte(f: PacketFlags) -> u8 {
    (spec_reliability_bits(f.reliability) * 32 + (if f.has_split_packet {
        16int
    } else {
        0int
    })) as u8
}

/// The flags a byte unpacks to; bits 0 through 3 are ignored.
pub open spec fn spec_flags_from_byte(b: u8) -> PacketFlags {
    PacketFlags {
        reliability: spec_reliability_from_bits(b / 32),
        has_split_packet: b / 16 % 2 == 1,
    }
}

impl PacketType {
    /// Unpacks the envelope's first byte.
    pub fn from_u8(byte: u8) -> (r: Self)
        ensures
            r == spec_packet_type_from_byte(byte),
    {
        PacketType {
            is_connected_to_peer: byte / 128 % 2 == 1,
            is_ack: byte / 64 % 2 == 1,
            is_nak: byte / 32 % 2 == 1,
            is_pair: byte / 16 % 2 == 1,
            is_continuous_send: byte / 8 % 2 == 1,
            b_and_as: byte / 4 % 2 == 1,
        }
    }

    /// Packs the flags back into their byte; bits 0 and 1 stay clear.
    pub fn to_u8(&self) -> (r: u8)
        ensures
            r == spec_packet_type_byte(*self),
    {
        let num: u8 = (if self.is_connected_to_peer {
            128
        } else {
            0
        }) + (if self.is_ack {
            64
        } else {
            0
        }) + (if self.is_nak {
            32
        } else {
            0
        }) + (if self.is_pair {
            16
        } else {
            0
        }) + (if self.is_continuous_send {
            8
        } else {
            0
        }) + (if self.b_and_as {
            4
        } else {
            0
        });
        num
    }
}

/// Unpacking the packed byte of any flag set yields the same flags.
pub proof fn lemma_packet_type_round_trip(t: PacketType)
    ensures
        spec_packet_type_from_byte(spec_packet_type_byte(t)) == t,
{
    let a: u8 = if t.is_connected_to_peer {
        1
    } else {
        0
    };
    let b: u8 = if t.is_ack {
        1
    } else {
        0
    };
    let c: u8 = if t.is_nak {
        1
    } else {
        0
    };
    let d: u8 = if t.is_pair {
        1
    } else {
        0
    };
    let e: u8 = if t.is_continuous_send {
        1
    } else {
        0
    };
    let f: u8 = if t.b_and_as {
        1
    } else {
        0
    };
    let n: u8 = spec_packet_type_byte(t);
    assert(n == a * 128 + b * 64 + c * 32 + d * 16 + e * 8 + f * 4);
    assert(a <= 1 && b <= 1 && c <= 1 && d <= 1 && e <= 1 && f <= 1 ==> (a * 128 + b * 64 + c * 32
        + d * 16 + e * 8 + f * 4) / 128 % 2 == a && (a * 128 + b * 64 + c * 32 + d * 16 + e * 8 + f
        * 4) / 64 % 2 == b && (a * 128 + b * 64 + c * 32 + d * 16 + e * 8 + f * 4) / 32 % 2 == c
        && (a * 128 + b * 64 + c * 32 + d * 16 + e * 8 + f * 4) / 16 % 2 == d && (a * 128 + b * 64
        + c * 32 + d * 16 + e * 8 + f * 4) / 8 % 2 == e && (a * 128 + b * 64 + c * 32 + d * 16 + e
        * 8 + f * 4) / 4 % 2 == f) by (bit_vector);
}

impl PacketFlags {
    /// Unpacks a per-message flags byte. The reliability field is a
    /// 3-bit value, so every byte carries a defined class and this
    /// cannot fail; the `Result` mirrors the classifier's use of it.
    pub fn from_u8(byte: u8) -> (r: Result<Self, DecodeError>)
        ensures
            r is Ok,
            r is Ok ==> r->Ok_0 == spec_flags_from_byte(byte),
    {
        let bits = byte / 32;
        let reliability = match Reliability::try_from(bits) {
            Ok(rel) => rel,
            Err(()) => {
                return Err(DecodeError::BadBitLength);
            },
        };
        Ok(PacketFlags { reliability, has_split_packet: byte / 16 % 2 == 1 })
    }

    /// Packs the flags back into their byte; bits 0 through 3 stay
    /// clear.
    pub fn to_u8(&self) -> (r: u8)
        ensures
            r == spec_flags_byte(*self),
    {
        let bits: u8 = match self.reliability {
            Reliability::Unreliable => 0,
            Reliability::UnreliableSequenced => 1,
            Reliability::Reliable => 2,
            Reliability::ReliableOrdered => 3,
            Reliability::ReliableSequenced => 4,
            Reliability::UnreliableAck => 5,
            Reliability::ReliableAck => 6,
            Reliability::ReliableOrderedAck => 7,
        };
        bits * 32 + (if self.has_split_packet {
            16
        } else {
            0
        })
    }
}

/// Unpacking the packed byte of any per-message flags yields the same
/// flags.
pub proof fn lemma_packet_flags_round_trip(f: PacketFlags)
    ensures
        spec_flags_from_byte(spec_flags_byte(f)) == f,
{
    let r: u8 = spec_reliability_bits(f.reliability);
    let s: u8 = if f.has_split_packet {
        1
    } else {
        0
    };
    assert(r <= 7 && s <= 1 ==> (r * 32 + s * 16) / 32 == r && (r * 32 + s * 16) / 16 % 2 == s)
        by (bit_vector);
}

/// The classifier's verdict on a raw datagram, if it is long enough to
/// classify: offline control packets are named by their first byte; any
/// other first byte is an encapsulated envelope, whose inner identifier
/// sits right after the 7- or 10-byte data header and is absent for
/// ACK/NAK envelopes.
pub open spec fn spec_classify(b: Seq<u8>) -> Option<PacketInfo> {
    if b.len() < 1 {
        None
    } else if spec_packet_id_from(b[0]) != PacketId::Unknown {
        Some(PacketInfo { packet_id: Some(spec_packet_id_from(b[0])), encapsulated: false })
    } else {
        let t = spec_packet_type_from_byte(b[0]);
        if t.is_ack || t.is_nak {
            Some(PacketInfo { packet_id: None, encapsulated: true })
        } else if b.len() < 5 {
            None
        } else {
            let f = spec_flags_from_byte(b[4]);
            let off: int = if f.reliability != Reliability::Unreliable {
                10
            } else {
                7
            };
            if b.len() <= off {
                None
            } else {
                Some(
                    PacketInfo {
                        packet_id: Some(spec_packet_id_from(b[off])),
                        encapsulated: true,
                    },
                )
            }
        }
    }
}

impl PacketInfo {
    /// Classifies a raw datagram. Truncated datagrams that cannot be
    /// classified yield an error for the caller to discard, never a
    /// panic.
    pub fn from_bytes(bytes: &[u8]) -> (r: Result<Self, DecodeError>)
        ensures
            r is Ok <==> spec_classify(bytes@) is Some,
            r is Ok ==> Some(r->Ok_0) == spec_classify(bytes@),
            r is Err ==> r == Err::<PacketInfo, DecodeError>(DecodeError::OutOfBounds),
    {
        if bytes.len() < 1 {
            return Err(DecodeError::OutOfBounds);
        }
        let direct = PacketId::from(bytes[0]);
        if !matches!(direct, PacketId::Unknown) {
            return Ok(PacketInfo { packet_id: Some(direct), encapsulated: false });
        }
        let packet_header = PacketType::from_u8(bytes[0]);
        if packet_header.is_ack || packet_header.is_nak {
            return Ok(PacketInfo { packet_id: None, encapsulated: true });
        }
        if bytes.len() < 5 {
            return Err(DecodeError::OutOfBounds);
        }
        let packet_flags = match PacketFlags::from_u8(bytes[4]) {
            Ok(f) => f,
            Err(e) => {
                return Err(e);
            },
        };
        let off: usize = if !matches!(packet_flags.reliability, Reliability::Unreliable) {
            10
        } else {
            7
        };
        if bytes.len() <= off {
            return Err(DecodeError::OutOfBounds);
        }
        Ok(PacketInfo { packet_id: Some(PacketId::from(bytes[off])), encapsulated: true })
    }

    /// The logical identifier, absent for ACK/NAK envelopes.
    pub fn packet_id(&self) -> (r: Option<PacketId>)
        ensures
            r == self.packet_id,
    {
        self.packet_id
    }

    /// Whether the datagram is an encapsulated envelope.
    pub fn is_encapsulated(&self) -> (r: bool)
        ensures
            r == self.encapsulated,
    {
        self.encapsulated
    }
}

} // verus!
