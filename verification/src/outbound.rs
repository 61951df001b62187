//! Outbound packets: the offline handshake replies and the online
//! connection acceptance, each with an exact byte-level encoding
//! contract.

use vstd::prelude::*;
use vstd::string::StrSliceExecFns;
use vstd::utf8::{encode_utf8, is_ascii_chars, is_ascii_chars_encode_utf8};

use crate::buffer::{
    be_bytes, i16_as_u16, push_address, push_be, push_i16, push_magic, push_slice, push_u16,
    push_u64, spec_encode_address, spec_magic,
};
use crate::endpoint::Endpoint;
use crate::protocol::PacketId;

verus! {

/// 10 raised to `k`.
pub open spec fn pow10(k: nat) -> nat
    decreases k,
{
    if k == 0 {
        1
    } else {
        10 * pow10((k - 1) as nat)
    }
}

/// The ASCII decimal digits of `v`, most significant first, no sign and
/// no leading zeros (a lone zero for zero).
pub open spec fn dec_digits(v: nat) -> Seq<u8>
    decreases v,
{
    if v < 10 {
        seq![(48 + v) as u8]
    } else {
        dec_digits(v / 10) + seq![(48 + v % 10) as u8]
    }
}

proof fn lemma_dec_digits_len(v: nat, k: nat)
    requires
        k >= 1,
        v < pow10(k),
    ensures
        dec_digits(v).len() <= k,
    decreases v,
{
    if v >= 10 {
        assert(pow10(k) == 10 * pow10((k - 1) as nat));
        assert(pow10((k - 1) as nat) >= 1) by {
            lemma_pow10_pos((k - 1) as nat);
        }
        assert(k >= 2) by {
            if k == 1 {
                assert(pow10(1) == 10);
            }
        }
        assert(v / 10 < pow10((k - 1) as nat)) by (nonlinear_arith)
            requires
                v < 10 * pow10((k - 1) as nat),
        {}
        lemma_dec_digits_len(v / 10, (k - 1) as nat);
    }
}

proof fn lemma_pow10_pos(k: nat)
    ensures
        pow10(k) >= 1,
    decreases k,
{
    if k > 0 {
        lemma_pow10_pos((k - 1) as nat);
    }
}

/// Appends the decimal digits of `v`.
pub fn push_decimal(buf: &mut Vec<u8>, v: u64)
    ensures
        final(buf)@ == old(buf)@ + dec_digits(v as nat),
    decreases v,
{
    if v < 10 {
        buf.push(48 + (v as u8));
        assert(buf@ =~= old(buf)@ + dec_digits(v as nat));
    } else {
        push_decimal(buf, v / 10);
        buf.push(48 + ((v % 10) as u8));
        assert(buf@ =~= old(buf)@ + dec_digits(v as nat));
    }
}

/// `k` copies of `s`, one after another.
pub open spec fn repeated(s: Seq<u8>, k: nat) -> Seq<u8>
    decreases k,
{
    if k == 0 {
        Seq::empty()
    } else {
        repeated(s, (k - 1) as nat) + s
    }
}

/// The status line the pong reply advertises: the fixed fields around
/// the server id, semicolon-delimited.
pub open spec fn spec_status_bytes(server_id: u64) -> Seq<u8> {
    encode_utf8("MCPE;Limonite;407;1.16.10;0;20;"@) + dec_digits(server_id as nat) + encode_utf8(
        ";world;Survival;1;19132;19133;"@,
    )
}

/// The reply to an unconnected ping: server uptime, server id, the
/// magic cookie, and the length-prefixed status line.
pub struct UnconnectedPong {
    pub packet_id: u8,
    pub timestamp: u128,
    pub server_id: u64,
}

/// The wire form of an [`UnconnectedPong`]: the uptime is sent as its
/// low 64 bits.
pub open spec fn spec_unconnected_pong(p: UnconnectedPong) -> Seq<u8> {
    seq![p.packet_id] + be_bytes(p.timestamp as nat, 8) + be_bytes(p.server_id as nat, 8)
        + spec_magic() + be_bytes(spec_status_bytes(p.server_id).len(), 2) + spec_status_bytes(
        p.server_id,
    )
}

impl UnconnectedPong {
    pub fn create(timestamp: u128, server_id: u64) -> (r: UnconnectedPong)
        ensures
            r == (UnconnectedPong { packet_id: 0x1cu8, timestamp, server_id }),
    {
        UnconnectedPong { packet_id: PacketId::UnconnectedPong.to_u8(), timestamp, server_id }
    }

    pub fn encode(&self, binary: Vec<u8>) -> (r: Vec<u8>)
        ensures
            r@ == binary@ + spec_unconnected_pong(*self),
    {
        let mut b = binary;
        let ghost b0 = b@;
        b.push(self.packet_id);
        push_be(&mut b, self.timestamp, 8);
        push_u64(&mut b, self.server_id);
        push_magic(&mut b);
        let pre = "MCPE;Limonite;407;1.16.10;0;20;";
        let suf = ";world;Survival;1;19132;19133;";
        proof {
            reveal_strlit("MCPE;Limonite;407;1.16.10;0;20;");
            reveal_strlit(";world;Survival;1;19132;19133;");
            assert(is_ascii_chars(pre@));
            assert(is_ascii_chars(suf@));
            is_ascii_chars_encode_utf8(pre@);
            is_ascii_chars_encode_utf8(suf@);
            assert(pow10(20) == 100000000000000000000) by {
                reveal_with_fuel(pow10, 21);
            }
            lemma_dec_digits_len(self.server_id as nat, 20);
        }
        let pb = pre.as_bytes_vec();
        let sb = suf.as_bytes_vec();
        let mut status: Vec<u8> = Vec::new();
        push_slice(&mut status, pb.as_slice());
        push_decimal(&mut status, self.server_id);
        push_slice(&mut status, sb.as_slice());
        assert(status@ =~= spec_status_bytes(self.server_id));
        let n = status.len();
        push_u16(&mut b, n as u16);
        push_slice(&mut b, status.as_slice());
        assert(b@ =~= b0 + spec_unconnected_pong(*self));
        b
    }
}

/// The reply to the first offline connection request: magic, server id,
/// a server-security byte and the negotiated MTU.
pub struct ConnectionReply1 {
    pub packet_id: u8,
    pub server_id: u64,
    pub server_security: u8,
    pub mtu_size: i16,
}

/// The wire form of a [`ConnectionReply1`].
pub open spec fn spec_connection_reply1(p: ConnectionReply1) -> Seq<u8> {
    seq![p.packet_id] + spec_magic() + be_bytes(p.server_id as nat, 8) + seq![p.server_security]
        + be_bytes(i16_as_u16(p.mtu_size) as nat, 2)
}

impl ConnectionReply1 {
    pub fn create(server_id: u64, server_security: u8, mtu_size: i16) -> (r: ConnectionReply1)
        ensures
            r == (ConnectionReply1 { packet_id: 0x06u8, server_id, server_security, mtu_size }),
    {
        ConnectionReply1 {
            packet_id: PacketId::ConnectionReply1.to_u8(),
            server_id,
            server_security,
            mtu_size,
        }
    }

    pub fn encode(&self, binary: Vec<u8>) -> (r: Vec<u8>)
        ensures
            r@ == binary@ + spec_connection_reply1(*self),
    {
        let mut b = binary;
        let ghost b0 = b@;
        b.push(self.packet_id);
        push_magic(&mut b);
        push_u64(&mut b, self.server_id);
        b.push(self.server_security);
        push_i16(&mut b, self.mtu_size);
        assert(b@ =~= b0 + spec_connection_reply1(*self));
        b
    }
}

/// The reply to the second offline connection request: magic, server
/// id, the session's MTU and the server-security byte.
pub struct ConnectionReply2 {
    pub packet_id: u8,
    pub server_id: u64,
    pub mtu_size: i16,
    pub server_security: u8,
}

/// The wire form of a [`ConnectionReply2`].
pub open spec fn spec_connection_reply2(p: ConnectionReply2) -> Seq<u8> {
    seq![p.packet_id] + spec_magic() + be_bytes(p.server_id as nat, 8) + be_bytes(
        i16_as_u16(p.mtu_size) as nat,
        2,
    ) + seq![p.server_security]
}

impl ConnectionReply2 {
    pub fn create(server_id: u64, mtu_size: i16, server_security: u8) -> (r: ConnectionReply2)
        ensures
            r == (ConnectionReply2 { packet_id: 0x08u8, server_id, mtu_size, server_security }),
    {
        ConnectionReply2 {
            packet_id: PacketId::ConnectionReply2.to_u8(),
            server_id,
            mtu_size,
            server_security,
        }
    }

    pub fn encode(&self, binary: Vec<u8>) -> (r: Vec<u8>)
        ensures
            r@ == binary@ + spec_connection_reply2(*self),
    {
        let mut b = binary;
        let ghost b0 = b@;
        b.push(self.packet_id);
        push_magic(&mut b);
        push_u64(&mut b, self.server_id);
        push_i16(&mut b, self.mtu_size);
        b.push(self.server_security);
        assert(b@ =~= b0 + spec_connection_reply2(*self));
        b
    }
}

/// The answer to a connection request whose version byte does not match
/// the server's: the mismatched version, magic and the server id.
pub struct IncompatibleProtocolVersion {
    pub packet_id: u8,
    pub raknet_version: u8,
    pub server_id: u64,
}

/// The wire form of an [`IncompatibleProtocolVersion`].
pub open spec fn spec_incompatible_protocol_version(p: IncompatibleProtocolVersion) -> Seq<u8> {
    seq![p.packet_id, p.raknet_version] + spec_magic() + be_bytes(p.server_id as nat, 8)
}

impl IncompatibleProtocolVersion {
    pub fn create(raknet_version: u8, server_id: u64) -> (r: IncompatibleProtocolVersion)
        ensures
            r == (IncompatibleProtocolVersion { packet_id: 0x19u8, raknet_version, server_id }),
    {
        IncompatibleProtocolVersion {
            packet_id: PacketId::IncompatibleProtocolVersion.to_u8(),
            raknet_version,
            server_id,
        }
    }

    pub fn encode(&self, binary: Vec<u8>) -> (r: Vec<u8>)
        ensures
            r@ == binary@ + spec_incompatible_protocol_version(*self),
    {
        let mut b = binary;
        let ghost b0 = b@;
        b.push(self.packet_id);
        b.push(self.raknet_version);
        push_magic(&mut b);
        push_u64(&mut b, self.server_id);
        assert(b@ =~= b0 + spec_incompatible_protocol_version(*self));
        b
    }
}

/// The inner payload accepting an online connection request: the
/// requester's own address, the session's relationship address, the
/// reserved system-address slots, the echoed client time and the
/// server's uptime.
pub struct ConnectionRequestAccepted {
    pub packet_id: u8,
    pub address: Endpoint,
    pub relationship: Endpoint,
    pub ping: u64,
    pub pong: u64,
}

/// The wire form of a [`ConnectionRequestAccepted`]: after the
/// requester's address and a fixed zero 16-bit field come the
/// relationship address and 19 unspecified placeholder addresses,
/// filling the protocol's reserved system-address slots.
pub open spec fn spec_connection_request_accepted(p: ConnectionRequestAccepted) -> Seq<u8> {
    seq![p.packet_id] + spec_encode_address(p.address) + be_bytes(0, 2) + spec_encode_address(
        p.relationship,
    ) + repeated(
        spec_encode_address(Endpoint { ip: crate::endpoint::IpAddress::V4(0, 0, 0, 0), port: 0 }),
        19,
    ) + be_bytes(p.ping as nat, 8) + be_bytes(p.pong as nat, 8)
}

impl ConnectionRequestAccepted {
    pub fn create(address: Endpoint, relationship: Endpoint, ping: u64, pong: u64) -> (r:
        ConnectionRequestAccepted)
        ensures
            r == (ConnectionRequestAccepted {
                packet_id: 0x10u8,
                address,
                relationship,
                ping,
                pong,
            }),
    {
        ConnectionRequestAccepted {
            packet_id: PacketId::ConnectionRequestAccepted.to_u8(),
            address,
            relationship,
            ping,
            pong,
        }
    }

    pub fn encode(&self, binary: Vec<u8>) -> (r: Vec<u8>)
        requires
            self.address.ip is V4,
            self.relationship.ip is V4,
        ensures
            r@ == binary@ + spec_connection_request_accepted(*self),
    {
        let mut b = binary;
        let ghost b0 = b@;
        b.push(self.packet_id);
        let _ = push_address(&mut b, self.address);
        push_u16(&mut b, 0);
        let _ = push_address(&mut b, self.relationship);
        let any = Endpoint::any_v4();
        let ghost anyb = spec_encode_address(any);
        let ghost mid = b@;
        assert(b@ =~= mid + repeated(anyb, 0));
        let mut i: usize = 0;
        while i < 19
            invariant
                i <= 19,
                any == (Endpoint { ip: crate::endpoint::IpAddress::V4(0, 0, 0, 0), port: 0u16 }),
                anyb == spec_encode_address(any),
                b@ == mid + repeated(anyb, i as nat),
            decreases 19 - i,
        {
            proof {
                lemma_repeated_snoc(anyb, i as nat);
            }
            let pushed = push_address(&mut b, any);
            assert(pushed is Ok);
            i += 1;
            assert(b@ =~= mid + repeated(anyb, i as nat));
        }
        push_u64(&mut b, self.ping);
        push_u64(&mut b, self.pong);
        assert(b@ =~= b0 + spec_connection_request_accepted(*self));
        b
    }
}

proof fn lemma_repeated_snoc(s: Seq<u8>, k: nat)
    ensures
        repeated(s, k + 1) == repeated(s, k) + s,
{
}

proof fn lemma_repeated_len7(s: Seq<u8>, k: nat)
    requires
        s.len() == 7,
    ensures
        repeated(s, k).len() == 7 * k,
    decreases k,
{
    if k > 0 {
        lemma_repeated_len7(s, (k - 1) as nat);
    }
}

/// The acceptance payload has a fixed size: the id byte, 21 seven-byte
/// addresses, the zero 16-bit field and two 64-bit timestamps.
pub proof fn lemma_connection_request_accepted_len(p: ConnectionRequestAccepted)
    requires
        p.address.ip is V4,
        p.relationship.ip is V4,
    ensures
        spec_connection_request_accepted(p).len() == 166,
{
    crate::buffer::lemma_be_bytes_len(p.address.port as nat, 2);
    crate::buffer::lemma_be_bytes_len(p.relationship.port as nat, 2);
    crate::buffer::lemma_be_bytes_len(0, 2);
    crate::buffer::lemma_be_bytes_len(p.ping as nat, 8);
    crate::buffer::lemma_be_bytes_len(p.pong as nat, 8);
    let any = Endpoint { ip: crate::endpoint::IpAddress::V4(0, 0, 0, 0), port: 0u16 };
    crate::buffer::lemma_be_bytes_len(any.port as nat, 2);
    assert(spec_encode_address(any).len() == 7);
    lemma_repeated_len7(spec_encode_address(any), 19);
}

} // verus!
