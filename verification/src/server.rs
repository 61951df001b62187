//! The handshake state machine.
//!
//! A server owns the session table and a process-wide random server id.
//! [`Server::handle_packet`] consumes one classified datagram from one
//! endpoint and produces the reply bytes, if any; its whole behaviour is
//! pinned down by the transition function [`spec_handle`]. Unknown or
//! malformed packets are dropped, never fatal.

use vstd::prelude::*;

use crate::buffer::{
    be_val, lemma_be_val_bound, lemma_pow256_16, lemma_pow256_monotone, pow256, read_address,
    read_u64, spec_decode_address,
};
use crate::client::Client;
use crate::endpoint::Endpoint;
use crate::envelope::{
    spec_decode_envelope, spec_encode_envelope, wf_envelope, Envelope, EnvelopeBody,
    EnvelopeBodyView, EnvelopeView,
};
use crate::outbound::{
    spec_connection_reply1, spec_connection_reply2, spec_connection_request_accepted,
    spec_incompatible_protocol_version, spec_unconnected_pong, ConnectionReply1, ConnectionReply2,
    ConnectionRequestAccepted, IncompatibleProtocolVersion, UnconnectedPong,
};
use crate::packet::{spec_classify, PacketFlags, PacketInfo, PacketType, Reliability};
use crate::protocol::{PacketId, RAKNET_VERSION};
use crate::session::SessionTable;
use crate::settings::RakNetSettings;

verus! {

/// Relies on rand::random, seeded from the operating system: draws a
/// value of the requested type; nothing is promised of which one.
pub assume_specification<T>[ rand::random::<T> ]() -> (r: T)
    where
        rand::distr::StandardUniform: rand::distr::Distribution<T>,
;

/// The outcome of one handshake step: the reply bytes (empty when the
/// datagram is dropped) and the session table afterwards.
#[verifier::ext_equal]
pub struct Step {
    pub reply: Seq<u8>,
    pub clients: Map<Endpoint, Client>,
}

/// The header flags of the envelope that wraps the connection
/// acceptance: connected-to-peer and nothing else.
pub open spec fn accept_header() -> PacketType {
    PacketType {
        is_connected_to_peer: true,
        is_ack: false,
        is_nak: false,
        is_pair: false,
        is_continuous_send: false,
        b_and_as: false,
    }
}

/// The envelope that wraps the connection acceptance: unreliable, no
/// split, sequence number zero.
pub open spec fn accept_envelope(payload: Seq<u8>) -> EnvelopeView {
    EnvelopeView {
        header: accept_header(),
        body: EnvelopeBodyView::Data {
            sequence_number: 0u32,
            flags: PacketFlags { reliability: Reliability::Unreliable, has_split_packet: false },
            reliable_index: None,
            payload,
        },
    }
}

/// One step of the handshake state machine: what the server replies to
/// `bytes` from `src`, and how the session table changes.
///
/// - An unconnected ping is answered with the pong status line; no
///   session is touched.
/// - A first connection request with the right version creates the
///   session and echoes the negotiated MTU (the datagram length past the
///   19-byte fixed header); a wrong version is answered with
///   `IncompatibleProtocolVersion` and creates no session. A datagram
///   too short to carry those fields, or so long that the MTU would not
///   fit a signed 16-bit value, is dropped.
/// - A second connection request needs an existing session: it stores
///   the peer-claimed relationship address and echoes the stored MTU.
/// - An online connection request arrives wrapped in a data envelope:
///   it stores the client GUID and replies with the wrapped acceptance.
/// - Everything else, and every malformed datagram, is dropped.
pub open spec fn spec_handle(
    server_id: u64,
    clients: Map<Endpoint, Client>,
    bytes: Seq<u8>,
    src: Endpoint,
    uptime_ms: u64,
) -> Step {
    let unchanged = Step { reply: Seq::empty(), clients };
    match spec_classify(bytes) {
        Option::None => unchanged,
        Option::Some(info) => {
            if info.packet_id is None {
                unchanged
            } else if !info.encapsulated && info.packet_id->0 == PacketId::UnconnectedPing {
                Step {
                    reply: spec_unconnected_pong(
                        UnconnectedPong {
                            packet_id: 0x1cu8,
                            timestamp: uptime_ms as u128,
                            server_id,
                        },
                    ),
                    clients,
                }
            } else if !info.encapsulated && info.packet_id->0 == PacketId::ConnectionRequest1 {
                if bytes.len() < 19 || bytes.len() > 19 + 32767 {
                    unchanged
                } else {
                    let version = bytes[17];
                    let mtu = (bytes.len() - 19) as i16;
                    if version != RAKNET_VERSION {
                        Step {
                            reply: spec_incompatible_protocol_version(
                                IncompatibleProtocolVersion {
                                    packet_id: 0x19u8,
                                    raknet_version: version,
                                    server_id,
                                },
                            ),
                            clients,
                        }
                    } else {
                        Step {
                            reply: spec_connection_reply1(
                                ConnectionReply1 {
                                    packet_id: 0x06u8,
                                    server_id,
                                    server_security: 0u8,
                                    mtu_size: mtu,
                                },
                            ),
                            clients: clients.insert(
                                src,
                                Client {
                                    addr: src,
                                    mtu_size: mtu,
                                    last_update: uptime_ms,
                                    relationship: None,
                                    guid: None,
                                },
                            ),
                        }
                    }
                }
            } else if !info.encapsulated && info.packet_id->0 == PacketId::ConnectionRequest2 {
                match spec_decode_address(bytes, 17) {
                    Option::None => unchanged,
                    Option::Some(rel) => {
                        if !clients.contains_key(src) {
                            unchanged
                        } else {
                            let c = clients[src];
                            Step {
                                reply: spec_connection_reply2(
                                    ConnectionReply2 {
                                        packet_id: 0x08u8,
                                        server_id,
                                        mtu_size: c.mtu_size,
                                        server_security: 0u8,
                                    },
                                ),
                                clients: clients.insert(
                                    src,
                                    Client {
                                        relationship: Some(rel),
                                        last_update: uptime_ms,
                                        ..c
                                    },
                                ),
                            }
                        }
                    },
                }
            } else if info.encapsulated && info.packet_id->0 == PacketId::ConnectionRequest {
                match spec_decode_envelope(bytes) {
                    Result::Err(_) => unchanged,
                    Result::Ok(ev) => match ev.body {
                        EnvelopeBodyView::AckNak { .. } => unchanged,
                        EnvelopeBodyView::Data { payload, .. } => {
                            if payload.len() < 17 {
                                unchanged
                            } else if !clients.contains_key(src) {
                                unchanged
                            } else if !(src.ip is V4) {
                                unchanged
                            } else {
                                let c = clients[src];
                                if c.relationship is None || !(c.relationship->0.ip is V4) {
                                    unchanged
                                } else {
                                    let guid = be_val(payload.subrange(1, 9)) as u64;
                                    let time = be_val(payload.subrange(9, 17)) as u64;
                                    let inner = spec_connection_request_accepted(
                                        ConnectionRequestAccepted {
                                            packet_id: 0x10u8,
                                            address: src,
                                            relationship: c.relationship->0,
                                            ping: time,
                                            pong: uptime_ms,
                                        },
                                    );
                                    Step {
                                        reply: spec_encode_envelope(accept_envelope(inner)),
                                        clients: clients.insert(
                                            src,
                                            Client {
                                                guid: Some(guid),
                                                last_update: uptime_ms,
                                                ..c
                                            },
                                        ),
                                    }
                                }
                            }
                        },
                    },
                }
            } else {
                unchanged
            }
        },
    }
}

/// Unconnected ping idempotence: a ping never mutates the session
/// table, and the pong depends only on the server id and uptime — any
/// endpoint, and any table, gets the same status line back.
pub proof fn lemma_unconnected_ping_idempotent(
    server_id: u64,
    clients: Map<Endpoint, Client>,
    clients2: Map<Endpoint, Client>,
    bytes: Seq<u8>,
    src: Endpoint,
    src2: Endpoint,
    uptime_ms: u64,
)
    requires
        bytes.len() >= 1,
        bytes[0] == 0x01,
    ensures
        spec_handle(server_id, clients, bytes, src, uptime_ms).clients == clients,
        spec_handle(server_id, clients, bytes, src, uptime_ms).reply == spec_unconnected_pong(
            UnconnectedPong { packet_id: 0x1cu8, timestamp: uptime_ms as u128, server_id },
        ),
        spec_handle(server_id, clients, bytes, src, uptime_ms).reply == spec_handle(
            server_id,
            clients2,
            bytes,
            src2,
            uptime_ms,
        ).reply,
{
}

/// The handshake happy path: a first connection request with the
/// matching version creates the session with the MTU negotiated from
/// the datagram length and echoes it in the first reply; a following
/// second connection request from the same endpoint echoes that same
/// MTU and stores the peer-claimed relationship address.
pub proof fn lemma_handshake_happy_path(
    server_id: u64,
    clients: Map<Endpoint, Client>,
    b1: Seq<u8>,
    b2: Seq<u8>,
    src: Endpoint,
    t1: u64,
    t2: u64,
)
    requires
        19 <= b1.len() <= 19 + 32767,
        b1[0] == 0x05,
        b1[17] == RAKNET_VERSION,
        b2.len() >= 1,
        b2[0] == 0x07,
        spec_decode_address(b2, 17) is Some,
    ensures
        ({
            let mtu = (b1.len() - 19) as i16;
            let s1 = spec_handle(server_id, clients, b1, src, t1);
            let s2 = spec_handle(server_id, s1.clients, b2, src, t2);
            &&& s1.reply == spec_connection_reply1(
                ConnectionReply1 {
                    packet_id: 0x06u8,
                    server_id,
                    server_security: 0u8,
                    mtu_size: mtu,
                },
            )
            &&& s1.clients.contains_key(src)
            &&& s1.clients[src].mtu_size == mtu
            &&& s2.reply == spec_connection_reply2(
                ConnectionReply2 {
                    packet_id: 0x08u8,
                    server_id,
                    mtu_size: mtu,
                    server_security: 0u8,
                },
            )
            &&& s2.clients.contains_key(src)
            &&& s2.clients[src].relationship == Some(spec_decode_address(b2, 17)->0)
            &&& s2.clients[src].mtu_size == mtu
        }),
{
}

/// Version mismatch: a first connection request with the wrong version
/// byte is answered with `IncompatibleProtocolVersion` carrying exactly
/// that byte, no session is created, and a following second connection
/// request from that endpoint is discarded without a reply.
pub proof fn lemma_version_mismatch(
    server_id: u64,
    clients: Map<Endpoint, Client>,
    b1: Seq<u8>,
    b2: Seq<u8>,
    src: Endpoint,
    t1: u64,
    t2: u64,
)
    requires
        19 <= b1.len() <= 19 + 32767,
        b1[0] == 0x05,
        b1[17] != RAKNET_VERSION,
        !clients.contains_key(src),
        b2.len() >= 1,
        b2[0] == 0x07,
    ensures
        ({
            let s1 = spec_handle(server_id, clients, b1, src, t1);
            let s2 = spec_handle(server_id, s1.clients, b2, src, t2);
            &&& s1.reply == spec_incompatible_protocol_version(
                IncompatibleProtocolVersion {
                    packet_id: 0x19u8,
                    raknet_version: b1[17],
                    server_id,
                },
            )
            &&& s1.clients == clients
            &&& s2.reply == Seq::<u8>::empty()
            &&& s2.clients == clients
        }),
{
}

/// The RakNet server: a process-wide random id, the session table, and
/// the injected configuration.
pub struct Server {
    pub server_id: u64,
    pub clients: SessionTable,
    pub raknet_settings: RakNetSettings,
}

impl Server {
    /// The server's invariant: a well-formed session table.
    pub open spec fn wf(&self) -> bool {
        self.clients.wf()
    }

    /// A fresh server with a random id and no sessions.
    pub fn new(raknet_settings: RakNetSettings) -> (r: Server)
        ensures
            r.wf(),
            r.clients@ == Map::<Endpoint, Client>::empty(),
            r.raknet_settings == raknet_settings,
    {
        Server { server_id: rand::random::<u64>(), clients: SessionTable::new(), raknet_settings }
    }

    /// Handles one datagram from `src`, at `uptime_ms` milliseconds
    /// since server start, and returns the reply bytes; an empty reply
    /// means the datagram was dropped. Behaves exactly as
    /// [`spec_handle`] describes; nothing here panics, whatever the
    /// bytes hold.
    pub fn handle_packet(&mut self, packet_bytes: &[u8], src: Endpoint, uptime_ms: u64) -> (resp:
        Vec<u8>)
        requires
            old(self).wf(),
        ensures
            final(self).wf(),
            final(self).server_id == old(self).server_id,
            final(self).raknet_settings == old(self).raknet_settings,
            ({
                let step = spec_handle(
                    old(self).server_id,
                    old(self).clients@,
                    packet_bytes@,
                    src,
                    uptime_ms,
                );
                resp@ == step.reply && final(self).clients@ == step.clients
            }),
    {
        let info = match PacketInfo::from_bytes(packet_bytes) {
            Ok(info) => info,
            Err(_) => {
                return Vec::new();
            },
        };
        let id = match info.packet_id() {
            Some(id) => id,
            None => {
                return Vec::new();
            },
        };
        let encapsulated = info.is_encapsulated();
        if !encapsulated && matches!(id, PacketId::UnconnectedPing) {
            let pong = UnconnectedPong::create(uptime_ms as u128, self.server_id);
            pong.encode(Vec::new())
        } else if !encapsulated && matches!(id, PacketId::ConnectionRequest1) {
            if packet_bytes.len() < 19 || packet_bytes.len() > 19 + 32767 {
                return Vec::new();
            }
            let raknet_version = packet_bytes[17];
            let mtu_size = (packet_bytes.len() - 19) as i16;
            if raknet_version != RAKNET_VERSION {
                let ipv = IncompatibleProtocolVersion::create(raknet_version, self.server_id);
                ipv.encode(Vec::new())
            } else {
                let reply = ConnectionReply1::create(self.server_id, 0x00, mtu_size);
                self.clients.create(src, mtu_size, uptime_ms);
                reply.encode(Vec::new())
            }
        } else if !encapsulated && matches!(id, PacketId::ConnectionRequest2) {
            let rel = match read_address(packet_bytes, 17) {
                Ok(rel) => rel,
                Err(_) => {
                    return Vec::new();
                },
            };
            let c = match self.clients.get(src) {
                Some(c) => *c,
                None => {
                    return Vec::new();
                },
            };
            let mut c2 = c;
            c2.set_relationship(rel);
            c2.touch(uptime_ms);
            self.clients.insert(src, c2);
            let reply = ConnectionReply2::create(self.server_id, c.mtu_size, 0x00);
            reply.encode(Vec::new())
        } else if encapsulated && matches!(id, PacketId::ConnectionRequest) {
            let envelope = match Envelope::decode(packet_bytes) {
                Ok(envelope) => envelope,
                Err(_) => {
                    return Vec::new();
                },
            };
            let payload = match envelope.body {
                EnvelopeBody::AckNak { .. } => {
                    return Vec::new();
                },
                EnvelopeBody::Data { payload, .. } => payload,
            };
            if payload.len() < 17 {
                return Vec::new();
            }
            let c = match self.clients.get(src) {
                Some(c) => *c,
                None => {
                    return Vec::new();
                },
            };
            if !src.is_v4() {
                return Vec::new();
            }
            let rel = match c.relationship() {
                Some(rel) => rel,
                None => {
                    return Vec::new();
                },
            };
            if !rel.is_v4() {
                return Vec::new();
            }
            proof {
                lemma_be_val_bound(payload@.subrange(1, 9));
                lemma_be_val_bound(payload@.subrange(9, 17));
                lemma_pow256_monotone(8, 16);
                lemma_pow256_16();
                assert(pow256(8) == 0x10000000000000000) by {
                    reveal_with_fuel(pow256, 9);
                }
            }
            let guid = match read_u64(payload.as_slice(), 1) {
                Ok(guid) => guid,
                Err(_) => {
                    return Vec::new();
                },
            };
            let time = match read_u64(payload.as_slice(), 9) {
                Ok(time) => time,
                Err(_) => {
                    return Vec::new();
                },
            };
            let mut c2 = c;
            c2.set_guid(guid);
            c2.touch(uptime_ms);
            let accepted = ConnectionRequestAccepted::create(src, rel, time, uptime_ms);
            let inner = accepted.encode(Vec::new());
            proof {
                crate::outbound::lemma_connection_request_accepted_len(accepted);
            }
            let wrapper = Envelope {
                header: PacketType {
                    is_connected_to_peer: true,
                    is_ack: false,
                    is_nak: false,
                    is_pair: false,
                    is_continuous_send: false,
                    b_and_as: false,
                },
                body: EnvelopeBody::Data {
                    sequence_number: 0,
                    flags: PacketFlags {
                        reliability: Reliability::Unreliable,
                        has_split_packet: false,
                    },
                    reliable_index: None,
                    payload: inner,
                },
            };
            let mut resp: Vec<u8> = Vec::new();
            wrapper.encode(&mut resp);
            self.clients.insert(src, c2);
            resp
        } else {
            Vec::new()
        }
    }
}

} // verus!
