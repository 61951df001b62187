//! The per-endpoint session record.
//!
//! One `Client` exists per endpoint that has completed at least the
//! first handshake step; its fields are filled in incrementally as the
//! later steps arrive.

use vstd::prelude::*;

use crate::endpoint::Endpoint;

verus! {

/// One tracked session. `guid` is present only after the online
/// connection request; `relationship` (the address the peer claims to
/// be connecting from) is set during the second offline handshake step.
#[derive(Clone, Copy, Debug)]
pub struct Client {
    pub addr: Endpoint,
    pub mtu_size: i16,
    pub last_update: u64,
    pub relationship: Option<Endpoint>,
    pub guid: Option<u64>,
}

impl Client {
    /// A fresh session for `addr` with the negotiated MTU; no GUID and
    /// no relationship address yet.
    pub fn new(addr: Endpoint, mtu_size: i16, now_ms: u64) -> (r: Client)
        ensures
            r == (Client {
                addr,
                mtu_size,
                last_update: now_ms,
                relationship: None,
                guid: None,
            }),
    {
        Client { addr, mtu_size, guid: None, relationship: None, last_update: now_ms }
    }

    /// The endpoint this session belongs to.
    pub fn addr(&self) -> (r: Endpoint)
        ensures
            r == self.addr,
    {
        self.addr
    }

    /// The MTU negotiated from the first connection-request datagram.
    pub fn mtu_size(&self) -> (r: i16)
        ensures
            r == self.mtu_size,
    {
        self.mtu_size
    }

    /// When this session last saw a handshake packet, in server-uptime
    /// milliseconds.
    pub fn last_update(&self) -> (r: u64)
        ensures
            r == self.last_update,
    {
        self.last_update
    }

    /// Records activity from this endpoint.
    pub fn touch(&mut self, now_ms: u64)
        ensures
            *final(self) == (Client { last_update: now_ms, ..*old(self) }),
    {
        self.last_update = now_ms;
    }

    /// The client-chosen 64-bit identifier, once the online request
    /// arrived.
    pub fn guid(&self) -> (r: Option<u64>)
        ensures
            r == self.guid,
    {
        self.guid
    }

    /// Stores the client-chosen identifier.
    pub fn set_guid(&mut self, guid: u64)
        ensures
            *final(self) == (Client { guid: Some(guid), ..*old(self) }),
    {
        self.guid = Some(guid);
    }

    /// Whether the online request has arrived.
    pub fn has_guid(&self) -> (r: bool)
        ensures
            r == (self.guid is Some),
    {
        match self.guid {
            Some(_) => true,
            None => false,
        }
    }

    /// The address the peer claims to be connecting from, once the
    /// second offline handshake step arrived.
    pub fn relationship(&self) -> (r: Option<Endpoint>)
        ensures
            r == self.relationship,
    {
        self.relationship
    }

    /// Stores the peer-claimed address.
    pub fn set_relationship(&mut self, relationship: Endpoint)
        ensures
            *final(self) == (Client { relationship: Some(relationship), ..*old(self) }),
    {
        self.relationship = Some(relationship);
    }

    /// Whether the second offline handshake step has arrived.
    pub fn has_relationship(&self) -> (r: bool)
        ensures
            r == (self.relationship is Some),
    {
        match self.relationship {
            Some(_) => true,
            None => false,
        }
    }
}

} // verus!
