//! The error taxonomy for malformed wire input.
//!
//! Every read-side codec operation returns one of these instead of
//! panicking; callers discard the offending datagram.

use vstd::prelude::*;

verus! {

/// Why a buffer could not be decoded. Malformed input is always locally
/// recovered by discarding the datagram, never a fatal condition.
#[derive(Clone, Copy, Debug, PartialEq, Eq, Structural)]
pub enum DecodeError {
    /// The buffer is shorter than the field being read.
    OutOfBounds,
    /// A length-prefixed string holds bytes that are not valid UTF-8.
    InvalidUtf8,
    /// A string longer than a 16-bit length prefix can describe.
    StringTooLong,
    /// The address family byte is not the IPv4 marker, or an IPv6
    /// endpoint was handed to the IPv4-only wire codec.
    UnsupportedAddressFamily,
    /// A datagram's payload bit-length field is not a multiple of eight
    /// or does not match the bytes that follow the header.
    BadBitLength,
    /// An ACK/NAK datagram with a record count of zero.
    EmptyRecordList,
    /// Bytes were left over after the structure was fully decoded.
    TrailingBytes,
}

impl DecodeError {
    /// A short diagnostic label for logs.
    pub fn describe(&self) -> (r: &'static str)
        ensures
            r@.len() > 0,
    {
        let s: &'static str = match self {
            DecodeError::OutOfBounds => "buffer too short",
            DecodeError::InvalidUtf8 => "string is not valid utf-8",
            DecodeError::StringTooLong => "string exceeds 16-bit length prefix",
            DecodeError::UnsupportedAddressFamily => "address is not ipv4",
            DecodeError::BadBitLength => "payload bit length is malformed",
            DecodeError::EmptyRecordList => "ack/nak record list is empty",
            DecodeError::TrailingBytes => "trailing bytes after packet",
        };
        proof {
            reveal_strlit("buffer too short");
            reveal_strlit("string is not valid utf-8");
            reveal_strlit("string exceeds 16-bit length prefix");
            reveal_strlit("address is not ipv4");
            reveal_strlit("payload bit length is malformed");
            reveal_strlit("ack/nak record list is empty");
            reveal_strlit("trailing bytes after packet");
        }
        s
    }
}

} // verus!
