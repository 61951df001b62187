//! Datagram codec: the encapsulated-packet envelope.
//!
//! An envelope is either an ACK/NAK carrying sequence-number ranges, or
//! a data frame carrying a sequence number, reliability flags, an
//! optional reliable-message index and a bit-length-prefixed payload.
//! Decoding any byte sequence either reconstructs an envelope exactly or
//! reports a decode error; it never panics.

use vstd::prelude::*;
use vstd::slice::{slice_subrange, slice_to_vec};

use crate::buffer::{
    be_bytes, be_val, lemma_be_bytes_len, lemma_be_val_of_be_bytes, pow256, push_u16, push_u24,
    push_slice, read_u16, read_u24,
};
use crate::error::DecodeError;
use crate::packet::{
    lemma_packet_flags_round_trip, lemma_packet_type_round_trip, spec_flags_byte,
    spec_flags_from_byte, spec_packet_type_byte, spec_packet_type_from_byte, PacketFlags,
    PacketType, Reliability, SequenceNumberRange,
};

verus! {

/// The body of an envelope: ACK/NAK record ranges, or a data frame.
#[derive(Debug)]
pub enum EnvelopeBody {
    AckNak { records: Vec<SequenceNumberRange> },
    Data {
        sequence_number: u32,
        flags: PacketFlags,
        reliable_index: Option<u32>,
        payload: Vec<u8>,
    },
}

/// One encapsulated datagram: header flags and a body.
#[derive(Debug)]
pub struct Envelope {
    pub header: PacketType,
    pub body: EnvelopeBody,
}

/// The mathematical model of an envelope body.
#[verifier::ext_equal]
pub enum EnvelopeBodyView {
    AckNak { records: Seq<SequenceNumberRange> },
    Data {
        sequence_number: u32,
        flags: PacketFlags,
        reliable_index: Option<u32>,
        payload: Seq<u8>,
    },
}

/// The mathematical model of an envelope.
#[verifier::ext_equal]
pub struct EnvelopeView {
    pub header: PacketType,
    pub body: EnvelopeBodyView,
}

impl View for EnvelopeBody {
    type V = EnvelopeBodyView;

    open spec fn view(&self) -> EnvelopeBodyView {
        match self {
            EnvelopeBody::AckNak { records } => EnvelopeBodyView::AckNak { records: records@ },
            EnvelopeBody::Data { sequence_number, flags, reliable_index, payload } => {
                EnvelopeBodyView::Data {
                    sequence_number: *sequence_number,
                    flags: *flags,
                    reliable_index: *reliable_index,
                    payload: payload@,
                }
            },
        }
    }
}

impl View for Envelope {
    type V = EnvelopeView;

    open spec fn view(&self) -> EnvelopeView {
        EnvelopeView { header: self.header, body: self.body@ }
    }
}

/// A well-formed ACK/NAK range: the "max equals min" flag holds exactly
/// when no max is present, and both sequence numbers fit 24 bits.
pub open spec fn wf_record(r: SequenceNumberRange) -> bool {
    &&& r.max_equals_to_min <==> r.sequence_number_max is None
    &&& r.sequence_number_min < 0x1000000
    &&& r.sequence_number_max is Some ==> r.sequence_number_max->0 < 0x1000000
}

/// A well-formed envelope: an ACK/NAK body sits under an ack or nak
/// header flag and has one or more well-formed records whose count fits
/// the 16-bit record-count field; a data body sits under neither flag,
/// its sequence number and optional reliable index fit 24 bits, the
/// index is present exactly when the reliability class is not
/// `Unreliable`, and the payload's bit length fits the 16-bit field.
pub open spec fn wf_envelope(ev: EnvelopeView) -> bool {
    match ev.body {
        EnvelopeBodyView::AckNak { records } => {
            &&& ev.header.is_ack || ev.header.is_nak
            &&& 1 <= records.len() <= 0xffff
            &&& forall|i: int| 0 <= i < records.len() ==> wf_record(#[trigger] records[i])
        },
        EnvelopeBodyView::Data { sequence_number, flags, reliable_index, payload } => {
            &&& !ev.header.is_ack && !ev.header.is_nak
            &&& sequence_number < 0x1000000
            &&& (reliable_index is Some <==> flags.reliability != Reliability::Unreliable)
            &&& (reliable_index is Some ==> reliable_index->0 < 0x1000000)
            &&& payload.len() * 8 <= 0xffff
        },
    }
}

/// The wire form of one ACK/NAK range: the "max equals min" byte, the
/// 24-bit min, and, when max differs, the 24-bit max.
pub open spec fn spec_encode_record(r: SequenceNumberRange) -> Seq<u8> {
    if r.max_equals_to_min {
        seq![1u8] + be_bytes(r.sequence_number_min as nat, 3)
    } else {
        seq![0u8] + be_bytes(r.sequence_number_min as nat, 3) + be_bytes(
            r.sequence_number_max->0 as nat,
            3,
        )
    }
}

/// The wire form of a record list, first record first.
pub open spec fn spec_encode_records(rs: Seq<SequenceNumberRange>) -> Seq<u8>
    decreases rs.len(),
{
    if rs.len() == 0 {
        Seq::empty()
    } else {
        spec_encode_record(rs[0]) + spec_encode_records(rs.drop_first())
    }
}

/// Decodes exactly `n` ranges from the front of `b`, requiring the
/// records to end flush with the buffer.
pub open spec fn spec_decode_records(b: Seq<u8>, n: nat) -> Result<
    Seq<SequenceNumberRange>,
    DecodeError,
>
    decreases n,
{
    if n == 0 {
        if b.len() == 0 {
            Ok(Seq::empty())
        } else {
            Err(DecodeError::TrailingBytes)
        }
    } else if b.len() < 1 {
        Err(DecodeError::OutOfBounds)
    } else if b[0] != 0 {
        if b.len() < 4 {
            Err(DecodeError::OutOfBounds)
        } else {
            match spec_decode_records(b.skip(4), (n - 1) as nat) {
                Ok(rest) => Ok(
                    seq![
                        SequenceNumberRange {
                            max_equals_to_min: true,
                            sequence_number_min: be_val(b.subrange(1, 4)) as u32,
                            sequence_number_max: None,
                        },
                    ] + rest,
                ),
                Err(e) => Err(e),
            }
        }
    } else {
        if b.len() < 7 {
            Err(DecodeError::OutOfBounds)
        } else {
            match spec_decode_records(b.skip(7), (n - 1) as nat) {
                Ok(rest) => Ok(
                    seq![
                        SequenceNumberRange {
                            max_equals_to_min: false,
                            sequence_number_min: be_val(b.subrange(1, 4)) as u32,
                            sequence_number_max: Some(be_val(b.subrange(4, 7)) as u32),
                        },
                    ] + rest,
                ),
                Err(e) => Err(e),
            }
        }
    }
}

/// The full wire form of an envelope.
pub open spec fn spec_encode_envelope(ev: EnvelopeView) -> Seq<u8> {
    match ev.body {
        EnvelopeBodyView::AckNak { records } => seq![spec_packet_type_byte(ev.header)] + be_bytes(
            records.len(),
            2,
        ) + spec_encode_records(records),
        EnvelopeBodyView::Data { sequence_number, flags, reliable_index, payload } => seq![
            spec_packet_type_byte(ev.header),
        ] + be_bytes(sequence_number as nat, 3) + seq![spec_flags_byte(flags)] + be_bytes(
            payload.len() * 8,
            2,
        ) + (if reliable_index is Some {
            be_bytes(reliable_index->0 as nat, 3)
        } else {
            Seq::empty()
        }) + payload,
    }
}

/// Decodes a whole datagram as an envelope. Errors name the first
/// malformation found, in the order the fields are read.
pub open spec fn spec_decode_envelope(b: Seq<u8>) -> Result<EnvelopeView, DecodeError> {
    if b.len() < 1 {
        Err(DecodeError::OutOfBounds)
    } else {
        let header = spec_packet_type_from_byte(b[0]);
        if header.is_ack || header.is_nak {
            if b.len() < 3 {
                Err(DecodeError::OutOfBounds)
            } else {
                let count = be_val(b.subrange(1, 3));
                if count == 0 {
                    Err(DecodeError::EmptyRecordList)
                } else {
                    match spec_decode_records(b.skip(3), count) {
                        Ok(records) => Ok(
                            EnvelopeView { header, body: EnvelopeBodyView::AckNak { records } },
                        ),
                        Err(e) => Err(e),
                    }
                }
            }
        } else {
            if b.len() < 7 {
                Err(DecodeError::OutOfBounds)
            } else {
                let sequence_number = be_val(b.subrange(1, 4)) as u32;
                let flags = spec_flags_from_byte(b[4]);
                let bitlen = be_val(b.subrange(5, 7));
                if bitlen % 8 != 0 {
                    Err(DecodeError::BadBitLength)
                } else {
                    let plen = bitlen / 8;
                    let reliable = flags.reliability != Reliability::Unreliable;
                    let hdr: int = if reliable {
                        10
                    } else {
                        7
                    };
                    if reliable && b.len() < 10 {
                        Err(DecodeError::OutOfBounds)
                    } else if b.len() < hdr + plen {
                        Err(DecodeError::OutOfBounds)
                    } else if b.len() > hdr + plen {
                        Err(DecodeError::TrailingBytes)
                    } else {
                        let reliable_index = if reliable {
                            Some(be_val(b.subrange(7, 10)) as u32)
                        } else {
                            None
                        };
                        Ok(
                            EnvelopeView {
                                header,
                                body: EnvelopeBodyView::Data {
                                    sequence_number,
                                    flags,
                                    reliable_index,
                                    payload: b.subrange(hdr, hdr + plen),
                                },
                            },
                        )
                    }
                }
            }
        }
    }
}

/// The model of an exec decode result.
pub open spec fn decode_result_view(r: Result<Envelope, DecodeError>) -> Result<
    EnvelopeView,
    DecodeError,
> {
    match r {
        Ok(e) => Ok(e@),
        Err(e) => Err(e),
    }
}

/// The model of an exec record-list decode result.
pub open spec fn records_result_view(r: Result<Vec<SequenceNumberRange>, DecodeError>) -> Result<
    Seq<SequenceNumberRange>,
    DecodeError,
> {
    match r {
        Ok(v) => Ok(v@),
        Err(e) => Err(e),
    }
}

/// Appends one well-formed range in its wire form.
fn push_record(buf: &mut Vec<u8>, r: SequenceNumberRange)
    requires
        wf_record(r),
    ensures
        final(buf)@ == old(buf)@ + spec_encode_record(r),
{
    if r.max_equals_to_min {
        buf.push(1);
        push_u24(buf, r.sequence_number_min);
        assert(buf@ =~= old(buf)@ + spec_encode_record(r));
    } else {
        buf.push(0);
        push_u24(buf, r.sequence_number_min);
        match r.sequence_number_max {
            Some(m) => {
                push_u24(buf, m);
            },
            None => {
                proof {
                    assert(false);
                }
            },
        }
        assert(buf@ =~= old(buf)@ + spec_encode_record(r));
    }
}

/// Encoding a list one range at a time appends that range's wire form.
proof fn lemma_encode_records_push(rs: Seq<SequenceNumberRange>, r: SequenceNumberRange)
    ensures
        spec_encode_records(rs.push(r)) == spec_encode_records(rs) + spec_encode_record(r),
    decreases rs.len(),
{
    reveal_with_fuel(spec_encode_records, 3);
    if rs.len() == 0 {
        assert(rs.push(r).drop_first() =~= Seq::empty());
        assert(rs.push(r)[0] == r);
        assert(spec_encode_records(rs.push(r)) =~= spec_encode_records(rs) + spec_encode_record(
            r,
        ));
    } else {
        assert(rs.push(r).drop_first() =~= rs.drop_first().push(r));
        assert(rs.push(r)[0] == rs[0]);
        lemma_encode_records_push(rs.drop_first(), r);
        assert(spec_encode_records(rs.push(r)) =~= spec_encode_records(rs) + spec_encode_record(
            r,
        ));
    }
}

impl Envelope {
    /// Appends this envelope's wire form to `binary`.
    pub fn encode(&self, binary: &mut Vec<u8>)
        requires
            wf_envelope(self@),
        ensures
            final(binary)@ == old(binary)@ + spec_encode_envelope(self@),
    {
        binary.push(self.header.to_u8());
        match &self.body {
            EnvelopeBody::AckNak { records } => {
                push_u16(binary, records.len() as u16);
                let ghost mid = binary@;
                let mut i: usize = 0;
                while i < records.len()
                    invariant
                        i <= records@.len(),
                        wf_envelope(self@),
                        self@.body matches EnvelopeBodyView::AckNak { records: rs } && rs
                            == records@,
                        binary@ == mid + spec_encode_records(records@.subrange(0, i as int)),
                    decreases records@.len() - i,
                {
                    let r = records[i];
                    proof {
                        assert(records@.subrange(0, i as int + 1) =~= records@.subrange(
                            0,
                            i as int,
                        ).push(records@[i as int]));
                        lemma_encode_records_push(records@.subrange(0, i as int), records@[i as int]);
                    }
                    push_record(binary, r);
                    i += 1;
                }
                proof {
                    assert(records@.subrange(0, records@.len() as int) =~= records@);
                    assert(binary@ =~= old(binary)@ + spec_encode_envelope(self@));
                }
            },
            EnvelopeBody::Data { sequence_number, flags, reliable_index, payload } => {
                push_u24(binary, *sequence_number);
                binary.push(flags.to_u8());
                push_u16(binary, (payload.len() * 8) as u16);
                match reliable_index {
                    Some(idx) => {
                        push_u24(binary, *idx);
                    },
                    None => {},
                }
                push_slice(binary, payload.as_slice());
                assert(binary@ =~= old(binary)@ + spec_encode_envelope(self@));
            },
        }
    }

    /// Decodes a whole datagram, reconstructing the envelope exactly as
    /// [`spec_decode_envelope`] describes; malformed input yields the
    /// decode error that names the first malformation found.
    pub fn decode(bytes: &[u8]) -> (r: Result<Envelope, DecodeError>)
        ensures
            decode_result_view(r) == spec_decode_envelope(bytes@),
    {
        if bytes.len() < 1 {
            return Err(DecodeError::OutOfBounds);
        }
        let header = PacketType::from_u8(bytes[0]);
        if header.is_ack || header.is_nak {
            let count = match read_u16(bytes, 1) {
                Ok(c) => c,
                Err(e) => {
                    return Err(e);
                },
            };
            if count == 0 {
                return Err(DecodeError::EmptyRecordList);
            }
            let records = match decode_records(bytes, 3, count as usize) {
                Ok(rs) => rs,
                Err(e) => {
                    return Err(e);
                },
            };
            Ok(Envelope { header, body: EnvelopeBody::AckNak { records } })
        } else {
            if bytes.len() < 7 {
                return Err(DecodeError::OutOfBounds);
            }
            let sequence_number = match read_u24(bytes, 1) {
                Ok(s) => s,
                Err(e) => {
                    return Err(e);
                },
            };
            let flags = match PacketFlags::from_u8(bytes[4]) {
                Ok(f) => f,
                Err(e) => {
                    return Err(e);
                },
            };
            let bitlen = match read_u16(bytes, 5) {
                Ok(l) => l,
                Err(e) => {
                    return Err(e);
                },
            };
            if bitlen % 8 != 0 {
                return Err(DecodeError::BadBitLength);
            }
            let plen = (bitlen / 8) as usize;
            let reliable = !matches!(flags.reliability, Reliability::Unreliable);
            let hdr: usize = if reliable {
                10
            } else {
                7
            };
            let reliable_index = if reliable {
                if bytes.len() < 10 {
                    return Err(DecodeError::OutOfBounds);
                }
                match read_u24(bytes, 7) {
                    Ok(idx) => Some(idx),
                    Err(e) => {
                        return Err(e);
                    },
                }
            } else {
                None
            };
            if bytes.len() < hdr + plen {
                return Err(DecodeError::OutOfBounds);
            }
            if bytes.len() > hdr + plen {
                return Err(DecodeError::TrailingBytes);
            }
            let payload = slice_to_vec(slice_subrange(bytes, hdr, hdr + plen));
            Ok(
                Envelope {
                    header,
                    body: EnvelopeBody::Data { sequence_number, flags, reliable_index, payload },
                },
            )
        }
    }
}

/// Glues a decoded prefix onto what record decoding yields for the rest.
pub open spec fn records_prepend(
    pre: Seq<SequenceNumberRange>,
    r: Result<Seq<SequenceNumberRange>, DecodeError>,
) -> Result<Seq<SequenceNumberRange>, DecodeError> {
    match r {
        Ok(s) => Ok(pre + s),
        Err(e) => Err(e),
    }
}

/// Decodes exactly `n` ranges starting at `start`; the ranges must end
/// flush with the buffer.
fn decode_records(bytes: &[u8], start: usize, n: usize) -> (r: Result<
    Vec<SequenceNumberRange>,
    DecodeError,
>)
    requires
        start <= bytes@.len(),
    ensures
        records_result_view(r) == spec_decode_records(bytes@.skip(start as int), n as nat),
{
    let mut out: Vec<SequenceNumberRange> = Vec::new();
    let mut pos: usize = start;
    let mut rem: usize = n;
    proof {
        let whole = spec_decode_records(bytes@.skip(start as int), n as nat);
        if whole is Ok {
            assert(Seq::<SequenceNumberRange>::empty() + whole->Ok_0 =~= whole->Ok_0);
        }
    }
    while rem > 0
        invariant
            pos <= bytes@.len(),
            spec_decode_records(bytes@.skip(start as int), n as nat) == records_prepend(
                out@,
                spec_decode_records(bytes@.skip(pos as int), rem as nat),
            ),
        decreases rem,
    {
        let ghost prev_out = out@;
        let ghost prev = bytes@.skip(pos as int);
        if pos >= bytes.len() {
            return Err(DecodeError::OutOfBounds);
        }
        let flag = bytes[pos];
        proof {
            assert(prev[0] == bytes@[pos as int]);
        }
        if flag != 0 {
            if bytes.len() - pos < 4 {
                return Err(DecodeError::OutOfBounds);
            }
            let min = match read_u24(bytes, pos + 1) {
                Ok(m) => m,
                Err(e) => {
                    return Err(e);
                },
            };
            proof {
                assert(prev.subrange(1, 4) =~= bytes@.subrange(pos as int + 1, pos as int + 4));
            }
            out.push(
                SequenceNumberRange {
                    max_equals_to_min: true,
                    sequence_number_min: min,
                    sequence_number_max: None,
                },
            );
            pos += 4;
            rem -= 1;
            proof {
                assert(prev.skip(4) =~= bytes@.skip(pos as int));
            }
        } else {
            if bytes.len() - pos < 7 {
                return Err(DecodeError::OutOfBounds);
            }
            let min = match read_u24(bytes, pos + 1) {
                Ok(m) => m,
                Err(e) => {
                    return Err(e);
                },
            };
            let max = match read_u24(bytes, pos + 4) {
                Ok(m) => m,
                Err(e) => {
                    return Err(e);
                },
            };
            proof {
                assert(prev.subrange(1, 4) =~= bytes@.subrange(pos as int + 1, pos as int + 4));
                assert(prev.subrange(4, 7) =~= bytes@.subrange(pos as int + 4, pos as int + 7));
            }
            out.push(
                SequenceNumberRange {
                    max_equals_to_min: false,
                    sequence_number_min: min,
                    sequence_number_max: Some(max),
                },
            );
            pos += 7;
            rem -= 1;
            proof {
                assert(prev.skip(7) =~= bytes@.skip(pos as int));
            }
        }
        proof {
            let inner = spec_decode_records(bytes@.skip(pos as int), rem as nat);
            if inner is Ok {
                let rest = inner->Ok_0;
                assert(prev_out + (seq![out@.last()] + rest) =~= out@ + rest);
            }
        }
    }
    if pos < bytes.len() {
        return Err(DecodeError::TrailingBytes);
    }
    proof {
        assert(bytes@.skip(pos as int).len() == 0);
        assert(out@ + Seq::<SequenceNumberRange>::empty() =~= out@);
    }
    Ok(out)
}

/// Round-trip for record lists: decoding the wire form of well-formed
/// ranges, flush to the buffer's end, yields exactly those ranges.
proof fn lemma_records_round_trip(rs: Seq<SequenceNumberRange>)
    requires
        forall|i: int| 0 <= i < rs.len() ==> wf_record(#[trigger] rs[i]),
    ensures
        spec_decode_records(spec_encode_records(rs), rs.len() as nat) == Ok::<
            Seq<SequenceNumberRange>,
            DecodeError,
        >(rs),
    decreases rs.len(),
{
    reveal_with_fuel(pow256, 4);
    let b = spec_encode_records(rs);
    if rs.len() == 0 {
        assert(Seq::<SequenceNumberRange>::empty() =~= rs);
    } else {
        let r0 = rs[0];
        let enc0 = spec_encode_record(r0);
        let rest_enc = spec_encode_records(rs.drop_first());
        let k: int = if r0.max_equals_to_min {
            4
        } else {
            7
        };
        lemma_be_bytes_len(r0.sequence_number_min as nat, 3);
        if !r0.max_equals_to_min {
            lemma_be_bytes_len(r0.sequence_number_max->0 as nat, 3);
        }
        assert(enc0.len() == k);
        assert(b == enc0 + rest_enc);
        assert(b[0] == enc0[0]);
        assert(b.subrange(1, 4) =~= be_bytes(r0.sequence_number_min as nat, 3));
        lemma_be_val_of_be_bytes(r0.sequence_number_min as nat, 3);
        if !r0.max_equals_to_min {
            assert(b.subrange(4, 7) =~= be_bytes(r0.sequence_number_max->0 as nat, 3));
            lemma_be_val_of_be_bytes(r0.sequence_number_max->0 as nat, 3);
        }
        assert(b.skip(k) =~= rest_enc);
        lemma_records_round_trip(rs.drop_first());
        let decoded0 = SequenceNumberRange {
            max_equals_to_min: r0.max_equals_to_min,
            sequence_number_min: r0.sequence_number_min,
            sequence_number_max: r0.sequence_number_max,
        };
        assert(decoded0 == r0);
        assert(seq![r0] + rs.drop_first() =~= rs);
    }
}

/// Round-trip: decoding the wire form of any well-formed envelope
/// yields that envelope again, for every field combination the
/// invariants allow.
pub proof fn lemma_envelope_round_trip(ev: EnvelopeView)
    requires
        wf_envelope(ev),
    ensures
        spec_decode_envelope(spec_encode_envelope(ev)) == Ok::<EnvelopeView, DecodeError>(ev),
{
    reveal_with_fuel(pow256, 4);
    let b = spec_encode_envelope(ev);
    lemma_packet_type_round_trip(ev.header);
    match ev.body {
        EnvelopeBodyView::AckNak { records } => {
            lemma_be_bytes_len(records.len(), 2);
            assert(b[0] == spec_packet_type_byte(ev.header));
            assert(b.subrange(1, 3) =~= be_bytes(records.len(), 2));
            lemma_be_val_of_be_bytes(records.len(), 2);
            assert(b.skip(3) =~= spec_encode_records(records));
            lemma_records_round_trip(records);
        },
        EnvelopeBodyView::Data { sequence_number, flags, reliable_index, payload } => {
            lemma_packet_flags_round_trip(flags);
            lemma_be_bytes_len(sequence_number as nat, 3);
            lemma_be_bytes_len(payload.len() * 8, 2);
            let reliable = flags.reliability != Reliability::Unreliable;
            let hdr: int = if reliable {
                10
            } else {
                7
            };
            if reliable {
                lemma_be_bytes_len(reliable_index->0 as nat, 3);
            }
            assert(b.len() == hdr + payload.len());
            assert(b[0] == spec_packet_type_byte(ev.header));
            assert(b.subrange(1, 4) =~= be_bytes(sequence_number as nat, 3));
            lemma_be_val_of_be_bytes(sequence_number as nat, 3);
            assert(b[4] == spec_flags_byte(flags));
            assert(b.subrange(5, 7) =~= be_bytes(payload.len() * 8, 2));
            lemma_be_val_of_be_bytes(payload.len() * 8, 2);
            assert((payload.len() * 8) % 8 == 0) by (nonlinear_arith);
            assert((payload.len() * 8) / 8 == payload.len()) by (nonlinear_arith);
            if reliable {
                assert(b.subrange(7, 10) =~= be_bytes(reliable_index->0 as nat, 3));
                lemma_be_val_of_be_bytes(reliable_index->0 as nat, 3);
            }
            assert(b.subrange(hdr, hdr + payload.len() as int) =~= payload);
            assert(spec_decode_envelope(b) == Ok::<EnvelopeView, DecodeError>(ev));
        },
    }
}

} // verus!
