//! The wire record: how one structured value lies in linear memory.
//!
//! A record is a 16-bit little-endian length followed by that many payload
//! bytes. The payload is whatever the codec made of the value.

use vstd::prelude::*;

verus! {

/// Bytes of the length prefix.
pub const PREFIX_SIZE: usize = 2;

/// The longest payload a record can carry.
pub const MAX_PAYLOAD: usize = 65535;

/// The length prefix of a payload of `length` bytes, low byte first.
pub open spec fn prefix_of(length: int) -> Seq<u8> {
    seq![(length % 256) as u8, (length / 256) as u8]
}

/// The length that a prefix of these two bytes announces.
pub open spec fn prefix_value(low: u8, high: u8) -> int {
    low + 256 * high
}

/// The record that carries `payload`.
pub open spec fn record_of(payload: Seq<u8>) -> Seq<u8> {
    prefix_of(payload.len() as int) + payload
}

/// The memory after `data` was written over it at `offset`.
pub open spec fn write_at(memory: Seq<u8>, offset: int, data: Seq<u8>) -> Seq<u8> {
    memory.subrange(0, offset) + data + memory.subrange(offset + data.len(), memory.len() as int)
}

/// The payload of the record that starts at `offset`, if a whole record
/// lies in the memory there.
pub open spec fn record_at(memory: Seq<u8>, offset: int) -> Option<Seq<u8>> {
    if 0 <= offset && offset + 2 <= memory.len() {
        let length = prefix_value(memory[offset], memory[offset + 1]);
        if offset + 2 + length <= memory.len() {
            Some(memory.subrange(offset + 2, offset + 2 + length))
        } else {
            None
        }
    } else {
        None
    }
}

/// The two prefix bytes for a payload of `length` bytes.
pub fn encode_prefix(length: u16) -> (prefix: [u8; 2])
    ensures
        prefix@ == prefix_of(length as int),
        prefix_value(prefix[0], prefix[1]) == length,
{
    let prefix = [(length % 256) as u8, (length / 256) as u8];
    assert(prefix@ =~= prefix_of(length as int));
    prefix
}

/// The payload length that two prefix bytes announce.
pub fn decode_prefix(low: u8, high: u8) -> (length: u16)
    ensures
        length == prefix_value(low, high),
{
    low as u16 + 256 * (high as u16)
}

/// The wire record of `payload`. A payload longer than `MAX_PAYLOAD` has no
/// record.
pub fn encode_record(payload: &[u8]) -> (record: Option<Vec<u8>>)
    ensures
        record is Some <==> payload@.len() <= MAX_PAYLOAD,
        record matches Some(bytes) ==> bytes@ == record_of(payload@),
{
    if payload.len() > MAX_PAYLOAD {
        return None;
    }
    let prefix = encode_prefix(payload.len() as u16);
    let mut bytes: Vec<u8> = Vec::with_capacity(payload.len() + PREFIX_SIZE);
    bytes.push(prefix[0]);
    bytes.push(prefix[1]);
    let mut copied: usize = 0;
    while copied < payload.len()
        invariant
            copied <= payload@.len(),
            bytes@ == prefix_of(payload@.len() as int) + payload@.subrange(0, copied as int),
        decreases payload@.len() - copied,
    {
        bytes.push(payload[copied]);
        copied = copied + 1;
        assert(bytes@ =~= prefix_of(payload@.len() as int) + payload@.subrange(0, copied as int));
    }
    assert(payload@.subrange(0, copied as int) =~= payload@);
    Some(bytes)
}

/// The payload of the record that starts at `offset` in `memory`, or `None`
/// when no whole record lies there.
pub fn decode_record(memory: &[u8], offset: usize) -> (payload: Option<Vec<u8>>)
    ensures
        payload is Some <==> record_at(memory@, offset as int) is Some,
        payload matches Some(bytes) ==> record_at(memory@, offset as int) == Some(bytes@),
{
    if memory.len() < PREFIX_SIZE || offset > memory.len() - PREFIX_SIZE {
        return None;
    }
    let length = decode_prefix(memory[offset], memory[offset + 1]) as usize;
    let first = offset + PREFIX_SIZE;
    if length > memory.len() - first {
        return None;
    }
    let mut bytes: Vec<u8> = Vec::with_capacity(length);
    let mut copied: usize = 0;
    while copied < length
        invariant
            copied <= length,
            first + length <= memory@.len() <= usize::MAX,
            bytes@ == memory@.subrange(first as int, first + copied),
        decreases length - copied,
    {
        bytes.push(memory[first + copied]);
        copied = copied + 1;
        assert(bytes@ =~= memory@.subrange(first as int, first + copied));
    }
    Some(bytes)
}

/// Writes the record of `payload` into `memory` at `offset`. When the
/// payload is too long or the record would not lie inside the memory,
/// nothing is written and `false` comes back.
pub fn store_record(memory: &mut Vec<u8>, offset: usize, payload: &[u8]) -> (stored: bool)
    ensures
        stored <==> payload@.len() <= MAX_PAYLOAD && offset + 2 + payload@.len() <= old(
            memory,
        )@.len(),
        stored ==> final(memory)@ == write_at(old(memory)@, offset as int, record_of(payload@)),
        !stored ==> final(memory)@ == old(memory)@,
{
    if payload.len() > MAX_PAYLOAD || memory.len() < PREFIX_SIZE + payload.len() || offset
        > memory.len() - PREFIX_SIZE - payload.len() {
        return false;
    }
    let prefix = encode_prefix(payload.len() as u16);
    let ghost target = write_at(old(memory)@, offset as int, record_of(payload@));
    memory.set(offset, prefix[0]);
    memory.set(offset + 1, prefix[1]);
    let mut copied: usize = 0;
    while copied < payload.len()
        invariant
            copied <= payload@.len(),
            payload@.len() <= MAX_PAYLOAD,
            memory@.len() == old(memory)@.len(),
            offset + 2 + payload@.len() <= memory@.len() <= usize::MAX,
            target == write_at(old(memory)@, offset as int, record_of(payload@)),
            forall|at: int|
                0 <= at < memory@.len() && !(offset + 2 + copied <= at < offset + 2
                    + payload@.len()) ==> memory@[at] == target[at],
            forall|at: int|
                offset + 2 + copied <= at < offset + 2 + payload@.len() ==> memory@[at] == old(
                    memory,
                )@[at],
        decreases payload@.len() - copied,
    {
        memory.set(offset + PREFIX_SIZE + copied, payload[copied]);
        copied = copied + 1;
    }
    assert(memory@ =~= target);
    true
}

/// A record that was written into a memory is read back from the same
/// place with the payload it was made of.
pub proof fn lemma_written_record_reads_back(memory: Seq<u8>, offset: int, payload: Seq<u8>)
    requires
        payload.len() <= MAX_PAYLOAD,
        0 <= offset,
        offset + 2 + payload.len() <= memory.len(),
    ensures
        record_at(write_at(memory, offset, record_of(payload)), offset) == Some(payload),
        write_at(memory, offset, record_of(payload)).len() == memory.len(),
{
    let written = write_at(memory, offset, record_of(payload));
    let length = payload.len() as int;
    assert(written[offset] == (length % 256) as u8);
    assert(written[offset + 1] == (length / 256) as u8);
    assert(prefix_value(written[offset], written[offset + 1]) == length);
    assert(written.subrange(offset + 2, offset + 2 + length) =~= payload);
}

/// Decoding the record of a payload gives the payload back.
pub proof fn lemma_record_round_trip(payload: Seq<u8>)
    requires
        payload.len() <= MAX_PAYLOAD,
    ensures
        record_at(record_of(payload), 0) == Some(payload),
{
    let record = record_of(payload);
    lemma_written_record_reads_back(record, 0, payload);
    assert(write_at(record, 0, record) =~= record);
}

/// A payload that one side writes and the other side echoes comes back
/// unchanged: the record written at `there` from what was read at `here`
/// carries the payload that was written at `here`.
pub proof fn lemma_echo_round_trip(memory: Seq<u8>, here: int, there: int, payload: Seq<u8>)
    requires
        payload.len() <= MAX_PAYLOAD,
        0 <= here,
        here + 2 + payload.len() <= memory.len(),
        0 <= there,
        there + 2 + payload.len() <= memory.len(),
    ensures
        ({
            let sent = write_at(memory, here, record_of(payload));
            let received = record_at(sent, here);
            &&& received == Some(payload)
            &&& record_at(write_at(sent, there, record_of(received->0)), there) == Some(payload)
        }),
{
    let sent = write_at(memory, here, record_of(payload));
    lemma_written_record_reads_back(memory, here, payload);
    lemma_written_record_reads_back(sent, there, payload);
}

} // verus!
