use crate::address::Address;
use crate::error::EscrowError;
use crate::wire::{
    fits_prefix, get_le, get_text, le_bytes, le_value, lemma_le_bytes_len, lemma_le_bytes_of_value,
    lemma_le_limits, lemma_le_value_bound, lemma_le_value_of_bytes, lemma_parse_text_of_wire,
    lemma_wire_of_parse_text, parse_text, put_bytes, put_le, put_text, text_wire,
};
use vstd::prelude::*;
use vstd::utf8::encode_utf8;

verus! {

/// The first byte of a stored record. It is written as zero and not read.
pub const RECORD_TAG: u8 = 0;

/// The bytes of a record besides its contract id: the tag, the length
/// prefix, two addresses and two 64-bit integers.
pub const RECORD_FIXED_LEN: usize = 85;

/// The persisted state of one escrow.
#[derive(Debug, Clone, PartialEq, Eq)]
pub struct ContractData {
    /// The caller's name for the contract; a seed of the record address.
    pub contract_id: String,
    /// The payer.
    pub owner: Address,
    /// The beneficiary.
    pub worker: Address,
    /// The deposit, fixed at creation.
    pub total_quantity: u64,
    /// How many installments have been released: 0 to 3.
    pub actual_step: u64,
}

/// A record as plain values.
pub struct RecordView {
    pub contract_id: Seq<char>,
    pub owner: Seq<u8>,
    pub worker: Seq<u8>,
    pub total_quantity: u64,
    pub actual_step: u64,
}

impl View for ContractData {
    type V = RecordView;

    open spec fn view(&self) -> RecordView {
        RecordView {
            contract_id: self.contract_id@,
            owner: self.owner@,
            worker: self.worker@,
            total_quantity: self.total_quantity,
            actual_step: self.actual_step,
        }
    }
}

impl RecordView {
    /// A record can be stored when its contract id fits a 32-bit length
    /// prefix and its addresses have 32 bytes.
    pub open spec fn storable(self) -> bool {
        fits_prefix(self.contract_id) && self.owner.len() == 32 && self.worker.len() == 32
    }
}

/// The bytes that the record of this contract id takes.
pub open spec fn record_size(contract_id: Seq<char>) -> nat {
    1 + 4 + encode_utf8(contract_id).len() + 32 + 32 + 8 + 8
}

/// A record in storage: the tag, the contract id as a length-prefixed
/// string, the two addresses, then deposit and step as eight little-endian
/// bytes each.
pub open spec fn record_wire(record: RecordView) -> Seq<u8> {
    seq![RECORD_TAG] + text_wire(record.contract_id) + record.owner + record.worker + le_bytes(
        record.total_quantity as nat,
        8,
    ) + le_bytes(record.actual_step as nat, 8)
}

/// The record at the head of `data`; `None` where the data are shorter than
/// the record they announce, or the contract id is no string. Bytes behind
/// the record are left alone.
pub open spec fn parse_record(data: Seq<u8>) -> Option<RecordView> {
    if data.len() < 1 {
        None
    } else {
        match parse_text(data.skip(1)) {
            Some((contract_id, taken)) => {
                let keys: int = 1 + taken as int;
                if data.len() < keys + 80 {
                    None
                } else {
                    Some(
                        RecordView {
                            contract_id,
                            owner: data.subrange(keys, keys + 32),
                            worker: data.subrange(keys + 32, keys + 64),
                            total_quantity: le_value(data.subrange(keys + 64, keys + 72)) as u64,
                            actual_step: le_value(data.subrange(keys + 72, keys + 80)) as u64,
                        },
                    )
                }
            },
            None => None,
        }
    }
}

/// `data` after `record` was stored over its head.
pub open spec fn stored(data: Seq<u8>, record: RecordView) -> Seq<u8> {
    record_wire(record) + data.skip(record_size(record.contract_id) as int)
}

/// A stored record takes exactly the size computed from its contract id.
pub proof fn lemma_record_wire_len(record: RecordView)
    requires
        record.storable(),
    ensures
        record_wire(record).len() == record_size(record.contract_id),
{
    lemma_le_bytes_len(encode_utf8(record.contract_id).len(), 4);
    lemma_le_bytes_len(record.total_quantity as nat, 8);
    lemma_le_bytes_len(record.actual_step as nat, 8);
}

/// A record that was stored is read back, whatever follows it.
pub proof fn lemma_parse_record_of_wire(record: RecordView, rest: Seq<u8>)
    requires
        record.storable(),
    ensures
        parse_record(record_wire(record) + rest) == Some(record),
{
    let data = record_wire(record) + rest;
    let total = le_bytes(record.total_quantity as nat, 8);
    let step = le_bytes(record.actual_step as nat, 8);
    let behind = record.owner + record.worker + total + step + rest;
    let taken = text_wire(record.contract_id).len();
    let keys: int = 1 + taken as int;
    lemma_parse_text_of_wire(record.contract_id, behind);
    lemma_le_bytes_len(record.total_quantity as nat, 8);
    lemma_le_bytes_len(record.actual_step as nat, 8);
    lemma_le_limits();
    lemma_le_value_of_bytes(record.total_quantity as nat, 8);
    lemma_le_value_of_bytes(record.actual_step as nat, 8);
    assert(data.skip(1) =~= text_wire(record.contract_id) + behind);
    assert(data.subrange(keys, keys + 32) =~= record.owner);
    assert(data.subrange(keys + 32, keys + 64) =~= record.worker);
    assert(data.subrange(keys + 64, keys + 72) =~= total);
    assert(data.subrange(keys + 72, keys + 80) =~= step);
}

/// What is read from storage is what is stored there: behind the tag, the
/// bytes that a parsed record takes are its stored form.
pub proof fn lemma_wire_of_parse_record(data: Seq<u8>, record: RecordView)
    requires
        parse_record(data) == Some(record),
    ensures
        record.storable(),
        record_size(record.contract_id) <= data.len(),
        data.subrange(1, record_size(record.contract_id) as int) == record_wire(record).skip(1),
{
    let taken = parse_text(data.skip(1)).unwrap().1;
    let keys: int = 1 + taken as int;
    let total = data.subrange(keys + 64, keys + 72);
    let step = data.subrange(keys + 72, keys + 80);
    lemma_wire_of_parse_text(data.skip(1), record.contract_id, taken);
    lemma_parse_text_of_wire(record.contract_id, Seq::empty());
    lemma_le_value_bound(total);
    lemma_le_value_bound(step);
    lemma_le_limits();
    lemma_le_bytes_of_value(total);
    lemma_le_bytes_of_value(step);
    assert(data.skip(1).subrange(0, taken as int) =~= data.subrange(1, keys));
    assert(data.subrange(1, record_size(record.contract_id) as int) =~= data.subrange(1, keys)
        + record.owner + record.worker + total + step);
    assert(record_wire(record).skip(1) =~= text_wire(record.contract_id) + record.owner
        + record.worker + le_bytes(record.total_quantity as nat, 8) + le_bytes(
        record.actual_step as nat,
        8,
    ));
}

/// Storing a record over data that hold a record of the same contract id
/// keeps the length of the data, and the stored record is read back.
pub proof fn lemma_parse_record_of_stored(data: Seq<u8>, record: RecordView)
    requires
        record.storable(),
        record_size(record.contract_id) <= data.len(),
    ensures
        stored(data, record).len() == data.len(),
        parse_record(stored(data, record)) == Some(record),
{
    lemma_record_wire_len(record);
    lemma_parse_record_of_wire(record, data.skip(record_size(record.contract_id) as int));
}

/// Reads the address that stands at `start` in `bytes`.
fn get_address(bytes: &[u8], start: usize) -> (address: Address)
    requires
        start + 32 <= bytes@.len(),
    ensures
        address@ == bytes@.subrange(start as int, start + 32),
{
    let len = bytes.len();
    let mut address: Address = [0u8; 32];
    let mut i: usize = 0;
    while i < 32
        invariant
            i <= 32,
            start + 32 <= len == bytes@.len(),
            forall|j: int| 0 <= j < i ==> address@[j] == bytes@[start + j],
        decreases 32 - i,
    {
        address[i] = bytes[start + i];
        i += 1;
    }
    assert(address@ =~= bytes@.subrange(start as int, start + 32));
    address
}

impl ContractData {
    /// The storage that the record of `contract_id` needs:
    /// `1 + 4 + len(contract_id) + 32 + 32 + 8 + 8` bytes, the length in
    /// bytes of UTF-8. A contract id too long for the length prefix, or for
    /// the size to be a `usize`, has no record.
    pub fn get_account_size(contract_id: &str) -> (size: Result<usize, EscrowError>)
        ensures
            match size {
                Ok(n) => fits_prefix(contract_id@) && n == record_size(contract_id@),
                Err(e) => e == EscrowError::MalformedRecord && (!fits_prefix(contract_id@)
                    || record_size(contract_id@) > usize::MAX),
            },
    {
        let len = contract_id.as_bytes().len();
        if len > 0xffff_ffff || len > usize::MAX - RECORD_FIXED_LEN {
            Err(EscrowError::MalformedRecord)
        } else {
            Ok(len + RECORD_FIXED_LEN)
        }
    }

    /// The stored form of this record.
    pub fn serialize(&self) -> (bytes: Result<Vec<u8>, EscrowError>)
        ensures
            match bytes {
                Ok(b) => self@.storable() && b@ == record_wire(self@),
                Err(e) => e == EscrowError::MalformedRecord && (!self@.storable() || record_size(
                    self@.contract_id,
                ) > usize::MAX),
            },
    {
        let size = match ContractData::get_account_size(self.contract_id.as_str()) {
            Ok(size) => size,
            Err(e) => { return Err(e); },
        };
        let mut out: Vec<u8> = Vec::with_capacity(size);
        out.push(RECORD_TAG);
        put_text(&mut out, self.contract_id.as_str());
        put_bytes(&mut out, self.owner.as_slice());
        put_bytes(&mut out, self.worker.as_slice());
        put_le(&mut out, self.total_quantity, 8);
        put_le(&mut out, self.actual_step, 8);
        assert(out@ =~= record_wire(self@));
        Ok(out)
    }

    /// Reads the record at the head of `data`.
    pub fn deserialize(data: &[u8]) -> (decoded: Result<ContractData, EscrowError>)
        ensures
            match parse_record(data@) {
                Some(record) => decoded matches Ok(contract) && contract@ == record,
                None => decoded matches Err(e) && e == EscrowError::MalformedRecord,
            },
    {
        let len = data.len();
        if len < 1 {
            return Err(EscrowError::MalformedRecord);
        }
        assert(data@.skip(1).len() == len - 1);
        match get_text(data, 1) {
            None => Err(EscrowError::MalformedRecord),
            Some((contract_id, keys)) => {
                if len - keys < 80 {
                    return Err(EscrowError::MalformedRecord);
                }
                let owner = get_address(data, keys);
                let worker = get_address(data, keys + 32);
                let total_quantity = get_le(data, keys + 64, 8);
                let actual_step = get_le(data, keys + 72, 8);
                proof {
                    lemma_le_value_bound(data@.subrange(keys + 64, keys + 72));
                    lemma_le_value_bound(data@.subrange(keys + 72, keys + 80));
                    lemma_le_limits();
                }
                Ok(ContractData { contract_id, owner, worker, total_quantity, actual_step })
            },
        }
    }

    /// Stores this record over the head of `data`, which keep their length.
    /// Data too short for the record are left as they are.
    pub fn store(&self, data: &mut Vec<u8>) -> (done: Result<(), EscrowError>)
        ensures
            match done {
                Ok(()) => self@.storable() && record_size(self@.contract_id) <= old(data)@.len()
                    && final(data)@ == stored(old(data)@, self@),
                Err(e) => e == EscrowError::MalformedRecord && final(data)@ == old(data)@ && (
                !self@.storable() || record_size(self@.contract_id) > old(data)@.len()),
            },
    {
        let room = data.len();
        let bytes = match self.serialize() {
            Ok(bytes) => bytes,
            Err(e) => { return Err(e); },
        };
        proof {
            lemma_record_wire_len(self@);
        }
        let size = bytes.len();
        if room < size {
            return Err(EscrowError::MalformedRecord);
        }
        let mut i: usize = 0;
        while i < size
            invariant
                i <= size == bytes@.len(),
                size <= data@.len() == old(data)@.len(),
                data@ == bytes@.subrange(0, i as int) + old(data)@.skip(i as int),
            decreases size - i,
        {
            data[i] = bytes[i];
            i += 1;
            assert(data@ =~= bytes@.subrange(0, i as int) + old(data)@.skip(i as int));
        }
        assert(bytes@.subrange(0, size as int) =~= bytes@);
        Ok(())
    }
}

} // verus!
