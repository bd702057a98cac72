//! The records that the sync moves around, and the ids by which they are known.
use vstd::prelude::*;

verus! {

/// The tag under which history records are stored.
pub const HISTORY_TAG: &'static str = "history";

/// The id of a record, or of a packfile on the server: the 128 bits of a UUID.
#[derive(Debug, Clone, Copy, PartialEq, Eq, Structural)]
pub struct RecordId(pub u128);

/// The id of a host: the 128 bits of a UUID.
#[derive(Debug, Clone, Copy, PartialEq, Eq, Structural)]
pub struct HostId(pub u128);

/// The host on which a record was written.
#[derive(Debug, Clone, Copy, PartialEq, Eq, Structural)]
pub struct Host {
    pub id: HostId,
}

impl Host {
    pub fn new(id: HostId) -> (host: Host)
        ensures
            host == (Host { id }),
    {
        Host { id }
    }
}

/// One record of a host's log under `tag`, at position `idx`, with a payload of type `D`. Whatever
/// else a record carries travels in its payload.
#[derive(Debug, Clone)]
pub struct Record<D> {
    pub id: RecordId,
    pub idx: u64,
    pub host: Host,
    pub version: String,
    pub tag: String,
    pub data: D,
}

/// A payload as it is stored and synced. A packfile manifest keeps its body, in plain text, in
/// `raw`.
#[derive(Debug, Clone)]
pub struct EncryptedData {
    pub raw: String,
    pub cek: String,
}

/// A payload in the clear.
#[derive(Debug, Clone)]
pub struct DecryptedData(pub Vec<u8>);

/// The mathematical value of a list that may have failed to come.
pub open spec fn list_of<T, E>(reply: Result<Vec<T>, E>) -> Result<Seq<T>, E> {
    match reply {
        Ok(items) => Ok(items@),
        Err(error) => Err(error),
    }
}

/// The ids of `records`, in order.
pub open spec fn ids_of<D>(records: Seq<Record<D>>) -> Seq<RecordId> {
    records.map_values(|record: Record<D>| record.id)
}

/// Collects the ids of `records`, in order.
pub fn record_ids<D>(records: &[Record<D>]) -> (ids: Vec<RecordId>)
    ensures
        ids@ == ids_of(records@),
{
    let mut ids: Vec<RecordId> = Vec::with_capacity(records.len());
    for i in 0..records.len()
        invariant
            ids@ == ids_of(records@.take(i as int)),
    {
        ids.push(records[i].id);
        assert(records@.take(i + 1) =~= records@.take(i as int).push(records@[i as int]));
    }
    assert(records@.take(records.len() as int) =~= records@);
    ids
}

} // verus!
