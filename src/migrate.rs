//! Turning the records of one window into target rows: each record's block
//! must have decoded, or the window yields no rows at all.
use vstd::prelude::*;
use crate::block::{Block, Operation, amount, amount_spec, bytes_view, fee, fee_spec, from, from_spec, to, to_spec};

verus! {

/// A block as the source store holds it: its index, content hash, encoded
/// bytes and whether consensus has confirmed it.
#[derive(Clone, Debug, PartialEq, Eq)]
pub struct SourceRecord {
    pub idx: u64,
    pub hash: Vec<u8>,
    pub block: Vec<u8>,
    pub verified: bool,
}

/// One flattened row of the target table. Times are nanoseconds since the
/// Unix epoch; the store converts them to seconds as it writes.
#[derive(Clone, Debug, PartialEq, Eq)]
pub struct TargetRow {
    pub idx: u64,
    pub hash: Vec<u8>,
    pub parent_hash: Option<Vec<u8>>,
    pub memo: u64,
    pub created_at_time: u64,
    pub from_account: Option<Vec<u8>>,
    pub to_account: Option<Vec<u8>>,
    pub amount: u64,
    pub fee: Option<u64>,
    pub timestamp: u64,
    pub verified: bool,
}

/// A record read from the source, with the outcome of decoding its bytes.
#[derive(Debug)]
pub struct FetchedBlock {
    pub record: SourceRecord,
    pub decoded: Result<Block, String>,
}

/// Why a window could not be migrated.
#[derive(Clone, Debug, PartialEq, Eq)]
pub enum SyncError {
    /// The block at `idx` did not decode; `raw` is its encoded bytes.
    Decode { idx: u64, raw: Vec<u8>, reason: String },
}

/// `row` is the flattening of `block`, decoded from `rec`.
pub open spec fn is_row_of(row: TargetRow, rec: SourceRecord, block: Block) -> bool {
    let op = block.transaction.operation;
    &&& row.idx == rec.idx
    &&& row.hash@ == rec.hash@
    &&& bytes_view(row.parent_hash) == bytes_view(block.parent_hash)
    &&& row.memo == block.transaction.memo
    &&& row.created_at_time == block.transaction.created_at_time
    &&& bytes_view(row.from_account) == from_spec(op)
    &&& bytes_view(row.to_account) == to_spec(op)
    &&& row.amount == amount_spec(op)
    &&& row.fee == fee_spec(op)
    &&& row.timestamp == block.timestamp
    &&& row.verified == rec.verified
}

/// Each row is the flattening of the record at its position.
pub open spec fn rows_match(rows: Seq<TargetRow>, fetched: Seq<FetchedBlock>) -> bool {
    &&& rows.len() == fetched.len()
    &&& forall|i: int|
        0 <= i < fetched.len() ==> is_row_of(
            #[trigger] rows[i],
            fetched[i].record,
            fetched[i].decoded->Ok_0,
        )
}

/// Every block of `fetched` decoded.
pub open spec fn all_decoded(fetched: Seq<FetchedBlock>) -> bool {
    forall|i: int| 0 <= i < fetched.len() ==> (#[trigger] fetched[i]).decoded is Ok
}

/// `e` reports the record at position `i` of `fetched`, which is the first
/// whose block did not decode.
pub open spec fn reports_first_failure(e: SyncError, fetched: Seq<FetchedBlock>, i: int) -> bool {
    &&& 0 <= i < fetched.len()
    &&& all_decoded(fetched.take(i))
    &&& fetched[i].decoded is Err
    &&& match e {
        SyncError::Decode { idx, raw, reason } => {
            &&& idx == fetched[i].record.idx
            &&& raw@ == fetched[i].record.block@
            &&& reason@ == fetched[i].decoded->Err_0@
        },
    }
}

fn clone_bytes(o: &Option<Vec<u8>>) -> (r: Option<Vec<u8>>)
    ensures
        bytes_view(r) == bytes_view(*o),
{
    match o {
        Some(v) => Some(v.clone()),
        None => None,
    }
}

/// Flattens a decoded block into the row that the target stores for it.
pub fn to_target_row(rec: &SourceRecord, block: &Block) -> (r: TargetRow)
    ensures
        is_row_of(r, *rec, *block),
{
    let op: &Operation = &block.transaction.operation;
    TargetRow {
        idx: rec.idx,
        hash: rec.hash.clone(),
        parent_hash: clone_bytes(&block.parent_hash),
        memo: block.transaction.memo,
        created_at_time: block.transaction.created_at_time,
        from_account: from(op),
        to_account: to(op),
        amount: amount(op),
        fee: fee(op),
        timestamp: block.timestamp,
        verified: rec.verified,
    }
}

/// The rows for one window, in the order of its records; or, where some
/// block did not decode, the first such record and no rows.
pub fn migrate_window(fetched: &Vec<FetchedBlock>) -> (r: Result<Vec<TargetRow>, SyncError>)
    ensures
        r is Ok <==> all_decoded(fetched@),
        r matches Ok(rows) ==> rows_match(rows@, fetched@),
        r is Err ==> exists|i: int| reports_first_failure(r->Err_0, fetched@, i),
{
    let mut rows: Vec<TargetRow> = Vec::new();
    let mut i: usize = 0;
    while i < fetched.len()
        invariant
            i <= fetched.len(),
            rows.len() == i,
            all_decoded(fetched@.take(i as int)),
            forall|j: int|
                0 <= j < i ==> is_row_of(
                    #[trigger] rows[j],
                    fetched[j].record,
                    fetched[j].decoded->Ok_0,
                ),
        decreases fetched.len() - i,
    {
        let f = &fetched[i];
        match &f.decoded {
            Ok(block) => {
                rows.push(to_target_row(&f.record, block));
            },
            Err(msg) => {
                let e = SyncError::Decode {
                    idx: f.record.idx,
                    raw: f.record.block.clone(),
                    reason: msg.clone(),
                };
                let r: Result<Vec<TargetRow>, SyncError> = Err(e);
                assert(reports_first_failure(r->Err_0, fetched@, i as int));
                return r;
            },
        }
        proof {
            assert forall|j: int| 0 <= j < i + 1 implies (#[trigger] fetched@.take(i + 1)[j]).decoded is Ok by {
                if j < i {
                    assert(fetched@.take(i + 1)[j] == fetched@.take(i as int)[j]);
                }
            }
        }
        i = i + 1;
    }
    assert(fetched@.take(i as int) =~= fetched@);
    Ok(rows)
}

} // verus!
