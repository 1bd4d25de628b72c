//! The decoded form of a ledger block and the flattening of its operation
//! into the fixed (from, to, amount, fee) columns.
use vstd::prelude::*;

verus! {

/// The effect of a block's transaction. Accounts are raw identifier bytes;
/// amounts and fees are in e8s.
#[derive(Clone, Debug, PartialEq, Eq)]
pub enum Operation {
    Burn { from: Vec<u8>, amount: u64 },
    Mint { to: Vec<u8>, amount: u64 },
    Transfer { from: Vec<u8>, to: Vec<u8>, amount: u64, fee: u64 },
}

/// The source account column: present for burns and transfers.
pub open spec fn from_spec(op: Operation) -> Option<Seq<u8>> {
    match op {
        Operation::Burn { from, .. } => Some(from@),
        Operation::Mint { .. } => None,
        Operation::Transfer { from, .. } => Some(from@),
    }
}

/// The destination account column: present for mints and transfers.
pub open spec fn to_spec(op: Operation) -> Option<Seq<u8>> {
    match op {
        Operation::Burn { .. } => None,
        Operation::Mint { to, .. } => Some(to@),
        Operation::Transfer { to, .. } => Some(to@),
    }
}

/// The amount column, which every operation has.
pub open spec fn amount_spec(op: Operation) -> u64 {
    match op {
        Operation::Burn { amount, .. } => amount,
        Operation::Mint { amount, .. } => amount,
        Operation::Transfer { amount, .. } => amount,
    }
}

/// The fee column: present for transfers only.
pub open spec fn fee_spec(op: Operation) -> Option<u64> {
    match op {
        Operation::Transfer { fee, .. } => Some(fee),
        _ => None,
    }
}

/// The bytes an optional byte vector holds.
pub open spec fn bytes_view(o: Option<Vec<u8>>) -> Option<Seq<u8>> {
    match o {
        Some(v) => Some(v@),
        None => None,
    }
}

/// The account an operation takes tokens from, if it has one.
pub fn from(op: &Operation) -> (r: Option<Vec<u8>>)
    ensures
        bytes_view(r) == from_spec(*op),
{
    match op {
        Operation::Burn { from, .. } => Some(from.clone()),
        Operation::Mint { .. } => None,
        Operation::Transfer { from, .. } => Some(from.clone()),
    }
}

/// The account an operation credits, if it has one.
pub fn to(op: &Operation) -> (r: Option<Vec<u8>>)
    ensures
        bytes_view(r) == to_spec(*op),
{
    match op {
        Operation::Burn { .. } => None,
        Operation::Mint { to, .. } => Some(to.clone()),
        Operation::Transfer { to, .. } => Some(to.clone()),
    }
}

/// The amount an operation moves, in e8s.
pub fn amount(op: &Operation) -> (r: u64)
    ensures
        r == amount_spec(*op),
{
    match op {
        Operation::Burn { amount, .. } => *amount,
        Operation::Mint { amount, .. } => *amount,
        Operation::Transfer { amount, .. } => *amount,
    }
}

/// The fee an operation charges, in e8s: transfers only.
pub fn fee(op: &Operation) -> (r: Option<u64>)
    ensures
        r == fee_spec(*op),
{
    match op {
        Operation::Burn { .. } => None,
        Operation::Mint { .. } => None,
        Operation::Transfer { fee, .. } => Some(*fee),
    }
}

/// A transaction: its operation, the caller's memo and the creation time it
/// claims, in nanoseconds since the Unix epoch.
#[derive(Clone, Debug, PartialEq, Eq)]
pub struct Transaction {
    pub operation: Operation,
    pub memo: u64,
    pub created_at_time: u64,
}

/// A decoded ledger block: the hash of its parent (absent for the first
/// block), its transaction and the time the ledger took it, in nanoseconds
/// since the Unix epoch.
#[derive(Clone, Debug, PartialEq, Eq)]
pub struct Block {
    pub parent_hash: Option<Vec<u8>>,
    pub transaction: Transaction,
    pub timestamp: u64,
}

} // verus!
