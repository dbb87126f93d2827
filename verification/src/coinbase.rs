//! Counting the coinbase transactions of a wallet.

use crate::codes::STATUS_MINED_CONFIRMED;
use crate::text::{contains_text, has_text, same_text};
use vstd::prelude::*;

verus! {

/// How a count is held against the wanted number.
#[derive(Clone, Copy, Debug, PartialEq, Eq, Structural)]
pub enum Comparison {
    AtLeast,
    Exactly,
}

/// The comparison that is called `name`.
pub open spec fn comparison_named(name: Seq<char>) -> Option<Comparison> {
    if name == "AT_LEAST"@ {
        Some(Comparison::AtLeast)
    } else if name == "EXACTLY"@ {
        Some(Comparison::Exactly)
    } else {
        None
    }
}

impl Comparison {
    /// The comparison that is called `name`; `None` for any other name.
    pub fn parse(name: &str) -> (r: Option<Comparison>)
        ensures
            r == comparison_named(name@),
    {
        if same_text(name, "AT_LEAST") {
            Some(Comparison::AtLeast)
        } else if same_text(name, "EXACTLY") {
            Some(Comparison::Exactly)
        } else {
            None
        }
    }

    /// Whether `count` meets `wanted` under this comparison.
    pub open spec fn spec_met(&self, count: u64, wanted: u64) -> bool {
        match self {
            Comparison::AtLeast => count >= wanted,
            Comparison::Exactly => count == wanted,
        }
    }

    /// Whether `count` meets `wanted` under this comparison.
    #[verifier::when_used_as_spec(spec_met)]
    pub fn met(&self, count: u64, wanted: u64) -> (yes: bool)
        ensures
            yes == self.spec_met(count, wanted),
    {
        match self {
            Comparison::AtLeast => count >= wanted,
            Comparison::Exactly => count == wanted,
        }
    }
}

/// Whether a transaction with the memo `message` and the fee `fee` is the
/// reward of a block.
pub open spec fn is_coinbase(message: Seq<char>, fee: u64) -> bool {
    has_text(message, "Coinbase Transaction for Block "@) && fee == 0
}

/// Whether a transaction with the memo `message` and the fee `fee` is the
/// reward of a block.
pub fn coinbase(message: &str, fee: u64) -> (yes: bool)
    ensures
        yes == is_coinbase(message@, fee),
{
    contains_text(message, "Coinbase Transaction for Block ") && fee == 0
}

/// A completed transaction of a wallet, as far as the count reads it.
#[derive(Clone, Debug)]
pub struct CompletedTx {
    pub message: String,
    pub fee: u64,
    pub status: i32,
}

/// The coinbase transactions that were seen, and those of them that are
/// confirmed and can be spent. The count goes on from one look at a wallet to
/// the next, and from one wallet to the next.
#[derive(Clone, Copy, Debug, PartialEq, Eq, Structural)]
pub struct CoinbaseCount {
    pub seen: u64,
    pub spendable: u64,
}

/// The count `count` after the transaction `tx`.
pub open spec fn counted(count: CoinbaseCount, tx: CompletedTx) -> CoinbaseCount {
    if is_coinbase(tx.message@, tx.fee) {
        CoinbaseCount {
            seen: (count.seen + 1) as u64,
            spendable: if tx.status == STATUS_MINED_CONFIRMED {
                (count.spendable + 1) as u64
            } else {
                count.spendable
            },
        }
    } else {
        count
    }
}

/// The count `count` after the transactions `txs`, one after the other.
pub open spec fn counted_all(count: CoinbaseCount, txs: Seq<CompletedTx>) -> CoinbaseCount
    decreases txs.len(),
{
    if txs.len() == 0 {
        count
    } else {
        counted(counted_all(count, txs.drop_last()), txs.last())
    }
}

impl CoinbaseCount {
    /// A count of nothing.
    pub fn new() -> (c: CoinbaseCount)
        ensures
            c == (CoinbaseCount { seen: 0, spendable: 0 }),
    {
        CoinbaseCount { seen: 0, spendable: 0 }
    }

    /// Takes the transactions `txs` of one look at a wallet into the count.
    pub fn note(&mut self, txs: &Vec<CompletedTx>)
        requires
            old(self).seen + txs.len() <= u64::MAX,
            old(self).spendable + txs.len() <= u64::MAX,
        ensures
            *final(self) == counted_all(*old(self), txs@),
    {
        let mut i: usize = 0;
        assert(txs@.take(0) =~= Seq::<CompletedTx>::empty());
        while i < txs.len()
            invariant
                i <= txs.len(),
                *self == counted_all(*old(self), txs@.take(i as int)),
                self.seen <= old(self).seen + i,
                self.spendable <= old(self).spendable + i,
                old(self).seen + txs.len() <= u64::MAX,
                old(self).spendable + txs.len() <= u64::MAX,
            decreases txs.len() - i,
        {
            assert(txs@.take(i + 1).drop_last() =~= txs@.take(i as int));
            if coinbase(txs[i].message.as_str(), txs[i].fee) {
                self.seen = self.seen + 1;
                if txs[i].status == STATUS_MINED_CONFIRMED {
                    self.spendable = self.spendable + 1;
                }
            }
            i += 1;
        }
        assert(txs@.take(txs.len() as int) =~= txs@);
    }
}

/// How the connections of a wallet stand against the wanted number.
#[derive(Clone, Copy, Debug, PartialEq, Eq, Structural)]
pub enum Connections {
    /// Fewer than wanted: the wait goes on.
    TooFew,
    /// As many as wanted: the step holds.
    Met,
    /// More than wanted: the wait ends, and the step fails.
    TooMany,
}

/// How `actual` connections stand against the `wanted` ones.
pub fn connections(actual: u32, wanted: u64) -> (r: Connections)
    ensures
        r == if actual < wanted {
            Connections::TooFew
        } else if actual == wanted {
            Connections::Met
        } else {
            Connections::TooMany
        },
{
    if (actual as u64) < wanted {
        Connections::TooFew
    } else if actual as u64 == wanted {
        Connections::Met
    } else {
        Connections::TooMany
    }
}

} // verus!
