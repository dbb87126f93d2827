//! What a step asks of a wallet when it moves funds, and what it makes of
//! the wallet's answer.

use crate::error::HarnessError;
use crate::text::{decimal, push_decimal, push_text};
use crate::world::World;
use vstd::prelude::*;

verus! {

/// The fee per gram of a transfer that is given in whole units.
pub const UNIT_TRANSFER_FEE: u64 = 10;

/// How a payment reaches its recipient.
#[derive(Clone, Copy, Debug, PartialEq, Eq, Structural)]
pub enum PaymentType {
    /// Sender and recipient build the transaction together.
    Standard,
    /// The sender builds the transaction alone.
    OneSided,
}

impl PaymentType {
    /// The number by which a wallet knows this kind of payment.
    pub open spec fn spec_code(&self) -> i32 {
        match self {
            PaymentType::Standard => 0,
            PaymentType::OneSided => 1,
        }
    }

    /// The number by which a wallet knows this kind of payment.
    #[verifier::when_used_as_spec(spec_code)]
    pub fn code(&self) -> (c: i32)
        ensures
            c == self.spec_code(),
    {
        match self {
            PaymentType::Standard => 0,
            PaymentType::OneSided => 1,
        }
    }
}

/// What a payment is made for. The memo of the payment says so.
#[derive(Clone, Debug)]
pub enum Purpose {
    /// A transfer from the wallet `from` to the wallet `to`.
    Transfer { from: String, to: String },
    /// A one-sided transfer from the wallet `from` to the wallet `to`.
    OneSided { from: String, to: String },
    /// A transfer of the wallet `from` to itself.
    ToSelf { from: String },
    /// An atomic swap between the wallets `from` and `to`.
    AtomicSwap { from: String, to: String },
}

/// One recipient of a transfer, as the wallet is told.
#[derive(Clone, Debug, PartialEq, Eq)]
pub struct PaymentRecipient {
    pub address: String,
    pub amount: u64,
    pub fee_per_gram: u64,
    pub message: String,
    pub payment_type: PaymentType,
}

/// What a wallet answers for one recipient of a transfer.
#[derive(Clone, Debug)]
pub struct TransferResult {
    pub is_success: bool,
    pub transaction_id: u64,
    pub failure_message: String,
}

/// The memo of a payment of `amount` at the fee `fee`.
pub open spec fn memo_text(purpose: Purpose, amount: u64, fee: u64) -> Seq<char> {
    match purpose {
        Purpose::Transfer { from, to } => "transfer amount "@ + decimal(amount as nat) + " from "@
            + from@ + " to "@ + to@,
        Purpose::OneSided { from, to } => "One sided transfer amount "@ + decimal(amount as nat)
            + " from "@ + from@ + " to "@ + to@,
        Purpose::ToSelf { from } => "transfer amount "@ + decimal(amount as nat) + " from "@
            + from@ + " to self"@,
        Purpose::AtomicSwap { from, to } => "Atomic Swap from "@ + from@ + " to "@ + to@
            + " with amount "@ + decimal(amount as nat) + " at fee "@ + decimal(fee as nat),
    }
}

/// The kind of payment that serves a purpose.
pub open spec fn payment_type_of(purpose: Purpose) -> PaymentType {
    match purpose {
        Purpose::OneSided { .. } => PaymentType::OneSided,
        _ => PaymentType::Standard,
    }
}

/// The memo of a payment of `amount` at the fee `fee`.
pub fn memo(purpose: &Purpose, amount: u64, fee: u64) -> (out: String)
    ensures
        out@ == memo_text(*purpose, amount, fee),
{
    let mut out = String::new();
    match purpose {
        Purpose::Transfer { from, to } => {
            push_text(&mut out, "transfer amount ");
            push_decimal(&mut out, amount as u128);
            push_text(&mut out, " from ");
            push_text(&mut out, from.as_str());
            push_text(&mut out, " to ");
            push_text(&mut out, to.as_str());
        },
        Purpose::OneSided { from, to } => {
            push_text(&mut out, "One sided transfer amount ");
            push_decimal(&mut out, amount as u128);
            push_text(&mut out, " from ");
            push_text(&mut out, from.as_str());
            push_text(&mut out, " to ");
            push_text(&mut out, to.as_str());
        },
        Purpose::ToSelf { from } => {
            push_text(&mut out, "transfer amount ");
            push_decimal(&mut out, amount as u128);
            push_text(&mut out, " from ");
            push_text(&mut out, from.as_str());
            push_text(&mut out, " to self");
        },
        Purpose::AtomicSwap { from, to } => {
            push_text(&mut out, "Atomic Swap from ");
            push_text(&mut out, from.as_str());
            push_text(&mut out, " to ");
            push_text(&mut out, to.as_str());
            push_text(&mut out, " with amount ");
            push_decimal(&mut out, amount as u128);
            push_text(&mut out, " at fee ");
            push_decimal(&mut out, fee as u128);
        },
    }
    out
}

/// The recipient at `address` of a payment of `amount` micro units at the
/// fee `fee_per_gram`, made for `purpose`.
pub fn recipient(purpose: &Purpose, address: String, amount: u64, fee_per_gram: u64) -> (r:
    PaymentRecipient)
    ensures
        r.address == address,
        r.amount == amount,
        r.fee_per_gram == fee_per_gram,
        r.message@ == memo_text(*purpose, amount, fee_per_gram),
        r.payment_type == payment_type_of(*purpose),
{
    let payment_type = match purpose {
        Purpose::OneSided { .. } => PaymentType::OneSided,
        _ => PaymentType::Standard,
    };
    PaymentRecipient {
        address,
        amount,
        fee_per_gram,
        message: memo(purpose, amount, fee_per_gram),
        payment_type,
    }
}

/// The recipient at `address` of a transfer of `amount` whole units from the
/// wallet `from` to the wallet `to`: the amount goes out in micro units, at
/// the fee for such transfers, and the memo names the whole units. `None`
/// where the amount does not fit in micro units.
pub fn unit_recipient(from: String, to: String, address: String, amount: u64) -> (r: Option<
    PaymentRecipient,
>)
    ensures
        match r {
            Some(p) => {
                &&& p.address == address
                &&& p.amount == amount * crate::checks::MICRO_PER_UNIT
                &&& p.fee_per_gram == UNIT_TRANSFER_FEE
                &&& p.message@ == memo_text(Purpose::Transfer { from, to }, amount, UNIT_TRANSFER_FEE)
                &&& p.payment_type == PaymentType::Standard
            },
            None => amount * crate::checks::MICRO_PER_UNIT > u64::MAX,
        },
{
    match crate::checks::to_micro(amount) {
        Some(micro) => {
            let purpose = Purpose::Transfer { from, to };
            Some(
                PaymentRecipient {
                    address,
                    amount: micro,
                    fee_per_gram: UNIT_TRANSFER_FEE,
                    message: memo(&purpose, amount, UNIT_TRANSFER_FEE),
                    payment_type: PaymentType::Standard,
                },
            )
        },
        None => None,
    }
}

/// Where the first of `results` stands that is not a success; their number
/// if all are.
pub open spec fn first_failure(results: Seq<TransferResult>) -> int
    decreases results.len(),
{
    if results.len() == 0 {
        0
    } else {
        let before = first_failure(results.drop_last());
        if before < results.len() - 1 || !results.last().is_success {
            before
        } else {
            results.len() as int
        }
    }
}

/// The identifiers of the transactions in `results`.
pub open spec fn ids_of(results: Seq<TransferResult>) -> Seq<u64> {
    Seq::new(results.len(), |i: int| results[i].transaction_id)
}

/// The identifiers of the transactions that a transfer to `expected`
/// recipients has led to. The transfer has failed, as a call that is made
/// once, if the wallet answers for another number of recipients, or if it
/// reports a failure for one of them: the first such failure is the reason.
pub fn accepted(results: &Vec<TransferResult>, expected: usize) -> (r: Result<Vec<u64>, HarnessError>)
    ensures
        match r {
            Ok(ids) => results.len() == expected && first_failure(results@) == results.len()
                && ids@ == ids_of(results@),
            Err(e) => {
                &&& e matches HarnessError::RpcCallFailed { reason }
                &&& if results.len() != expected {
                    reason@ == "wallet answered for "@ + decimal(results.len() as nat)
                        + " recipients instead of "@ + decimal(expected as nat)
                } else {
                    first_failure(results@) < results.len() && reason@
                        == results[first_failure(results@)].failure_message@
                }
            },
        },
{
    if results.len() != expected {
        let mut reason = String::new();
        push_text(&mut reason, "wallet answered for ");
        push_decimal(&mut reason, results.len() as u128);
        push_text(&mut reason, " recipients instead of ");
        push_decimal(&mut reason, expected as u128);
        return Err(HarnessError::RpcCallFailed { reason });
    }
    let mut ids: Vec<u64> = Vec::new();
    let mut i: usize = 0;
    assert(results@.take(0) =~= Seq::<TransferResult>::empty());
    while i < results.len()
        invariant
            i <= results.len(),
            results.len() == expected,
            first_failure(results@.take(i as int)) == i,
            ids@ == ids_of(results@.take(i as int)),
        decreases results.len() - i,
    {
        proof {
            assert(results@.take(i + 1).drop_last() =~= results@.take(i as int));
        }
        if !results[i].is_success {
            proof {
                lemma_failure_stays(results@, i as int);
            }
            return Err(
                HarnessError::RpcCallFailed { reason: results[i].failure_message.clone() },
            );
        }
        ids.push(results[i].transaction_id);
        assert(ids@ =~= ids_of(results@.take(i + 1)));
        i += 1;
    }
    assert(results@.take(results.len() as int) =~= results@);
    Ok(ids)
}

/// A failure that is the first among the results up to it is the first of all.
pub proof fn lemma_failure_stays(results: Seq<TransferResult>, i: int)
    requires
        0 <= i < results.len(),
        first_failure(results.take(i)) == i,
        !results[i].is_success,
    ensures
        first_failure(results) == i,
    decreases results.len(),
{
    if results.len() - 1 == i {
        assert(results.drop_last() =~= results.take(i));
    } else {
        assert(results.drop_last().take(i) =~= results.take(i));
        lemma_failure_stays(results.drop_last(), i);
    }
}

/// Notes a transaction between two wallets: its identifier becomes the last
/// of the sender's and then the last of the receiver's.
pub fn note_transfer(world: &mut World, sender: String, receiver: String, tx_id: u64)
    requires
        old(world).wf(),
    ensures
        final(world).wf(),
        old(world).same_actors(*final(world)),
        old(world).same_records(*final(world)),
        (final(world).tx_id_owners(), final(world).tx_id_lists()) == ({
            let sent = World::noted(
                old(world).tx_id_owners(),
                old(world).tx_id_lists(),
                sender@,
                tx_id,
            );
            World::noted(sent.0, sent.1, receiver@, tx_id)
        }),
{
    world.record_tx_id(sender, tx_id);
    world.record_tx_id(receiver, tx_id);
}

} // verus!
