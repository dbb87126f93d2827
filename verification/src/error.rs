//! The ways in which a step of a scenario can fail.

use crate::text::{decimal, push_decimal, push_text};
use crate::world::ActorKind;
use vstd::prelude::*;

verus! {

/// Why a step of a scenario failed.
#[derive(Debug, PartialEq, Eq)]
pub enum HarnessError {
    /// No actor of that kind is registered under that name.
    ActorNotFound { kind: ActorKind, name: String },
    /// An actor of that kind is registered under that name already.
    AlreadyRegistered { kind: ActorKind, name: String },
    /// A claim or refund was asked for while no swap is pending.
    NoPendingSwap,
    /// Neither a base node nor a wallet answered under the name.
    ClientNotFound { reason: String },
    /// The process did not accept connections in time.
    ProcessStartupTimeout { kind: ActorKind, name: String },
    /// What a step waited for did not come about within its retries; the
    /// values are those of the last observation.
    AssertionTimeout { expected: u64, last_observed: Vec<u64> },
    /// A call that is made once failed, on the way or at the far end.
    RpcCallFailed { reason: String },
}

/// How a kind of actor is called in messages.
pub open spec fn kind_text(kind: ActorKind) -> Seq<char> {
    match kind {
        ActorKind::BaseNode => "Base node"@,
        ActorKind::Wallet => "Wallet"@,
        ActorKind::Miner => "Miner"@,
    }
}

/// The numbers `values`, each preceded by a blank.
pub open spec fn listed(values: Seq<u64>) -> Seq<char>
    decreases values.len(),
{
    if values.len() == 0 {
        Seq::empty()
    } else {
        listed(values.drop_last()) + " "@ + decimal(values.last() as nat)
    }
}

/// What `e` reads as in the log of a scenario.
pub open spec fn error_text(e: HarnessError) -> Seq<char> {
    match e {
        HarnessError::ActorNotFound { kind, name } => kind_text(kind) + " process not found: "@
            + name@,
        HarnessError::AlreadyRegistered { kind, name } => kind_text(kind)
            + " process already registered: "@ + name@,
        HarnessError::NoPendingSwap => "No atomic swap is pending"@,
        HarnessError::ClientNotFound { reason } => "No base node, or wallet client found: "@
            + reason@,
        HarnessError::ProcessStartupTimeout { kind, name } => kind_text(kind)
            + " process did not start in time: "@ + name@,
        HarnessError::AssertionTimeout { expected, last_observed } => "Timed out waiting for "@
            + decimal(expected as nat) + ", last observed:"@ + listed(last_observed@),
        HarnessError::RpcCallFailed { reason } => "RPC call failed: "@ + reason@,
    }
}

fn push_kind(out: &mut String, kind: ActorKind)
    ensures
        final(out)@ == old(out)@ + kind_text(kind),
{
    match kind {
        ActorKind::BaseNode => push_text(out, "Base node"),
        ActorKind::Wallet => push_text(out, "Wallet"),
        ActorKind::Miner => push_text(out, "Miner"),
    }
}

impl HarnessError {
    /// The message that goes into the log of the scenario.
    pub fn message(&self) -> (out: String)
        ensures
            out@ == error_text(*self),
    {
        let mut out = String::new();
        match self {
            HarnessError::ActorNotFound { kind, name } => {
                push_kind(&mut out, *kind);
                push_text(&mut out, " process not found: ");
                push_text(&mut out, name.as_str());
            },
            HarnessError::AlreadyRegistered { kind, name } => {
                push_kind(&mut out, *kind);
                push_text(&mut out, " process already registered: ");
                push_text(&mut out, name.as_str());
            },
            HarnessError::NoPendingSwap => {
                push_text(&mut out, "No atomic swap is pending");
            },
            HarnessError::ClientNotFound { reason } => {
                push_text(&mut out, "No base node, or wallet client found: ");
                push_text(&mut out, reason.as_str());
            },
            HarnessError::ProcessStartupTimeout { kind, name } => {
                push_kind(&mut out, *kind);
                push_text(&mut out, " process did not start in time: ");
                push_text(&mut out, name.as_str());
            },
            HarnessError::AssertionTimeout { expected, last_observed } => {
                push_text(&mut out, "Timed out waiting for ");
                push_decimal(&mut out, *expected as u128);
                push_text(&mut out, ", last observed:");
                let ghost head = out@;
                let mut i: usize = 0;
                assert(last_observed@.take(0) =~= Seq::<u64>::empty());
                while i < last_observed.len()
                    invariant
                        i <= last_observed.len(),
                        out@ == head + listed(last_observed@.take(i as int)),
                    decreases last_observed.len() - i,
                {
                    push_text(&mut out, " ");
                    push_decimal(&mut out, last_observed[i] as u128);
                    proof {
                        let next = last_observed@.take(i + 1);
                        assert(next.drop_last() =~= last_observed@.take(i as int));
                        assert(next.last() == last_observed[i as int]);
                    }
                    i += 1;
                }
                assert(last_observed@.take(last_observed.len() as int) =~= last_observed@);
            },
            HarnessError::RpcCallFailed { reason } => {
                push_text(&mut out, "RPC call failed: ");
                push_text(&mut out, reason.as_str());
            },
        }
        out
    }
}

} // verus!
