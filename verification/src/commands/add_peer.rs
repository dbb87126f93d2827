//! `add-peer`: dial a peer by its public key and address.

use super::{CommandContext, CommandError, PeerId, UniPublicKey};
use crate::text::{decimal, push_decimal, push_text};
use vstd::prelude::*;

verus! {

/// Adds a peer
#[derive(Debug)]
pub struct ArgsAddPeer {
    /// Peer public key
    pub public_key: UniPublicKey,
    /// Peer address
    pub address: String,
}

/// A dial that the networking layer is asked to make.
#[derive(Debug, PartialEq, Eq)]
pub struct DialRequest {
    pub peer_id: PeerId,
    pub addresses: Vec<String>,
}

/// How a dial ended: the milliseconds it took to connect, or why it failed.
#[derive(Debug)]
pub enum DialOutcome {
    Connected { millis: u128 },
    Failed { reason: String },
}

/// What is printed once the dial has been handed to the networking layer.
pub open spec fn dialing_text(peer_id: Seq<char>) -> Seq<char> {
    "Peer with node id '"@ + peer_id + "' was added to the base node. Dialing..."@
}

/// What is printed when the dial has ended.
pub open spec fn dial_outcome_text(outcome: DialOutcome) -> Seq<char> {
    match outcome {
        DialOutcome::Connected { millis } => "⚡️ Peer connected in "@ + decimal(millis as nat)
            + "ms!"@,
        DialOutcome::Failed { reason } => "☠️ "@ + reason@,
    }
}

impl CommandContext {
    /// The dial that `add-peer` asks for: to the peer behind the given key, at
    /// the given address alone. A node does not dial itself.
    pub fn add_peer(&self, args: ArgsAddPeer) -> (r: Result<DialRequest, CommandError>)
        ensures
            match r {
                Ok(dial) => {
                    &&& self.local_peer_id.bytes@ != args.public_key.peer_id.bytes@
                    &&& dial.peer_id == args.public_key.peer_id
                    &&& dial.addresses@ == seq![args.address]
                },
                Err(e) => {
                    &&& self.local_peer_id.bytes@ == args.public_key.peer_id.bytes@
                    &&& e == CommandError::CannotAddSelf
                },
            },
    {
        if self.local_peer_id.bytes == args.public_key.peer_id.bytes {
            return Err(CommandError::CannotAddSelf);
        }
        let mut addresses: Vec<String> = Vec::new();
        addresses.push(args.address);
        Ok(DialRequest { peer_id: args.public_key.peer_id, addresses })
    }
}

/// The notice that a dial to `peer_id` is under way.
pub fn dialing_notice(peer_id: &PeerId) -> (out: String)
    ensures
        out@ == dialing_text(peer_id.text@),
{
    let mut out = String::new();
    push_text(&mut out, "Peer with node id '");
    push_text(&mut out, peer_id.text.as_str());
    push_text(&mut out, "' was added to the base node. Dialing...");
    out
}

/// The notice of how the dial ended.
pub fn dial_outcome_notice(outcome: &DialOutcome) -> (out: String)
    ensures
        out@ == dial_outcome_text(*outcome),
{
    let mut out = String::new();
    match outcome {
        DialOutcome::Connected { millis } => {
            push_text(&mut out, "⚡️ Peer connected in ");
            push_decimal(&mut out, *millis);
            push_text(&mut out, "ms!");
        },
        DialOutcome::Failed { reason } => {
            push_text(&mut out, "☠️ ");
            push_text(&mut out, reason.as_str());
        },
    }
    out
}

} // verus!
