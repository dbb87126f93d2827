//! Finding the service behind a name: an actor answers either as a base node
//! or as a wallet, and the base node is asked first.

use crate::error::{error_text, HarnessError};
use crate::world::{ActorKind, World};
use vstd::prelude::*;

verus! {

/// The two services an actor can answer as.
#[derive(Clone, Copy, Debug, PartialEq, Eq, Structural)]
pub enum ClientKind {
    Node,
    Wallet,
}

/// Where a service listens.
#[derive(Clone, Copy, Debug, PartialEq, Eq, Structural)]
pub struct Endpoint {
    pub kind: ClientKind,
    pub rpc_port: u16,
}

/// What to do next to get a client.
#[derive(Debug, PartialEq, Eq)]
pub enum Attempt {
    /// Connect there; a client that answers is the one that was asked for.
    Connect(Endpoint),
    /// Stop: there is no client to be had.
    Failed(HarnessError),
}

/// The attempt on the wallet service of `name`: its endpoint if a wallet is
/// registered under the name, else the end of the search.
pub open spec fn wallet_attempt(world: World, name: Seq<char>, attempt: Attempt) -> bool {
    if world.has(ActorKind::Wallet, name) {
        attempt == Attempt::Connect(
            Endpoint { kind: ClientKind::Wallet, rpc_port: world.actor(ActorKind::Wallet, name).rpc_port },
        )
    } else {
        attempt matches Attempt::Failed(HarnessError::ClientNotFound { reason }) && reason@
            == "Wallet process not found: "@ + name
    }
}

/// The first attempt for `name`: on its node service if a base node is
/// registered under the name, else on its wallet service.
pub open spec fn first_attempt(world: World, name: Seq<char>, attempt: Attempt) -> bool {
    if world.has(ActorKind::BaseNode, name) {
        attempt == Attempt::Connect(
            Endpoint { kind: ClientKind::Node, rpc_port: world.actor(ActorKind::BaseNode, name).rpc_port },
        )
    } else {
        wallet_attempt(world, name, attempt)
    }
}

fn try_wallet(world: &World, name: &str) -> (attempt: Attempt)
    requires
        world.wf(),
    ensures
        wallet_attempt(*world, name@, attempt),
{
    match world.lookup(ActorKind::Wallet, name) {
        Ok(handle) => Attempt::Connect(Endpoint { kind: ClientKind::Wallet, rpc_port: handle.rpc_port }),
        Err(e) => {
            let reason = e.message();
            assert(reason@ =~= "Wallet process not found: "@ + name@) by {
                assert(reason@ == error_text(e));
                assert("Wallet"@ + " process not found: "@ =~= "Wallet process not found: "@) by {
                    reveal_strlit("Wallet");
                    reveal_strlit(" process not found: ");
                    reveal_strlit("Wallet process not found: ");
                }
            }
            Attempt::Failed(HarnessError::ClientNotFound { reason })
        },
    }
}

/// The first thing to try to get a client for `name`.
pub fn client_for(world: &World, name: &str) -> (attempt: Attempt)
    requires
        world.wf(),
    ensures
        first_attempt(*world, name@, attempt),
{
    match world.lookup(ActorKind::BaseNode, name) {
        Ok(handle) => Attempt::Connect(Endpoint { kind: ClientKind::Node, rpc_port: handle.rpc_port }),
        Err(_) => try_wallet(world, name),
    }
}

/// What to try after the connection to the `tried` service of `name` has
/// failed for the reason `reason`: after the node service the wallet service,
/// after the wallet service nothing.
pub fn after_failure(world: &World, name: &str, tried: ClientKind, reason: &str) -> (attempt:
    Attempt)
    requires
        world.wf(),
    ensures
        match tried {
            ClientKind::Node => wallet_attempt(*world, name@, attempt),
            ClientKind::Wallet => attempt matches Attempt::Failed(
                HarnessError::ClientNotFound { reason: r },
            ) && r@ == reason@,
        },
{
    match tried {
        ClientKind::Node => try_wallet(world, name),
        ClientKind::Wallet => Attempt::Failed(
            HarnessError::ClientNotFound { reason: reason.to_owned() },
        ),
    }
}

} // verus!
