use tari_scenario::error::HarnessError;
use tari_scenario::world::{
    ActorExtras, ActorHandle, ActorKind, PendingAtomicSwap, SpendableOutput, TransactionRecord, World,
};

fn node(name: &str, port: u16, is_seed: bool) -> ActorHandle {
    ActorHandle {
        name: name.to_string(),
        rpc_port: port,
        work_dir: format!("/tmp/base_nodes/{}_grpc_port_{}", name, port),
        seed_peers: vec![],
        extras: ActorExtras::BaseNode { is_seed, pruning_horizon: None },
    }
}

fn wallet(name: &str, port: u16, base_node: Option<&str>) -> ActorHandle {
    ActorHandle {
        name: name.to_string(),
        rpc_port: port,
        work_dir: format!("/tmp/wallets/{}_grpc_port_{}", name, port),
        seed_peers: vec![],
        extras: ActorExtras::Wallet { base_node: base_node.map(|n| n.to_string()) },
    }
}

fn miner(name: &str, node: &str, wallet: &str) -> ActorHandle {
    ActorHandle {
        name: name.to_string(),
        rpc_port: 0,
        work_dir: String::new(),
        seed_peers: vec![],
        extras: ActorExtras::Miner { node_name: node.to_string(), wallet_name: wallet.to_string() },
    }
}

fn tx(tag: u8) -> TransactionRecord {
    TransactionRecord { excess_sig: vec![tag], body: vec![tag, tag] }
}

#[test]
fn new_world_holds_nothing() {
    let world = World::new();
    assert!(world.all_names(ActorKind::BaseNode).is_empty());
    assert!(world.all_names(ActorKind::Wallet).is_empty());
    assert!(world.all_names(ActorKind::Miner).is_empty());
    assert!(world.all_seed_nodes().is_empty());
    assert!(world.pending_swap().is_err());
}

#[test]
fn registered_actor_is_found_under_its_name_and_kind() {
    let mut world = World::new();
    assert_eq!(world.register(node("A", 18001, true)), Ok(()));
    let found = world.lookup(ActorKind::BaseNode, "A").unwrap();
    assert_eq!(found.name, "A");
    assert_eq!(found.kind(), ActorKind::BaseNode);
    assert_eq!(*found, node("A", 18001, true));
}

#[test]
fn second_registration_of_a_name_is_refused_and_changes_nothing() {
    let mut world = World::new();
    world.register(node("A", 18001, false)).unwrap();
    let refused = world.register(node("A", 18002, true));
    assert_eq!(
        refused,
        Err(HarnessError::AlreadyRegistered { kind: ActorKind::BaseNode, name: "A".to_string() })
    );
    assert_eq!(world.lookup(ActorKind::BaseNode, "A").unwrap().rpc_port, 18001);
    assert_eq!(world.all_names(ActorKind::BaseNode), vec!["A"]);
    assert!(world.all_seed_nodes().is_empty());
}

#[test]
fn the_same_name_may_serve_in_each_kind() {
    let mut world = World::new();
    world.register(node("M", 1, false)).unwrap();
    world.register(wallet("M", 2, Some("M"))).unwrap();
    world.register(miner("M", "M", "M")).unwrap();
    assert_eq!(world.lookup(ActorKind::BaseNode, "M").unwrap().rpc_port, 1);
    assert_eq!(world.lookup(ActorKind::Wallet, "M").unwrap().rpc_port, 2);
    assert_eq!(world.lookup(ActorKind::Miner, "M").unwrap().kind(), ActorKind::Miner);
}

#[test]
fn lookup_of_an_unknown_name_is_actor_not_found() {
    let mut world = World::new();
    world.register(node("A", 1, false)).unwrap();
    assert_eq!(
        world.lookup(ActorKind::Wallet, "A").unwrap_err(),
        HarnessError::ActorNotFound { kind: ActorKind::Wallet, name: "A".to_string() }
    );
    assert_eq!(
        world.lookup(ActorKind::BaseNode, "B").unwrap_err(),
        HarnessError::ActorNotFound { kind: ActorKind::BaseNode, name: "B".to_string() }
    );
    assert_eq!(
        world.lookup(ActorKind::Miner, "").unwrap_err(),
        HarnessError::ActorNotFound { kind: ActorKind::Miner, name: "".to_string() }
    );
}

#[test]
fn names_come_in_the_order_of_registration() {
    let mut world = World::new();
    for (i, name) in ["zeta", "alpha", "mid", "beta"].iter().enumerate() {
        world.register(node(name, 100 + i as u16, false)).unwrap();
    }
    assert_eq!(world.all_names(ActorKind::BaseNode), vec!["zeta", "alpha", "mid", "beta"]);
    assert_eq!(world.lookup(ActorKind::BaseNode, "mid").unwrap().rpc_port, 102);
    assert_eq!(world.lookup(ActorKind::BaseNode, "beta").unwrap().rpc_port, 103);
}

#[test]
fn many_actors_are_all_found_again() {
    let mut world = World::new();
    for i in 0..200u16 {
        world.register(wallet(&format!("Wallet_{}", i), 20000 + i, None)).unwrap();
    }
    for i in 0..200u16 {
        assert_eq!(world.lookup(ActorKind::Wallet, &format!("Wallet_{}", i)).unwrap().rpc_port, 20000 + i);
    }
    assert!(world.lookup(ActorKind::Wallet, "Wallet_200").is_err());
}

#[test]
fn seed_nodes_are_listed_in_their_order() {
    let mut world = World::new();
    world.register(node("seed_node_0", 1, true)).unwrap();
    world.register(node("plain", 2, false)).unwrap();
    world.register(node("seed_node_1", 3, true)).unwrap();
    world.register(wallet("w", 4, None)).unwrap();
    assert_eq!(*world.all_seed_nodes(), vec!["seed_node_0", "seed_node_1"]);
}

#[test]
fn teardown_hands_out_every_actor_and_leaves_nothing() {
    let mut world = World::new();
    world.register(wallet("W", 2, Some("A"))).unwrap();
    world.register(node("A", 1, true)).unwrap();
    world.register(miner("M", "A", "W")).unwrap();
    world.set_transaction("tx".to_string(), tx(1));
    world.set_output("out".to_string(), SpendableOutput { value: 5, body: vec![] });
    world.record_tx_id("addr".to_string(), 9);
    world.set_pending_swap(PendingAtomicSwap { output_hash: "h".to_string(), pre_image: "p".to_string() });
    let owned = world.teardown();
    assert_eq!(owned, vec![node("A", 1, true), wallet("W", 2, Some("A")), miner("M", "A", "W")]);
    assert!(world.all_names(ActorKind::BaseNode).is_empty());
    assert!(world.all_names(ActorKind::Wallet).is_empty());
    assert!(world.all_names(ActorKind::Miner).is_empty());
    assert!(world.all_seed_nodes().is_empty());
    assert!(world.lookup(ActorKind::BaseNode, "A").is_err());
    assert!(world.transaction("tx").is_none());
    assert!(world.output("out").is_none());
    assert!(world.tx_ids("addr").is_none());
    assert!(world.pending_swap().is_err());
}

#[test]
fn teardown_twice_and_on_an_empty_world() {
    let mut empty = World::new();
    assert!(empty.teardown().is_empty());
    assert!(empty.teardown().is_empty());
    let mut world = World::new();
    world.register(node("A", 1, true)).unwrap();
    assert_eq!(world.teardown().len(), 1);
    assert!(world.teardown().is_empty());
    assert!(world.all_names(ActorKind::BaseNode).is_empty());
    assert!(world.all_seed_nodes().is_empty());
    world.register(node("A", 2, false)).unwrap();
    assert_eq!(world.lookup(ActorKind::BaseNode, "A").unwrap().rpc_port, 2);
}

#[test]
fn a_named_transaction_is_overwritten_not_doubled() {
    let mut world = World::new();
    world.set_transaction("TX1".to_string(), tx(1));
    world.set_transaction("TX2".to_string(), tx(2));
    world.set_transaction("TX1".to_string(), tx(3));
    assert_eq!(*world.transaction("TX1").unwrap(), tx(3));
    assert_eq!(*world.transaction("TX2").unwrap(), tx(2));
    assert!(world.transaction("TX3").is_none());
}

#[test]
fn a_named_output_is_replaced_by_a_later_one() {
    let mut world = World::new();
    world.set_output("CB1".to_string(), SpendableOutput { value: 10, body: vec![1] });
    world.set_output("CB1".to_string(), SpendableOutput { value: 20, body: vec![2] });
    assert_eq!(*world.output("CB1").unwrap(), SpendableOutput { value: 20, body: vec![2] });
    assert!(world.output("CB2").is_none());
}

#[test]
fn transaction_identifiers_are_kept_per_wallet_in_order() {
    let mut world = World::new();
    world.record_tx_id("aa".to_string(), 1);
    world.record_tx_id("bb".to_string(), 1);
    world.record_tx_id("aa".to_string(), 2);
    world.record_tx_id("aa".to_string(), 2);
    assert_eq!(*world.tx_ids("aa").unwrap(), vec![1, 2, 2]);
    assert_eq!(*world.tx_ids("bb").unwrap(), vec![1]);
    assert!(world.tx_ids("cc").is_none());
}

#[test]
fn a_claim_without_a_pending_swap_fails_fast() {
    let mut world = World::new();
    assert_eq!(world.pending_swap().unwrap_err(), HarnessError::NoPendingSwap);
    world.set_pending_swap(PendingAtomicSwap { output_hash: "h1".to_string(), pre_image: "p1".to_string() });
    world.set_pending_swap(PendingAtomicSwap { output_hash: "h2".to_string(), pre_image: "p2".to_string() });
    assert_eq!(world.pending_swap().unwrap().output_hash, "h2");
    assert_eq!(world.pending_swap().unwrap().pre_image, "p2");
}

#[test]
fn harness_errors_have_their_messages() {
    assert_eq!(
        HarnessError::ActorNotFound { kind: ActorKind::BaseNode, name: "A".to_string() }.message(),
        "Base node process not found: A"
    );
    assert_eq!(
        HarnessError::ActorNotFound { kind: ActorKind::Wallet, name: "W".to_string() }.message(),
        "Wallet process not found: W"
    );
    assert_eq!(
        HarnessError::ActorNotFound { kind: ActorKind::Miner, name: "M".to_string() }.message(),
        "Miner process not found: M"
    );
    assert_eq!(
        HarnessError::AlreadyRegistered { kind: ActorKind::Wallet, name: "W".to_string() }.message(),
        "Wallet process already registered: W"
    );
    assert_eq!(HarnessError::NoPendingSwap.message(), "No atomic swap is pending");
    assert_eq!(
        HarnessError::ClientNotFound { reason: "Wallet process not found: X".to_string() }.message(),
        "No base node, or wallet client found: Wallet process not found: X"
    );
    assert_eq!(
        HarnessError::ProcessStartupTimeout { kind: ActorKind::BaseNode, name: "A".to_string() }.message(),
        "Base node process did not start in time: A"
    );
    assert_eq!(
        HarnessError::AssertionTimeout { expected: 5, last_observed: vec![5, 3, 0] }.message(),
        "Timed out waiting for 5, last observed: 5 3 0"
    );
    assert_eq!(
        HarnessError::AssertionTimeout { expected: 1, last_observed: vec![] }.message(),
        "Timed out waiting for 1, last observed:"
    );
    assert_eq!(
        HarnessError::RpcCallFailed { reason: "transport error".to_string() }.message(),
        "RPC call failed: transport error"
    );
}
