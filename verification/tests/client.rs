use tari_scenario::client::{after_failure, client_for, Attempt, ClientKind, Endpoint};
use tari_scenario::error::HarnessError;
use tari_scenario::world::{ActorExtras, ActorHandle, World};

fn handle(name: &str, port: u16, extras: ActorExtras) -> ActorHandle {
    ActorHandle { name: name.to_string(), rpc_port: port, work_dir: String::new(), seed_peers: vec![], extras }
}

fn world() -> World {
    let mut world = World::new();
    world.register(handle("A", 18001, ActorExtras::BaseNode { is_seed: true, pruning_horizon: None })).unwrap();
    world.register(handle("W", 18002, ActorExtras::Wallet { base_node: Some("A".to_string()) })).unwrap();
    world.register(handle("both", 18003, ActorExtras::BaseNode { is_seed: false, pruning_horizon: None })).unwrap();
    world.register(handle("both", 18004, ActorExtras::Wallet { base_node: None })).unwrap();
    world
}

#[test]
fn the_node_service_is_asked_first() {
    let world = world();
    assert_eq!(
        client_for(&world, "A"),
        Attempt::Connect(Endpoint { kind: ClientKind::Node, rpc_port: 18001 })
    );
    assert_eq!(
        client_for(&world, "both"),
        Attempt::Connect(Endpoint { kind: ClientKind::Node, rpc_port: 18003 })
    );
}

#[test]
fn a_name_without_a_node_goes_to_the_wallet_service() {
    assert_eq!(
        client_for(&world(), "W"),
        Attempt::Connect(Endpoint { kind: ClientKind::Wallet, rpc_port: 18002 })
    );
}

#[test]
fn an_unknown_name_has_no_client() {
    assert_eq!(
        client_for(&world(), "nobody"),
        Attempt::Failed(HarnessError::ClientNotFound { reason: "Wallet process not found: nobody".to_string() })
    );
}

#[test]
fn after_a_failed_node_the_wallet_is_tried() {
    let world = world();
    assert_eq!(
        after_failure(&world, "both", ClientKind::Node, "connection refused"),
        Attempt::Connect(Endpoint { kind: ClientKind::Wallet, rpc_port: 18004 })
    );
    assert_eq!(
        after_failure(&world, "A", ClientKind::Node, "connection refused"),
        Attempt::Failed(HarnessError::ClientNotFound { reason: "Wallet process not found: A".to_string() })
    );
}

#[test]
fn after_a_failed_wallet_nothing_is_tried() {
    assert_eq!(
        after_failure(&world(), "W", ClientKind::Wallet, "connection refused"),
        Attempt::Failed(HarnessError::ClientNotFound { reason: "connection refused".to_string() })
    );
}
