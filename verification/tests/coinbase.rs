use tari_scenario::coinbase::{coinbase, connections, CoinbaseCount, Comparison, CompletedTx, Connections};
use tari_scenario::supervisor::{numbered_name, NameSeries};
use tari_scenario::text::{contains_text, split_on};
use tari_scenario::world::{ActorExtras, ActorHandle, SpendableOutput, World};

fn completed(message: &str, fee: u64, status: i32) -> CompletedTx {
    CompletedTx { message: message.to_string(), fee, status }
}

#[test]
fn comparisons_by_name() {
    assert_eq!(Comparison::parse("AT_LEAST"), Some(Comparison::AtLeast));
    assert_eq!(Comparison::parse("EXACTLY"), Some(Comparison::Exactly));
    assert_eq!(Comparison::parse("at_least"), None);
    assert_eq!(Comparison::parse(""), None);
    assert!(Comparison::AtLeast.met(3, 3));
    assert!(Comparison::AtLeast.met(4, 3));
    assert!(!Comparison::AtLeast.met(2, 3));
    assert!(Comparison::Exactly.met(3, 3));
    assert!(!Comparison::Exactly.met(4, 3));
}

#[test]
fn a_coinbase_is_known_by_its_memo_and_fee() {
    assert!(coinbase("Coinbase Transaction for Block #5", 0));
    assert!(coinbase("note: Coinbase Transaction for Block 5", 0));
    assert!(!coinbase("Coinbase Transaction for Block #5", 1));
    assert!(!coinbase("Coinbase Transaction for Block", 0));
    assert!(!coinbase("transfer amount 5 from A to B", 0));
}

#[test]
fn the_coinbase_count_goes_on_from_look_to_look() {
    let mut count = CoinbaseCount::new();
    count.note(&vec![
        completed("Coinbase Transaction for Block #1", 0, 6),
        completed("Coinbase Transaction for Block #2", 0, 2),
        completed("transfer amount 5 from A to B", 10, 6),
    ]);
    assert_eq!(count, CoinbaseCount { seen: 2, spendable: 1 });
    count.note(&vec![
        completed("Coinbase Transaction for Block #1", 0, 6),
        completed("Coinbase Transaction for Block #2", 0, 6),
    ]);
    assert_eq!(count, CoinbaseCount { seen: 4, spendable: 3 });
    count.note(&vec![]);
    assert_eq!(count, CoinbaseCount { seen: 4, spendable: 3 });
}

#[test]
fn connections_against_the_wanted_number() {
    assert_eq!(connections(0, 1), Connections::TooFew);
    assert_eq!(connections(1, 1), Connections::Met);
    assert_eq!(connections(2, 1), Connections::TooMany);
    assert_eq!(connections(u32::MAX, u64::MAX), Connections::TooFew);
    assert_eq!(connections(0, 0), Connections::Met);
}

#[test]
fn numbered_names_of_each_series() {
    assert_eq!(numbered_name(NameSeries::Node, 0), "Node_0");
    assert_eq!(numbered_name(NameSeries::SeedNode, 3), "seed_node_3");
    assert_eq!(numbered_name(NameSeries::Wallet, 12), "Wallet_12");
    assert_eq!(numbered_name(NameSeries::Miner, u64::MAX), format!("Miner_{}", u64::MAX));
}

#[test]
fn text_is_split_at_every_separator() {
    assert_eq!(split_on("CB1,CB2,CB3", ','), vec!["CB1", "CB2", "CB3"]);
    assert_eq!(split_on("CB1", ','), vec!["CB1"]);
    assert_eq!(split_on("", ','), vec![""]);
    assert_eq!(split_on("a,,b,", ','), vec!["a", "", "b", ""]);
    assert_eq!(split_on(",", ','), vec!["", ""]);
    for text in ["", "x", "x,y", ",x,,y,", ",,"] {
        let expected: Vec<String> = text.split(',').map(|p| p.to_string()).collect();
        assert_eq!(split_on(text, ','), expected);
    }
}

#[test]
fn text_is_found_within_text() {
    assert!(contains_text("abcabd", "abd"));
    assert!(contains_text("abc", ""));
    assert!(contains_text("", ""));
    assert!(contains_text("abc", "abc"));
    assert!(!contains_text("abc", "abcd"));
    assert!(!contains_text("", "a"));
    assert!(!contains_text("aab", "aba"));
    assert!(contains_text("aaab", "aab"));
}

#[test]
fn the_overview_lists_nodes_and_wallets() {
    let mut world = World::new();
    world
        .register(ActorHandle {
            name: "A".to_string(),
            rpc_port: 18000,
            work_dir: "/tmp/a".to_string(),
            seed_peers: vec![],
            extras: ActorExtras::BaseNode { is_seed: true, pruning_horizon: None },
        })
        .unwrap();
    world
        .register(ActorHandle {
            name: "W".to_string(),
            rpc_port: 18001,
            work_dir: "/tmp/w".to_string(),
            seed_peers: vec![],
            extras: ActorExtras::Wallet { base_node: None },
        })
        .unwrap();
    world
        .register(ActorHandle {
            name: "M".to_string(),
            rpc_port: 18002,
            work_dir: "/tmp/m".to_string(),
            seed_peers: vec![],
            extras: ActorExtras::Miner { node_name: "A".to_string(), wallet_name: "W".to_string() },
        })
        .unwrap();
    assert_eq!(
        world.report(),
        vec![
            "",
            "======================================",
            "============= TEST NODES =============",
            "======================================",
            "",
            "Base node \"A\": grpc port \"18000\", temp dir path \"/tmp/a\"",
            "Wallet \"W\": grpc port \"18001\", temp dir path \"/tmp/w\"",
            "",
            "======================================",
            "",
        ]
    );
    assert_eq!(World::new().report().len(), 8);
}

#[test]
fn outputs_are_found_by_their_names() {
    let mut world = World::new();
    world.set_output("CB1".to_string(), SpendableOutput { value: 1, body: vec![1] });
    world.set_output("CB2".to_string(), SpendableOutput { value: 2, body: vec![2] });
    let names = split_on("CB2,CB1,CB2", ',');
    let found = world.outputs_named(&names).unwrap();
    assert_eq!(found.iter().map(|o| o.value).collect::<Vec<_>>(), vec![2, 1, 2]);
    assert_eq!(world.outputs_named(&split_on("CB1,CB3,CB4", ',')), Err(1));
    assert_eq!(world.outputs_named(&split_on("", ',')), Err(0));
    assert_eq!(world.outputs_named(&vec![]), Ok(vec![]));
}
