use tari_scenario::checks::{
    all_nodes_policy, blocks_to_fund, can_fail, chase, count_status, first_gap, header_count, holds_units,
    policy_for, pool_quorum, to_micro, Chase, HeightAgreement, Tally, WaitClass, CONFIRMATION_PERIOD,
    SAME_HEIGHT_ROUNDS,
};
use tari_scenario::error::HarnessError;
use tari_scenario::retry::RetryPolicy;

#[test]
fn each_class_of_wait_has_its_bounds() {
    assert_eq!(policy_for(WaitClass::NodeHeight), RetryPolicy { interval_ms: 250, max_retries: 240 });
    assert_eq!(
        policy_for(WaitClass::AllNodesHeight { blocks: 5 }),
        RetryPolicy { interval_ms: 250, max_retries: 1200 }
    );
    assert_eq!(
        policy_for(WaitClass::AllNodesHeight { blocks: 0 }),
        RetryPolicy { interval_ms: 250, max_retries: 0 }
    );
    assert_eq!(policy_for(WaitClass::Mempool), RetryPolicy { interval_ms: 250, max_retries: 480 });
    assert_eq!(policy_for(WaitClass::Wallet), RetryPolicy { interval_ms: 5000, max_retries: 100 });
    assert_eq!(policy_for(WaitClass::Connection), RetryPolicy { interval_ms: 5000, max_retries: 100 });
    assert_eq!(CONFIRMATION_PERIOD, 4);
}

#[test]
fn retries_for_all_nodes_scale_with_the_blocks() {
    assert_eq!(all_nodes_policy(10), Some(RetryPolicy { interval_ms: 250, max_retries: 2400 }));
    assert_eq!(
        all_nodes_policy(u64::MAX / 240),
        Some(RetryPolicy { interval_ms: 250, max_retries: (u64::MAX / 240) * 240 })
    );
    assert_eq!(all_nodes_policy(u64::MAX / 240 + 1), None);
    assert_eq!(all_nodes_policy(u64::MAX), None);
}

#[test]
fn whole_units_in_micro_units() {
    assert_eq!(to_micro(0), Some(0));
    assert_eq!(to_micro(3), Some(3_000_000));
    assert_eq!(to_micro(u64::MAX / 1_000_000), Some((u64::MAX / 1_000_000) * 1_000_000));
    assert_eq!(to_micro(u64::MAX / 1_000_000 + 1), None);
}

#[test]
fn a_wallet_holds_units() {
    assert!(holds_units(0, 0));
    assert!(holds_units(2_000_000, 2));
    assert!(!holds_units(1_999_999, 2));
    assert!(holds_units(u64::MAX, 18_446_744_073_709));
    assert!(!holds_units(u64::MAX, 18_446_744_073_710));
}

#[test]
fn nodes_agree_once_all_are_at_the_height() {
    let mut agreement = HeightAgreement::new(5, vec!["A".to_string(), "B".to_string(), "C".to_string()]);
    assert!(!agreement.agreed());
    assert_eq!(agreement.pending(), vec![0, 1, 2]);
    agreement.record(0, 5);
    agreement.record(2, 4);
    assert_eq!(agreement.pending(), vec![1, 2]);
    assert_eq!(agreement.name_at(1), "B");
    assert!(!agreement.agreed());
    agreement.record(1, 5);
    agreement.record(2, 5);
    assert!(agreement.pending().is_empty());
    assert!(agreement.agreed());
}

#[test]
fn a_node_above_the_height_does_not_agree() {
    let mut agreement = HeightAgreement::new(5, vec!["A".to_string()]);
    agreement.record(0, 6);
    assert!(!agreement.agreed());
    assert_eq!(agreement.pending(), vec![0]);
    assert_eq!(
        agreement.timed_out(),
        HarnessError::AssertionTimeout { expected: 5, last_observed: vec![6] }
    );
}

#[test]
fn no_nodes_and_height_zero_agree_at_once() {
    assert!(HeightAgreement::new(9, vec![]).agreed());
    let at_zero = HeightAgreement::new(0, vec!["A".to_string(), "B".to_string()]);
    assert!(at_zero.agreed());
    assert!(at_zero.pending().is_empty());
}

#[test]
fn allowed_failures_are_rounded_up() {
    assert_eq!(can_fail(3, 34), 2);
    assert_eq!(can_fail(3, 33), 1);
    assert_eq!(can_fail(4, 25), 1);
    assert_eq!(can_fail(4, 26), 2);
    assert_eq!(can_fail(5, 0), 0);
    assert_eq!(can_fail(0, 50), 0);
    assert_eq!(can_fail(7, 100), 7);
}

#[test]
fn a_pool_quorum_needs_more_than_the_nodes_that_must_succeed() {
    assert!(pool_quorum(3, 4, 2));
    assert!(!pool_quorum(2, 4, 2));
    assert!(!pool_quorum(4, 4, 0));
    assert!(pool_quorum(1, 4, 4));
    assert!(!pool_quorum(0, 4, 4));
}

#[test]
fn a_round_that_misses_leaves_nothing_for_the_next() {
    let mut tally = Tally::new();
    assert!(!tally.round(2, 3));
    assert_eq!(tally.total, 0);
    assert!(!tally.round(2, 3));
    assert_eq!(tally.total, 0);
    assert!(tally.round(4, 3));
    assert_eq!(tally.total, 4);
    assert!(!tally.exactly(3));
    assert!(tally.exactly(4));
    let mut exact = Tally::new();
    assert!(exact.round(3, 3));
    assert!(exact.exactly(3));
    let mut none = Tally::new();
    assert!(none.round(0, 0));
    assert!(none.exactly(0));
}

#[test]
fn statuses_are_counted() {
    assert_eq!(count_status(&vec![], 6), 0);
    assert_eq!(count_status(&vec![6, 1, 6, 6, 2], 6), 3);
    assert_eq!(count_status(&vec![1, 1], 6), 0);
}

#[test]
fn listed_heights_follow_each_other() {
    assert_eq!(first_gap(&vec![], 3), None);
    assert_eq!(first_gap(&vec![3, 4, 5], 3), None);
    assert_eq!(first_gap(&vec![3, 5, 6], 3), Some(1));
    assert_eq!(first_gap(&vec![4], 3), Some(0));
    assert_eq!(first_gap(&vec![u64::MAX, 0], u64::MAX), Some(1));
}

#[test]
fn blocks_are_mined_until_the_rewards_cover_the_amount() {
    let rewards = vec![5_500_000, 5_400_000, 999_999, 5_000_000];
    assert_eq!(blocks_to_fund(0, &rewards), Some(0));
    assert_eq!(blocks_to_fund(5, &rewards), Some(1));
    assert_eq!(blocks_to_fund(6, &rewards), Some(2));
    assert_eq!(blocks_to_fund(10, &rewards), Some(2));
    assert_eq!(blocks_to_fund(11, &rewards), Some(4));
    assert_eq!(blocks_to_fund(15, &rewards), Some(4));
    assert_eq!(blocks_to_fund(16, &rewards), None);
    assert_eq!(blocks_to_fund(1, &vec![]), None);
    assert_eq!(blocks_to_fund(u64::MAX, &vec![u64::MAX, u64::MAX]), None);
}

#[test]
fn a_node_gets_twelve_rounds_to_catch_up() {
    assert_eq!(SAME_HEIGHT_ROUNDS, 12);
    assert_eq!(chase(1, 7, 7), Chase::Same);
    assert_eq!(chase(12, 7, 7), Chase::Same);
    assert_eq!(chase(1, 6, 7), Chase::Again);
    assert_eq!(chase(11, 8, 7), Chase::Again);
    assert_eq!(chase(12, 6, 7), Chase::Apart);
    assert_eq!(chase(13, 6, 7), Chase::Apart);
}

#[test]
fn headers_are_counted_from_start_to_end() {
    assert_eq!(header_count(3, 3), Some(1));
    assert_eq!(header_count(0, 9), Some(10));
    assert_eq!(header_count(4, 3), None);
    assert_eq!(header_count(0, u64::MAX), None);
    assert_eq!(header_count(1, u64::MAX), Some(u64::MAX));
}
