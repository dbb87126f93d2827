use tari_scenario::error::HarnessError;
use tari_scenario::payment::{
    accepted, memo, note_transfer, recipient, unit_recipient, PaymentType, Purpose, TransferResult, UNIT_TRANSFER_FEE,
};
use tari_scenario::world::World;

fn result(ok: bool, id: u64, message: &str) -> TransferResult {
    TransferResult { is_success: ok, transaction_id: id, failure_message: message.to_string() }
}

#[test]
fn memos_say_what_a_payment_is_for() {
    let transfer = Purpose::Transfer { from: "W1".to_string(), to: "W2".to_string() };
    assert_eq!(memo(&transfer, 1000, 5), "transfer amount 1000 from W1 to W2");
    let one_sided = Purpose::OneSided { from: "W1".to_string(), to: "W2".to_string() };
    assert_eq!(memo(&one_sided, 1000, 5), "One sided transfer amount 1000 from W1 to W2");
    let to_self = Purpose::ToSelf { from: "W1".to_string() };
    assert_eq!(memo(&to_self, 7, 5), "transfer amount 7 from W1 to self");
    let swap = Purpose::AtomicSwap { from: "W1".to_string(), to: "W2".to_string() };
    assert_eq!(memo(&swap, 1000, 5), "Atomic Swap from W1 to W2 with amount 1000 at fee 5");
}

#[test]
fn payment_types_have_their_codes() {
    assert_eq!(PaymentType::Standard.code(), 0);
    assert_eq!(PaymentType::OneSided.code(), 1);
}

#[test]
fn a_recipient_carries_amount_fee_and_memo() {
    let one_sided = Purpose::OneSided { from: "A".to_string(), to: "B".to_string() };
    let r = recipient(&one_sided, "addr_b".to_string(), 500, 20);
    assert_eq!(r.address, "addr_b");
    assert_eq!(r.amount, 500);
    assert_eq!(r.fee_per_gram, 20);
    assert_eq!(r.message, "One sided transfer amount 500 from A to B");
    assert_eq!(r.payment_type, PaymentType::OneSided);
    let swap = Purpose::AtomicSwap { from: "A".to_string(), to: "B".to_string() };
    assert_eq!(recipient(&swap, "addr_b".to_string(), 1, 2).payment_type, PaymentType::Standard);
}

#[test]
fn a_transfer_in_whole_units_goes_out_in_micro_units() {
    let r = unit_recipient("A".to_string(), "B".to_string(), "addr_b".to_string(), 3).unwrap();
    assert_eq!(r.amount, 3_000_000);
    assert_eq!(r.fee_per_gram, 10);
    assert_eq!(UNIT_TRANSFER_FEE, 10);
    assert_eq!(r.message, "transfer amount 3 from A to B");
    assert_eq!(r.payment_type, PaymentType::Standard);
    assert!(unit_recipient("A".to_string(), "B".to_string(), "x".to_string(), u64::MAX).is_none());
}

#[test]
fn accepted_transfers_give_their_identifiers() {
    assert_eq!(accepted(&vec![result(true, 11, "")], 1), Ok(vec![11]));
    assert_eq!(accepted(&vec![result(true, 11, ""), result(true, 12, "")], 2), Ok(vec![11, 12]));
    assert_eq!(accepted(&vec![], 0), Ok(vec![]));
}

#[test]
fn a_failed_transfer_is_a_failed_call() {
    assert_eq!(
        accepted(&vec![result(true, 11, ""), result(false, 0, "not enough funds"), result(false, 0, "later")], 3),
        Err(HarnessError::RpcCallFailed { reason: "not enough funds".to_string() })
    );
    assert_eq!(
        accepted(&vec![result(true, 11, "")], 2),
        Err(HarnessError::RpcCallFailed { reason: "wallet answered for 1 recipients instead of 2".to_string() })
    );
    assert_eq!(
        accepted(&vec![result(false, 1, "bad")], 0),
        Err(HarnessError::RpcCallFailed { reason: "wallet answered for 1 recipients instead of 0".to_string() })
    );
}

#[test]
fn a_transfer_is_noted_for_both_wallets() {
    let mut world = World::new();
    note_transfer(&mut world, "aa".to_string(), "bb".to_string(), 1);
    note_transfer(&mut world, "aa".to_string(), "cc".to_string(), 2);
    note_transfer(&mut world, "cc".to_string(), "cc".to_string(), 3);
    assert_eq!(*world.tx_ids("aa").unwrap(), vec![1, 2]);
    assert_eq!(*world.tx_ids("bb").unwrap(), vec![1]);
    assert_eq!(*world.tx_ids("cc").unwrap(), vec![2, 3, 3]);
}
