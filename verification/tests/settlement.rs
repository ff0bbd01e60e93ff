//! The deposit accountant on concrete values.

use post_it::accountant::{PostError, refund_extra_storage_deposit, should_transfer_refund};

#[test]
fn refund_is_the_exact_remainder() {
    assert_eq!(refund_extra_storage_deposit(10, 0, 100, 5), Ok(50));
    assert_eq!(refund_extra_storage_deposit(10, 20, 100, 5), Ok(30));
    assert_eq!(refund_extra_storage_deposit(0, 0, 0, 0), Ok(0));
    assert_eq!(refund_extra_storage_deposit(10, 0, 50, 5), Ok(0));
}

#[test]
fn short_deposit_is_rejected() {
    assert_eq!(
        refund_extra_storage_deposit(10, 0, 49, 5),
        Err(PostError::InsufficientDeposit)
    );
    // what the call already spent counts against the deposit
    assert_eq!(
        refund_extra_storage_deposit(10, 60, 100, 5),
        Err(PostError::InsufficientDeposit)
    );
    // more spent than attached
    assert_eq!(
        refund_extra_storage_deposit(0, 7, 5, 1),
        Err(PostError::InsufficientDeposit)
    );
}

#[test]
fn astronomical_cost_is_rejected_not_wrapped() {
    assert_eq!(
        refund_extra_storage_deposit(u128::MAX, 0, u128::MAX, 2),
        Err(PostError::InsufficientDeposit)
    );
}

#[test]
fn dust_refunds_are_kept() {
    assert!(!should_transfer_refund(0));
    assert!(!should_transfer_refund(1));
    assert!(should_transfer_refund(2));
}
