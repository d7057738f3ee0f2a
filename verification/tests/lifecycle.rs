use money_stream_program::errors::StreamError;
use money_stream_program::ledger::Authority;
use money_stream_program::lifecycle::StreamSystem;

const INITIALIZER: u64 = 1;
const TAKER: u64 = 2;
const RETURN_ACCOUNT: u64 = 10;
const VAULT: u64 = 20;
const TAKER_ACCOUNT: u64 = 30;

/// A system with the usual three accounts and an active stream.
fn streaming_system(limit: u64, step: u64, rate: u64) -> StreamSystem {
    let mut sys = StreamSystem::new();
    assert_eq!(sys.open_account(RETURN_ACCOUNT, 5000, INITIALIZER), Ok(()));
    assert_eq!(sys.open_account(VAULT, 0, INITIALIZER), Ok(()));
    assert_eq!(sys.open_account(TAKER_ACCOUNT, 0, TAKER), Ok(()));
    assert_eq!(sys.create(INITIALIZER, RETURN_ACCOUNT, VAULT, limit, step, rate), Ok(()));
    sys
}

#[test]
fn create_funds_vault_and_delegates_authority() {
    let sys = streaming_system(1000, 2, 100);
    assert!(sys.is_active());
    let vault = sys.account(VAULT).unwrap();
    assert_eq!(vault.balance, 1000);
    assert_eq!(vault.authority, Authority::Delegated);
    assert_eq!(sys.account(RETURN_ACCOUNT).unwrap().balance, 4000);
    let rec = sys.record().unwrap();
    assert_eq!(rec.initializer_identity, INITIALIZER);
    assert_eq!(rec.initializer_return_identity, RETURN_ACCOUNT);
    assert_eq!(rec.vault_identity, VAULT);
    assert_eq!(rec.limit, 1000);
    assert_eq!(rec.step, 2);
    assert_eq!(rec.rate, 100);
    assert_eq!(sys.supply(), 5000);
}

#[test]
fn stream_flow_with_two_ticks_then_withdraw() {
    let mut sys = streaming_system(1000, 2, 100);
    assert_eq!(sys.tick(INITIALIZER), Ok(()));
    assert_eq!(sys.tick(INITIALIZER), Ok(()));
    assert_eq!(sys.record().unwrap().step, 4);
    assert_eq!(sys.withdraw(TAKER, TAKER_ACCOUNT, INITIALIZER, RETURN_ACCOUNT), Ok(()));
    assert_eq!(sys.account(TAKER_ACCOUNT).unwrap().balance, 400);
    assert_eq!(sys.account(RETURN_ACCOUNT).unwrap().balance, 4600);
    assert!(sys.account(VAULT).is_none());
    assert!(sys.record().is_none());
    assert_eq!(sys.supply(), 5000);
}

#[test]
fn create_with_limit_below_step_fails() {
    let mut sys = StreamSystem::new();
    assert_eq!(sys.open_account(RETURN_ACCOUNT, 5000, INITIALIZER), Ok(()));
    assert_eq!(sys.open_account(VAULT, 0, INITIALIZER), Ok(()));
    assert_eq!(
        sys.create(INITIALIZER, RETURN_ACCOUNT, VAULT, 100, 150, 1),
        Err(StreamError::LimitTooLow)
    );
    assert!(!sys.is_active());
    assert_eq!(sys.account(RETURN_ACCOUNT).unwrap().balance, 5000);
    assert_eq!(sys.account(VAULT).unwrap().balance, 0);
    assert_eq!(sys.account(VAULT).unwrap().authority, Authority::Holder(INITIALIZER));
}

#[test]
fn second_terminal_operation_fails() {
    let mut sys = streaming_system(1000, 2, 100);
    assert_eq!(sys.cancel(INITIALIZER, TAKER_ACCOUNT), Ok(()));
    assert_eq!(sys.cancel(INITIALIZER, TAKER_ACCOUNT), Err(StreamError::InvalidState));
    assert_eq!(
        sys.withdraw(TAKER, TAKER_ACCOUNT, INITIALIZER, RETURN_ACCOUNT),
        Err(StreamError::InvalidState)
    );
    assert_eq!(sys.tick(INITIALIZER), Err(StreamError::InvalidState));
    assert_eq!(sys.balance(TAKER, INITIALIZER), Err(StreamError::InvalidState));
}

#[test]
fn withdraw_then_second_terminal_operation_fails() {
    let mut sys = streaming_system(1000, 2, 100);
    assert_eq!(sys.withdraw(TAKER, TAKER_ACCOUNT, INITIALIZER, RETURN_ACCOUNT), Ok(()));
    assert_eq!(
        sys.withdraw(TAKER, TAKER_ACCOUNT, INITIALIZER, RETURN_ACCOUNT),
        Err(StreamError::InvalidState)
    );
    assert_eq!(sys.cancel(INITIALIZER, TAKER_ACCOUNT), Err(StreamError::InvalidState));
    assert_eq!(sys.tick(INITIALIZER), Err(StreamError::InvalidState));
}

#[test]
fn cancel_by_non_initializer_fails() {
    let mut sys = streaming_system(1000, 2, 100);
    assert_eq!(sys.cancel(99, TAKER_ACCOUNT), Err(StreamError::Unauthorized));
    assert!(sys.is_active());
    assert_eq!(sys.account(VAULT).unwrap().balance, 1000);
    assert_eq!(sys.account(TAKER_ACCOUNT).unwrap().balance, 0);
    assert_eq!(sys.account(RETURN_ACCOUNT).unwrap().balance, 4000);
}

#[test]
fn tick_at_exhaustion_fails_and_leaves_step() {
    let mut sys = streaming_system(1000, 9, 100);
    assert_eq!(sys.tick(INITIALIZER), Ok(()));
    assert_eq!(sys.record().unwrap().step, 10);
    assert_eq!(sys.tick(INITIALIZER), Err(StreamError::StepLimitExceeded));
    assert_eq!(sys.record().unwrap().step, 10);
}

#[test]
fn ticks_advance_step_while_limit_covers_them() {
    let mut sys = streaming_system(1000, 0, 100);
    for _ in 0..10 {
        assert_eq!(sys.tick(INITIALIZER), Ok(()));
    }
    assert_eq!(sys.record().unwrap().step, 10);
    assert_eq!(sys.tick(INITIALIZER), Err(StreamError::StepLimitExceeded));
}

#[test]
fn tick_by_non_initializer_fails() {
    let mut sys = streaming_system(1000, 2, 100);
    assert_eq!(sys.tick(TAKER), Err(StreamError::Unauthorized));
    assert_eq!(sys.record().unwrap().step, 2);
}

#[test]
fn balance_checks_supplied_initializer() {
    let sys = streaming_system(1000, 2, 100);
    assert_eq!(sys.balance(TAKER, INITIALIZER), Ok(()));
    assert_eq!(sys.balance(TAKER, 99), Err(StreamError::Unauthorized));
}

#[test]
fn cancel_splits_at_current_step() {
    let mut sys = streaming_system(1000, 2, 100);
    assert_eq!(sys.cancel(INITIALIZER, TAKER_ACCOUNT), Ok(()));
    assert_eq!(sys.account(TAKER_ACCOUNT).unwrap().balance, 200);
    assert_eq!(sys.account(RETURN_ACCOUNT).unwrap().balance, 4800);
    assert!(sys.account(VAULT).is_none());
    assert!(sys.record().is_none());
}

#[test]
fn cancel_with_unknown_taker_account_fails() {
    let mut sys = streaming_system(1000, 2, 100);
    assert_eq!(sys.cancel(INITIALIZER, 99), Err(StreamError::InvalidState));
    assert!(sys.is_active());
    assert_eq!(sys.account(VAULT).unwrap().balance, 1000);
}

#[test]
fn withdraw_with_unknown_taker_account_fails() {
    let mut sys = streaming_system(1000, 2, 100);
    assert_eq!(
        sys.withdraw(TAKER, 99, INITIALIZER, RETURN_ACCOUNT),
        Err(StreamError::Unauthorized)
    );
    assert!(sys.is_active());
}

#[test]
fn withdraw_requires_control_of_taker_account() {
    let mut sys = streaming_system(1000, 2, 100);
    // the taker account presented is controlled by the initializer, not the caller
    assert_eq!(
        sys.withdraw(TAKER, RETURN_ACCOUNT, INITIALIZER, RETURN_ACCOUNT),
        Err(StreamError::Unauthorized)
    );
    assert!(sys.is_active());
}

#[test]
fn withdraw_requires_matching_record_fields() {
    let mut sys = streaming_system(1000, 2, 100);
    assert_eq!(
        sys.withdraw(TAKER, TAKER_ACCOUNT, 99, RETURN_ACCOUNT),
        Err(StreamError::Unauthorized)
    );
    assert_eq!(
        sys.withdraw(TAKER, TAKER_ACCOUNT, INITIALIZER, 99),
        Err(StreamError::Unauthorized)
    );
    assert!(sys.is_active());
}

#[test]
fn overconsumed_stream_refuses_settlement() {
    // limit covers the pre-funded steps (100 >= 50) but not their metered
    // value (100 * 50 > 100): settlement must refuse rather than underflow.
    let mut sys = streaming_system(100, 50, 100);
    assert_eq!(sys.cancel(INITIALIZER, TAKER_ACCOUNT), Err(StreamError::InvariantViolation));
    assert!(sys.is_active());
    assert_eq!(sys.account(VAULT).unwrap().balance, 100);
    assert_eq!(sys.tick(INITIALIZER), Err(StreamError::StepLimitExceeded));
}

#[test]
fn create_while_active_fails() {
    let mut sys = streaming_system(1000, 2, 100);
    assert_eq!(
        sys.create(INITIALIZER, RETURN_ACCOUNT, VAULT, 500, 0, 1),
        Err(StreamError::InvalidState)
    );
}

#[test]
fn create_requires_suitable_vault() {
    let mut sys = StreamSystem::new();
    assert_eq!(sys.open_account(RETURN_ACCOUNT, 5000, INITIALIZER), Ok(()));
    // missing vault
    assert_eq!(
        sys.create(INITIALIZER, RETURN_ACCOUNT, VAULT, 1000, 2, 100),
        Err(StreamError::InvalidState)
    );
    // vault must differ from the return account
    assert_eq!(
        sys.create(INITIALIZER, RETURN_ACCOUNT, RETURN_ACCOUNT, 1000, 2, 100),
        Err(StreamError::InvalidState)
    );
    // vault must start empty
    assert_eq!(sys.open_account(VAULT, 7, INITIALIZER), Ok(()));
    assert_eq!(
        sys.create(INITIALIZER, RETURN_ACCOUNT, VAULT, 1000, 2, 100),
        Err(StreamError::InvalidState)
    );
    assert!(!sys.is_active());
}

#[test]
fn create_with_insufficient_funds_fails() {
    let mut sys = StreamSystem::new();
    assert_eq!(sys.open_account(RETURN_ACCOUNT, 500, INITIALIZER), Ok(()));
    assert_eq!(sys.open_account(VAULT, 0, INITIALIZER), Ok(()));
    assert_eq!(
        sys.create(INITIALIZER, RETURN_ACCOUNT, VAULT, 1000, 2, 100),
        Err(StreamError::InsufficientFunds)
    );
    assert!(!sys.is_active());
    assert_eq!(sys.account(RETURN_ACCOUNT).unwrap().balance, 500);
}

#[test]
fn create_requires_initializer_to_own_source() {
    let mut sys = StreamSystem::new();
    assert_eq!(sys.open_account(RETURN_ACCOUNT, 5000, TAKER), Ok(()));
    assert_eq!(sys.open_account(VAULT, 0, INITIALIZER), Ok(()));
    assert_eq!(
        sys.create(INITIALIZER, RETURN_ACCOUNT, VAULT, 1000, 2, 100),
        Err(StreamError::Unauthorized)
    );
    assert!(!sys.is_active());
    assert_eq!(sys.account(RETURN_ACCOUNT).unwrap().balance, 5000);
}

#[test]
fn zero_rate_stream_settles_everything_back() {
    let mut sys = streaming_system(1000, 5, 0);
    assert_eq!(sys.tick(INITIALIZER), Ok(()));
    assert_eq!(sys.cancel(INITIALIZER, TAKER_ACCOUNT), Ok(()));
    assert_eq!(sys.account(TAKER_ACCOUNT).unwrap().balance, 0);
    assert_eq!(sys.account(RETURN_ACCOUNT).unwrap().balance, 5000);
}
