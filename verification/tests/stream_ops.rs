//! Stream store handling, creation, and the per-operation error taxonomy.

use streaming::contract::Contract;
use streaming::err::ContractError;
use streaming::primitives::StreamStatus;
use streaming::primitives::DEFAULT_COMMISSION_NON_PAYMENT_FT;
use streaming::primitives::MAX_STREAMING_SPEED;
use streaming::stream::Stream;
use streaming::stream::StreamView;
use streaming::stream::VStream;

fn finance_id() -> String {
    "finance.near".to_string()
}

fn dao_id() -> String {
    "dao.near".to_string()
}

fn utility_token_id() -> String {
    "utilitytoken.near".to_string()
}

fn alice() -> String {
    "alice.near".to_string()
}

fn bob() -> String {
    "bob.near".to_string()
}

fn carol() -> String {
    "carol.near".to_string()
}

fn new_contract() -> Contract {
    Contract::new(dao_id(), finance_id(), utility_token_id(), 18)
}

fn new_stream() -> Stream {
    Stream::new(
        4455,
        Some("blah".to_string()),
        carol(),
        alice(),
        bob(),
        "token.near".to_string(),
        1_000_000_000_000_000_000_000_000_000,     // 1e27
        1_000_000_000_000_000_000_000_000,         // 1e24
        None,
        true,
        false,
        0,
    )
}

#[test]
fn test_save_extract_stream() {
    let mut contract = new_contract();
    let stream_id = new_stream().id;
    assert!(contract.extract_stream(stream_id).is_err());
    assert!(contract.save_stream(new_stream()).is_ok());
    assert!(contract.save_stream(new_stream()).is_err());
    assert!(contract.extract_stream(stream_id).is_ok());
    assert!(contract.extract_stream(stream_id).is_err());
}

#[test]
fn test_create_stream() {
    let mut contract = new_contract();
    let stream = new_stream();
    assert_eq!(
        contract.create_stream_op(
            stream.description,
            carol(),
            stream.owner_id,
            stream.receiver_id,
            stream.token_account_id,
            stream.balance,
            stream.tokens_per_sec,
            None,
            None,
            None,
            None,
            1,
            0,
        ),
        Err(ContractError::InsufficientNearBalance {
            requested: 100000000000000000000000u128,
            left: 0,
        })
    );

    assert!(contract.account_deposit(carol(), DEFAULT_COMMISSION_NON_PAYMENT_FT).is_ok());
    let stream = new_stream();
    assert!(
        contract
            .create_stream_op(
                stream.description,
                carol(),
                stream.owner_id,
                stream.receiver_id,
                stream.token_account_id,
                stream.balance,
                stream.tokens_per_sec,
                None,
                None,
                None,
                None,
                1,
                0,
            )
            .is_ok()
    );
    let created = contract.get_stream(1).unwrap();
    assert_eq!(created.status, StreamStatus::Active);
    assert_eq!(created.balance, 1_000_000_000_000_000_000_000_000_000);
}

#[test]
fn test_create_stream_to_aurora() {
    let mut contract = new_contract();
    assert!(contract.account_deposit(carol(), DEFAULT_COMMISSION_NON_PAYMENT_FT).is_ok());
    let mut stream = new_stream();
    stream.receiver_id = "f5cfbc74057c610c8ef151a439252680ac68c6dc".to_string();
    assert!(
        contract
            .create_stream_op(
                stream.description,
                carol(),
                stream.owner_id,
                stream.receiver_id,
                stream.token_account_id,
                stream.balance,
                stream.tokens_per_sec,
                None,
                None,
                None,
                None,
                7,
                0,
            )
            .is_ok()
    );
}

#[test]
fn test_transfer_to_aurora() {
    let contract = new_contract();
    let aurora_address = "f5cfbc74057c610c8ef151a439252680ac68c6dc".to_string();
    assert!(streaming::aurora::is_aurora_address(&aurora_address));
    assert!(!streaming::aurora::is_aurora_address(&alice()));
    assert!(
        contract
            .ft_transfer_from_self(
                streaming::aurora::aurora_account_id(),
                aurora_address.clone(),
                123456,
            )
            .is_ok()
    );
    assert!(contract.ft_transfer_from_self("token.near".to_string(), aurora_address, 123456).is_ok());
}

#[test]
fn test_create_validation_errors() {
    let mut contract = new_contract();
    assert!(contract.account_deposit(carol(), DEFAULT_COMMISSION_NON_PAYMENT_FT).is_ok());
    // Speed out of bounds.
    let r = contract.create_stream_op(
        None,
        carol(),
        alice(),
        bob(),
        "token.near".to_string(),
        100,
        0,
        None,
        None,
        None,
        None,
        2,
        0,
    );
    assert!(matches!(r, Err(ContractError::InvalidStreamingSpeed { .. })));
    let r = contract.create_stream_op(
        None,
        carol(),
        alice(),
        bob(),
        "token.near".to_string(),
        100,
        MAX_STREAMING_SPEED + 1,
        None,
        None,
        None,
        None,
        2,
        0,
    );
    assert!(matches!(r, Err(ContractError::InvalidStreamingSpeed { .. })));
    // Description over the limit.
    let long = "x".repeat(255);
    let r = contract.create_stream_op(
        Some(long),
        carol(),
        alice(),
        bob(),
        "token.near".to_string(),
        100,
        1,
        None,
        None,
        None,
        None,
        2,
        0,
    );
    assert!(matches!(r, Err(ContractError::DescriptionTooLong { .. })));
    // A cliff demands auto-start.
    let r = contract.create_stream_op(
        None,
        carol(),
        alice(),
        bob(),
        "token.near".to_string(),
        100,
        1,
        Some(10),
        Some(false),
        None,
        None,
        2,
        0,
    );
    assert_eq!(r, Err(ContractError::MustStartImmediately));
    // A self-stream is rejected.
    let r = contract.create_stream_op(
        None,
        carol(),
        alice(),
        alice(),
        "token.near".to_string(),
        100,
        1,
        None,
        None,
        None,
        None,
        2,
        0,
    );
    assert!(matches!(r, Err(ContractError::AccountNotExist { .. })));
}

#[test]
fn test_start_pause_stop_errors() {
    let mut contract = new_contract();
    assert!(contract.account_deposit(carol(), DEFAULT_COMMISSION_NON_PAYMENT_FT).is_ok());
    // Created without auto-start: stays Initialized.
    assert!(
        contract
            .create_stream_op(
                None,
                carol(),
                alice(),
                bob(),
                "token.near".to_string(),
                1000,
                1,
                None,
                Some(false),
                None,
                None,
                5,
                0,
            )
            .is_ok()
    );
    assert_eq!(contract.get_stream(5).unwrap().status, StreamStatus::Initialized);
    // Nobody but the owner may start.
    assert!(matches!(
        contract.start_stream_op(&bob(), 5, 1),
        Err(ContractError::CallerIsNotStreamOwner { .. })
    ));
    // Pausing a stream that is not active is refused.
    assert!(matches!(
        contract.pause_stream_op(&alice(), 5, 1),
        Err(ContractError::CannotPauseStream { .. })
    ));
    // A stranger cannot stop.
    assert!(matches!(
        contract.stop_stream_op(&carol(), 5, 1),
        Err(ContractError::CallerIsNotStreamActor { .. })
    ));
    assert!(contract.start_stream_op(&alice(), 5, 1).is_ok());
    assert_eq!(contract.get_stream(5).unwrap().status, StreamStatus::Active);
    // Starting twice is refused.
    assert!(matches!(
        contract.start_stream_op(&alice(), 5, 2),
        Err(ContractError::CannotStartStream { .. })
    ));
    // Stop by the receiver, then every action on the terminal stream fails.
    assert!(contract.stop_stream_op(&bob(), 5, 2).is_ok());
    let finished = contract.get_stream(5).unwrap();
    assert!(finished.status.is_terminated());
    assert_eq!(finished.balance, 0);
    assert!(matches!(
        contract.stop_stream_op(&alice(), 5, 3),
        Err(ContractError::CannotStopStream { .. })
    ));
    assert!(matches!(
        contract.withdraw_op(&bob(), 5, 3),
        Err(ContractError::CannotWithdraw { .. })
    ));
    // An unknown stream is reported as missing.
    assert_eq!(
        contract.start_stream_op(&alice(), 777, 3),
        Err(ContractError::StreamNotExist { stream_id: 777 })
    );
}

#[test]
fn test_withdraw_cron_forbidden() {
    let mut contract = new_contract();
    assert!(contract.account_deposit(carol(), DEFAULT_COMMISSION_NON_PAYMENT_FT).is_ok());
    assert!(
        contract
            .create_stream_op(
                None,
                carol(),
                alice(),
                bob(),
                "token.near".to_string(),
                1000,
                1,
                None,
                None,
                None,
                None,
                9,
                0,
            )
            .is_ok()
    );
    // Only the receiver may withdraw while automated calls are off.
    assert!(matches!(
        contract.withdraw_op(&alice(), 9, 1_000_000_000),
        Err(ContractError::CronCallsForbidden { .. })
    ));
    // Once the receiver allows automated withdrawal, anyone can trigger it.
    assert!(contract.account_update_cron_flag(&bob(), true).is_ok());
    assert!(contract.withdraw_op(&alice(), 9, 1_000_000_000).is_ok());
    assert_eq!(contract.get_stream(9).unwrap().tokens_total_withdrawn, 1);
}

#[test]
fn test_change_description() {
    let mut contract = new_contract();
    assert!(contract.account_deposit(carol(), DEFAULT_COMMISSION_NON_PAYMENT_FT).is_ok());
    assert!(
        contract
            .create_stream_op(
                Some("old".to_string()),
                carol(),
                alice(),
                bob(),
                "token.near".to_string(),
                1000,
                1,
                None,
                None,
                None,
                None,
                11,
                0,
            )
            .is_ok()
    );
    assert!(matches!(
        contract.change_description_op(&bob(), 11, Some("hijack".to_string())),
        Err(ContractError::CallerIsNotStreamOwner { .. })
    ));
    assert!(contract.change_description_op(&alice(), 11, Some("new".to_string())).is_ok());
    assert_eq!(contract.get_stream(11).unwrap().description, Some("new".to_string()));
}

#[test]
fn test_stream_view_images_stream() {
    let stream = new_stream();
    let view = StreamView::from(&stream);
    assert_eq!(view.id, stream.id);
    assert_eq!(view.balance, stream.balance);
    assert_eq!(view.tokens_per_sec, stream.tokens_per_sec);
    assert_eq!(view.owner_id, stream.owner_id);
    assert_eq!(view.receiver_id, stream.receiver_id);
    assert_eq!(view.status, stream.status);
}

#[test]
fn test_vstream_round_trip() {
    let stream = new_stream();
    let id = stream.id;
    let v = VStream::from(stream);
    let back = v.into_stream();
    assert_eq!(back.id, id);
}
