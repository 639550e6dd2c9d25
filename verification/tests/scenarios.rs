//! End-to-end scenarios: settlement, commissions, cliffs, deposits, receiver
//! transfer, staking, routing, and the bridged-chain entry points.

use streaming::contract::Contract;
use streaming::err::ContractError;
use streaming::interface::token_calls::CreateRequest;
use streaming::interface::token_calls::TransferCallRequest;
use streaming::interface::token_calls::AuroraOperationalRequest;
use streaming::primitives::StreamFinishReason;
use streaming::primitives::StreamStatus;
use streaming::primitives::DEFAULT_COMMISSION_NON_PAYMENT_FT;
use streaming::primitives::DEFAULT_GAS_FOR_FT_TRANSFER;
use streaming::primitives::DEFAULT_GAS_FOR_STORAGE_DEPOSIT;
use streaming::primitives::DEFAULT_STORAGE_BALANCE;
use streaming::safe_float::SafeFloat;
use streaming::stream::Stream;
use streaming::token::Token;
use streaming::transfer::Instruction;

const E23: u128 = 100_000_000_000_000_000_000_000;
const SEC: u64 = 1_000_000_000;

fn finance_id() -> String {
    "finance.near".to_string()
}

fn dao_id() -> String {
    "dao.near".to_string()
}

fn utility_token_id() -> String {
    "utilitytoken.near".to_string()
}

fn token_id() -> String {
    "token.near".to_string()
}

fn alice() -> String {
    "alice.near".to_string()
}

fn bob() -> String {
    "bob.near".to_string()
}

fn carol() -> String {
    "carol.near".to_string()
}

fn new_contract() -> Contract {
    Contract::new(dao_id(), finance_id(), utility_token_id(), 18)
}

fn listed_token(coc: u128, coef: SafeFloat) -> Token {
    Token {
        account_id: token_id(),
        is_payment: true,
        commission_on_create: coc,
        commission_coef: coef,
        commission_on_transfer: 10,
        storage_balance_needed: DEFAULT_STORAGE_BALANCE,
        gas_for_ft_transfer: DEFAULT_GAS_FOR_FT_TRANSFER,
        gas_for_storage_deposit: DEFAULT_GAS_FOR_STORAGE_DEPOSIT,
    }
}

fn payment_amount(ins: &Instruction) -> (String, u128) {
    match ins {
        Instruction::FtTransferFromFinance { receiver_id, amount, .. } => {
            (receiver_id.clone(), *amount)
        },
        _ => panic!("expected a finance transfer"),
    }
}

#[test]
fn test_basic_stream_stop_settlement() {
    let mut contract = new_contract();
    let coef = SafeFloat { val: 4, pow: -3 };
    assert!(contract.dao_update_token(&dao_id(), listed_token(E23, coef)).is_ok());
    // Fund 101e23 at 1e23 per second; the creation commission leaves 100e23.
    let r = contract.ft_on_transfer(
        alice(),
        token_id(),
        101 * E23,
        Some(TransferCallRequest::Create {
            request: CreateRequest {
                description: None,
                owner_id: alice(),
                receiver_id: bob(),
                tokens_per_sec: E23,
                cliff_period_sec: None,
                is_auto_start_enabled: None,
                is_expirable: None,
                is_locked: None,
            },
        }),
        1,
        0,
    );
    let (refund, _instr) = r.unwrap();
    assert_eq!(refund, 0);
    let s = contract.get_stream(1).unwrap();
    assert_eq!(s.balance, 100 * E23);
    assert_eq!(s.status, StreamStatus::Active);
    // Everything accrues over 100 seconds; stopping then settles the whole
    // principal to the receiver, minus the 0.4% commission.
    let now = 100 * SEC;
    let promises = contract.stop_stream_op(&alice(), 1, now).unwrap();
    let expected_commission = coef.mult_safe(100 * E23 - 1) + 1;
    assert_eq!(expected_commission, 4 * E23 / 10);
    let expected_payment = 100 * E23 - expected_commission;
    assert_eq!(promises.len(), 1);
    let (receiver, amount) = payment_amount(&promises[0]);
    assert_eq!(receiver, bob());
    assert_eq!(amount, expected_payment);
    let s = contract.get_stream(1).unwrap();
    assert_eq!(s.balance, 0);
    assert_eq!(
        s.status,
        StreamStatus::Finished { reason: StreamFinishReason::FinishedNaturally }
    );
    let (_, _, received) = contract.get_account_ft(&bob(), &token_id()).unwrap();
    assert_eq!(received, expected_payment);
}

#[test]
fn test_min_speed_long_duration() {
    let mut contract = new_contract();
    let coef = SafeFloat { val: 1, pow: -2 };
    assert!(contract.dao_update_token(&dao_id(), listed_token(1_000_000, coef)).is_ok());
    let funded: u128 = 1_000_006 + 3700;
    let r = contract.ft_on_transfer(
        alice(),
        token_id(),
        funded,
        Some(TransferCallRequest::Create {
            request: CreateRequest {
                description: None,
                owner_id: alice(),
                receiver_id: bob(),
                tokens_per_sec: 1,
                cliff_period_sec: None,
                is_auto_start_enabled: None,
                is_expirable: None,
                is_locked: None,
            },
        }),
        2,
        0,
    );
    assert_eq!(r.unwrap().0, 0);
    let balance0 = funded - 1_000_000;
    assert_eq!(contract.get_stream(2).unwrap().balance, balance0);
    // Each 1-unit withdrawal still charges at least 1 unit of commission.
    let p1 = contract.withdraw_op(&bob(), 2, SEC).unwrap();
    assert_eq!(p1.len(), 0); // payment 0: the whole unit went to commission
    assert_eq!(contract.get_stream(2).unwrap().tokens_total_withdrawn, 1);
    let p2 = contract.withdraw_op(&bob(), 2, 3 * SEC).unwrap();
    assert_eq!(p2.len(), 1);
    let (_, amount) = payment_amount(&p2[0]);
    assert_eq!(amount, 1); // 2 accrued: 1 commission, 1 paid
    // After the whole duration the stream drains and finishes naturally.
    let p3 = contract.withdraw_op(&bob(), 2, 10_000 * SEC).unwrap();
    assert_eq!(p3.len(), 1);
    let s = contract.get_stream(2).unwrap();
    assert_eq!(s.balance, 0);
    assert_eq!(s.tokens_total_withdrawn, balance0);
    assert_eq!(
        s.status,
        StreamStatus::Finished { reason: StreamFinishReason::FinishedNaturally }
    );
}

#[test]
fn test_locked_stream_commission_front_loading() {
    let mut contract = new_contract();
    let coef = SafeFloat { val: 4, pow: -3 };
    assert!(contract.dao_update_token(&dao_id(), listed_token(E23, coef)).is_ok());
    let r = contract.ft_on_transfer(
        alice(),
        token_id(),
        101 * E23,
        Some(TransferCallRequest::Create {
            request: CreateRequest {
                description: None,
                owner_id: alice(),
                receiver_id: bob(),
                tokens_per_sec: E23,
                cliff_period_sec: None,
                is_auto_start_enabled: Some(true),
                is_expirable: None,
                is_locked: Some(true),
            },
        }),
        3,
        0,
    );
    assert_eq!(r.unwrap().0, 0);
    // The whole lifetime commission is recorded at creation.
    let expected = E23 + coef.mult_safe(100 * E23 - 1) + 1;
    let (_, ts) = contract.get_token(&token_id());
    assert_eq!(ts.unwrap().total_commission_collected, expected);
    // A later withdrawal reports zero commission: the tally stays put.
    let promises = contract.withdraw_op(&bob(), 3, SEC).unwrap();
    assert_eq!(promises.len(), 1);
    let (_, ts) = contract.get_token(&token_id());
    assert_eq!(ts.unwrap().total_commission_collected, expected);
    // A locked stream cannot be paused, stopped or re-described mid-flight.
    assert!(matches!(
        contract.pause_stream_op(&alice(), 3, 2 * SEC),
        Err(ContractError::StreamLocked { .. })
    ));
    assert!(matches!(
        contract.stop_stream_op(&alice(), 3, 2 * SEC),
        Err(ContractError::StreamLocked { .. })
    ));
}

#[test]
fn test_unparsable_message_refunds_everything() {
    let mut contract = new_contract();
    let r = contract.ft_on_transfer(alice(), token_id(), 12345, None, 4, 0);
    let (refund, instructions) = r.unwrap();
    assert_eq!(refund, 12345);
    assert_eq!(instructions.len(), 0);
    // No state mutation: no account and no stream came into being.
    assert!(contract.get_stream(4).is_err());
    assert!(contract.get_account_ft(&alice(), &token_id()).is_err());
}

#[test]
fn test_cliff_blocks_withdraw_and_clears() {
    let mut contract = new_contract();
    assert!(contract.account_deposit(carol(), DEFAULT_COMMISSION_NON_PAYMENT_FT).is_ok());
    // Unlisted asset, cliff of 10 seconds, auto-started.
    assert!(
        contract
            .create_stream_op(
                None,
                carol(),
                alice(),
                bob(),
                token_id(),
                1000,
                1,
                Some(10),
                None,
                None,
                None,
                6,
                0,
            )
            .is_ok()
    );
    assert_eq!(
        contract.withdraw_op(&bob(), 6, 5 * SEC),
        Err(ContractError::CliffNotPassed { timestamp: 10 * SEC })
    );
    assert!(matches!(
        contract.pause_stream_op(&bob(), 6, 5 * SEC),
        Err(ContractError::CliffNotPassed { .. })
    ));
    let mut promises: Vec<Instruction> = Vec::new();
    assert!(matches!(
        contract.deposit_op(token_id(), 6, 50, 5 * SEC, &mut promises),
        Err(ContractError::CliffNotPassed { .. })
    ));
    // Stopping before the cliff pays the owner back, not the receiver.
    let promises = contract.stop_stream_op(&alice(), 6, 5 * SEC).unwrap();
    assert_eq!(promises.len(), 1);
    let (receiver, amount) = payment_amount(&promises[0]);
    assert_eq!(receiver, alice());
    assert_eq!(amount, 1000);
    assert_eq!(
        contract.get_stream(6).unwrap().status,
        StreamStatus::Finished { reason: StreamFinishReason::StoppedByOwner }
    );
}

#[test]
fn test_update_cliff_idempotent() {
    let mut stream = Stream::new(
        1,
        None,
        carol(),
        alice(),
        bob(),
        token_id(),
        100,
        1,
        Some(10 * SEC),
        true,
        false,
        0,
    );
    stream.update_cliff(5 * SEC);
    assert_eq!(stream.cliff, Some(10 * SEC));
    stream.update_cliff(10 * SEC);
    assert_eq!(stream.cliff, None);
    stream.update_cliff(10 * SEC);
    assert_eq!(stream.cliff, None);
}

#[test]
fn test_deposit_top_up_and_errors() {
    let mut contract = new_contract();
    assert!(contract.account_deposit(carol(), DEFAULT_COMMISSION_NON_PAYMENT_FT).is_ok());
    // Non-expirable stream keeps accepting deposits even when drained.
    assert!(
        contract
            .create_stream_op(
                None,
                carol(),
                alice(),
                bob(),
                token_id(),
                1000,
                1,
                None,
                None,
                Some(false),
                None,
                8,
                0,
            )
            .is_ok()
    );
    let mut promises: Vec<Instruction> = Vec::new();
    assert!(matches!(
        contract.deposit_op("other.near".to_string(), 8, 50, SEC, &mut promises),
        Err(ContractError::InvalidToken { .. })
    ));
    assert!(contract.deposit_op(token_id(), 8, 50, SEC, &mut promises).is_ok());
    assert_eq!(contract.get_stream(8).unwrap().balance, 1050);
    assert_eq!(promises.len(), 1);
}

#[test]
fn test_deposit_races_with_expiry() {
    let mut contract = new_contract();
    assert!(contract.account_deposit(carol(), DEFAULT_COMMISSION_NON_PAYMENT_FT).is_ok());
    assert!(
        contract
            .create_stream_op(
                None,
                carol(),
                alice(),
                bob(),
                token_id(),
                100,
                1,
                None,
                None,
                Some(true),
                None,
                10,
                0,
            )
            .is_ok()
    );
    // Everything accrued: the deposit is rejected and expiry wins, with the
    // settlement instruction still delivered.
    let mut promises: Vec<Instruction> = Vec::new();
    assert_eq!(
        contract.deposit_op(token_id(), 10, 50, 200 * SEC, &mut promises),
        Err(ContractError::StreamExpired { stream_id: 10 })
    );
    let s = contract.get_stream(10).unwrap();
    assert_eq!(s.balance, 0);
    assert!(s.status.is_terminated());
    assert_eq!(promises.len(), 1);
    let (receiver, amount) = payment_amount(&promises[0]);
    assert_eq!(receiver, bob());
    assert_eq!(amount, 100);
}

#[test]
fn test_change_receiver_moves_stream() {
    let mut contract = new_contract();
    let coef = SafeFloat { val: 4, pow: -3 };
    assert!(contract.dao_update_token(&dao_id(), listed_token(E23, coef)).is_ok());
    let r = contract.ft_on_transfer(
        alice(),
        token_id(),
        101 * E23,
        Some(TransferCallRequest::Create {
            request: CreateRequest {
                description: None,
                owner_id: alice(),
                receiver_id: bob(),
                tokens_per_sec: E23,
                cliff_period_sec: None,
                is_auto_start_enabled: None,
                is_expirable: None,
                is_locked: None,
            },
        }),
        12,
        0,
    );
    assert_eq!(r.unwrap().0, 0);
    // Moving the stream to the owner or to the current receiver is refused.
    assert!(matches!(
        contract.change_receiver_op(&bob(), 12, alice(), 0, 0, SEC),
        Err(ContractError::AccountNotExist { .. })
    ));
    // The creator's account exists already, so no registration is charged.
    let promises = contract.change_receiver_op(&bob(), 12, alice2(), 0, 0, SEC).unwrap();
    let s = contract.get_stream(12).unwrap();
    assert_eq!(s.receiver_id, alice2());
    assert_eq!(s.status, StreamStatus::Active);
    // The settlement payment to the old receiver comes first, the storage
    // registration for the new one last.
    assert!(promises.len() >= 2);
    let (receiver, _) = payment_amount(&promises[0]);
    assert_eq!(receiver, bob());
    assert!(matches!(promises.last().unwrap(), Instruction::StorageDeposit { .. }));
    let incoming_new = contract.get_account_ft(&alice2(), &token_id()).unwrap().0;
    let incoming_old = contract.get_account_ft(&bob(), &token_id()).unwrap().0;
    assert_eq!(incoming_old, 0);
    // A fresh account had no tracked tally to bump.
    assert_eq!(incoming_new, 0);
}

fn alice2() -> String {
    "alice2.near".to_string()
}

#[test]
fn test_stake_and_unstake() {
    let mut contract = new_contract();
    assert!(contract.account_deposit(carol(), DEFAULT_COMMISSION_NON_PAYMENT_FT).is_ok());
    // Staking a non-utility asset is refused.
    assert!(matches!(
        contract.ft_on_transfer(carol(), token_id(), 500, Some(TransferCallRequest::Stake), 1, 0),
        Err(ContractError::InvalidToken { .. })
    ));
    let r = contract.ft_on_transfer(
        carol(),
        utility_token_id(),
        500,
        Some(TransferCallRequest::Stake),
        1,
        0,
    );
    assert_eq!(r.unwrap().0, 0);
    assert!(matches!(
        contract.account_unstake(&carol(), 501),
        Err(ContractError::InvalidTokenWithdrawAmount { .. })
    ));
    let ins = contract.account_unstake(&carol(), 200).unwrap();
    match ins.unwrap() {
        Instruction::FtTransferFromSelf { token_account_id, receiver_id, amount, .. } => {
            assert_eq!(token_account_id, utility_token_id());
            assert_eq!(receiver_id, carol());
            assert_eq!(amount, 200);
        },
        _ => panic!("expected a self transfer"),
    }
}

#[test]
fn test_aurora_account_deposit_and_ops() {
    let mut contract = new_contract();
    assert!(contract.dao_add_oracle(&dao_id(), "oracle.near".to_string()).is_ok());
    assert!(
        contract
            .oracle_update_eth_near_ratio(&"oracle.near".to_string(), SafeFloat { val: 2, pow: 0 })
            .is_ok()
    );
    let sender = "f5cfbc74057c610c8ef151a439252680ac68c6dc".to_string();
    let r = contract.aurora_on_transfer(
        sender.clone(),
        DEFAULT_COMMISSION_NON_PAYMENT_FT,
        AuroraOperationalRequest::AccountDeposit,
        0,
    );
    assert_eq!(r.unwrap().0, 0);
    let view = contract.get_account(&sender, true).unwrap();
    assert_eq!(view.deposit, 2 * DEFAULT_COMMISSION_NON_PAYMENT_FT);
    // An operational request on a missing stream surfaces the error.
    assert!(matches!(
        contract.aurora_on_transfer(
            sender,
            0,
            AuroraOperationalRequest::StartStream { stream_id: 99 },
            0,
        ),
        Err(ContractError::StreamNotExist { .. })
    ));
}

#[test]
fn test_dao_authority_checks() {
    let mut contract = new_contract();
    assert!(matches!(
        contract.dao_update_token(&alice(), listed_token(0, SafeFloat { val: 0, pow: 0 })),
        Err(ContractError::CallerIsNotDao { .. })
    ));
    assert!(matches!(
        contract.oracle_update_eth_near_ratio(&alice(), SafeFloat { val: 0, pow: 0 }),
        Err(ContractError::UnknownOracle { .. })
    ));
    assert!(contract.dao_change_owner(&dao_id(), alice()).is_ok());
    assert!(matches!(
        contract.dao_change_owner(&dao_id(), bob()),
        Err(ContractError::CallerIsNotDao { .. })
    ));
    assert!(contract.dao_change_owner(&alice(), bob()).is_ok());
}

#[test]
fn test_pause_and_restart_keeps_totals() {
    let mut contract = new_contract();
    assert!(contract.account_deposit(carol(), DEFAULT_COMMISSION_NON_PAYMENT_FT).is_ok());
    assert!(
        contract
            .create_stream_op(
                None,
                carol(),
                alice(),
                bob(),
                token_id(),
                1000,
                5,
                None,
                None,
                None,
                None,
                14,
                0,
            )
            .is_ok()
    );
    assert_eq!(contract.get_account_ft(&bob(), &token_id()).unwrap().0, 5);
    assert_eq!(contract.get_account_ft(&alice(), &token_id()).unwrap().1, 5);
    // Pause after 2 seconds: 10 units settle, the rate leaves the tallies.
    let promises = contract.pause_stream_op(&bob(), 14, 2 * SEC).unwrap();
    assert_eq!(promises.len(), 1);
    let (receiver, amount) = payment_amount(&promises[0]);
    assert_eq!(receiver, bob());
    assert_eq!(amount, 10);
    let s = contract.get_stream(14).unwrap();
    assert_eq!(s.status, StreamStatus::Paused);
    assert_eq!(s.balance, 990);
    assert_eq!(s.tokens_total_withdrawn, 10);
    assert_eq!(contract.get_account_ft(&bob(), &token_id()).unwrap().0, 0);
    assert_eq!(contract.get_account_ft(&alice(), &token_id()).unwrap().1, 0);
    // Conservation: what was funded equals balance plus total withdrawn.
    assert_eq!(s.balance + s.tokens_total_withdrawn, 1000);
    // Restart and let it run dry.
    assert!(contract.start_stream_op(&alice(), 14, 3 * SEC).is_ok());
    let _ = contract.withdraw_op(&bob(), 14, 1000 * SEC).unwrap();
    let s = contract.get_stream(14).unwrap();
    assert_eq!(s.balance, 0);
    assert_eq!(s.tokens_total_withdrawn, 1000);
    assert_eq!(
        s.status,
        StreamStatus::Finished { reason: StreamFinishReason::FinishedNaturally }
    );
}

#[test]
fn test_batch_withdraw_settles_each_stream() {
    let mut contract = new_contract();
    assert!(contract.account_deposit(carol(), 2 * DEFAULT_COMMISSION_NON_PAYMENT_FT).is_ok());
    for id in [21u64, 22u64] {
        assert!(
            contract
                .create_stream_op(
                    None,
                    carol(),
                    alice(),
                    bob(),
                    token_id(),
                    1000,
                    5,
                    None,
                    None,
                    None,
                    None,
                    id,
                    0,
                )
                .is_ok()
        );
    }
    let promises = contract.withdraw(&bob(), &vec![21, 22], 2 * SEC).unwrap();
    assert_eq!(promises.len(), 2);
    for id in [21u64, 22u64] {
        let s = contract.get_stream(id).unwrap();
        assert_eq!(s.tokens_total_withdrawn, 10);
        assert_eq!(s.last_action, 2 * SEC);
    }
    // One bad id aborts the whole batch.
    assert!(contract.withdraw(&bob(), &vec![21, 999], 3 * SEC).is_err());
    // An empty batch succeeds and does nothing.
    assert_eq!(contract.withdraw(&bob(), &vec![], 3 * SEC).unwrap().len(), 0);
}

#[test]
fn test_nft_change_receiver_flow() {
    let mut contract = new_contract();
    let coef = SafeFloat { val: 4, pow: -3 };
    assert!(contract.dao_update_token(&dao_id(), listed_token(E23, coef)).is_ok());
    let r = contract.ft_on_transfer(
        alice(),
        token_id(),
        101 * E23,
        Some(TransferCallRequest::Create {
            request: CreateRequest {
                description: None,
                owner_id: alice(),
                receiver_id: bob(),
                tokens_per_sec: E23,
                cliff_period_sec: None,
                is_auto_start_enabled: None,
                is_expirable: None,
                is_locked: None,
            },
        }),
        23,
        0,
    );
    assert_eq!(r.unwrap().0, 0);
    let nft = "nft.near".to_string();
    // Before approval the NFT contract is refused.
    assert!(matches!(
        contract.nft_change_receiver(&nft, &bob(), 23, carol(), DEFAULT_STORAGE_BALANCE, SEC),
        Err(ContractError::NFTNotApproved { .. })
    ));
    assert!(contract.dao_add_approved_nft(&dao_id(), nft.clone()).is_ok());
    // A wrong signer is refused.
    assert!(matches!(
        contract.nft_change_receiver(&nft, &alice(), 23, carol(), DEFAULT_STORAGE_BALANCE, SEC),
        Err(ContractError::CallerIsNotStreamActor { .. })
    ));
    // Too little attached value is refused.
    assert!(matches!(
        contract.nft_change_receiver(&nft, &bob(), 23, carol(), 1, SEC),
        Err(ContractError::InsufficientDeposit { .. })
    ));
    let promises = contract
        .nft_change_receiver(&nft, &bob(), 23, carol(), DEFAULT_STORAGE_BALANCE, SEC)
        .unwrap();
    let s = contract.get_stream(23).unwrap();
    assert_eq!(s.receiver_id, carol());
    assert_eq!(s.status, StreamStatus::Active);
    assert!(matches!(promises.last().unwrap(), Instruction::StorageDeposit { .. }));
}

#[test]
fn test_full_commission_token_settlement() {
    // A 100% coefficient assigns every settled unit to commission.
    let mut token = streaming::token::Token::new_unlisted(&token_id());
    token.commission_coef = SafeFloat { val: 1, pow: 0 };
    let (net, commission) = token.apply_commission(5000);
    assert_eq!(net, 0);
    assert_eq!(commission, 5000);
}
