//! Fully matching the open side of a resting order: the taker's offer must
//! repeat the outcome tuple, leave the matched side's recorded stake intact,
//! and never shrink the implied payout below what the record promises.
use vstd::prelude::*;

use crate::maker::{payload_stake0, payload_stake1};
use crate::utils::{pow256, ids_match, ids_match_spec, is_blank, blank_wallet, correct_pool,
    equal_wallets, wallets_eq, bytes_to_num, BetAcc};
use crate::{BetError, ExchangeConfig};

verus! {

/// The targeted side is already filled.
pub open spec fn side_filled(rec: BetAcc, side: u8) -> bool {
    (side == 0 && !is_blank(rec.wallet0)) || (side == 1 && !is_blank(rec.wallet1))
}

/// The offer worsens the resting price: on the targeted side the taker may
/// raise the stake but never lower it, and the opposite side's stake must be
/// exactly what the record holds.
pub open spec fn taker_odds_bad(rec: BetAcc, data: Seq<u8>) -> bool {
    let s0 = payload_stake0(data);
    let s1 = payload_stake1(data);
    (data[36] == 0 && (s0 < rec.stake0 || s1 != rec.stake1)) || (data[36] == 1 && (s1 < rec.stake1
        || s0 != rec.stake0))
}

/// Only the aggregation operator may match an aggregated or free-bet order.
pub open spec fn match_unauthorized(rec: BetAcc, bettor: [u8; 32], cfg: ExchangeConfig) -> bool {
    (rec.to_aggregate || rec.is_free_bet) && !wallets_eq(bettor, cfg.operator)
}

/// The record after a full match, with the stake the taker escrows: the
/// taker's wallet and offered stake land on the targeted side. A side byte
/// other than 0 or 1 matches nothing and escrows nothing.
pub open spec fn taker_filled(rec: BetAcc, data: Seq<u8>, bettor: [u8; 32]) -> (BetAcc, u64) {
    if data[36] == 0 {
        (BetAcc { stake0: payload_stake0(data), wallet0: bettor, ..rec }, payload_stake0(data))
    } else if data[36] == 1 {
        (BetAcc { stake1: payload_stake1(data), wallet1: bettor, ..rec }, payload_stake1(data))
    } else {
        (rec, 0)
    }
}

/// What a full-match request does: validation in the order the exchange
/// applies it, then the filled record and the taker's escrow.
pub open spec fn taker_spec(
    rec: BetAcc,
    data: Seq<u8>,
    destination: [u8; 32],
    bettor: [u8; 32],
    token_program: [u8; 32],
    cfg: ExchangeConfig,
) -> Result<(BetAcc, u64), BetError> {
    if !wallets_eq(destination, cfg.pool) {
        Err(BetError::InvalidArgument)
    } else if !ids_match_spec(rec, data) {
        Err(BetError::InvalidInstructionData)
    } else if side_filled(rec, data[36]) {
        Err(BetError::AccountAlreadyInitialized)
    } else if taker_odds_bad(rec, data) {
        Err(BetError::InvalidArgument)
    } else if match_unauthorized(rec, bettor, cfg) {
        Err(BetError::InvalidAccountData)
    } else if !wallets_eq(token_program, cfg.token_program) {
        Err(BetError::IncorrectProgramId)
    } else {
        Ok(taker_filled(rec, data, bettor))
    }
}

/// Validates a full match against a resting record and returns the filled
/// record with the stake to escrow from the taker into the pool. The caller
/// persists the record only once that transfer has succeeded.
pub fn bet(
    bet_account: &BetAcc,
    instruction_data: &[u8],
    destination: [u8; 32],
    bettor: [u8; 32],
    token_program: [u8; 32],
    cfg: &ExchangeConfig,
) -> (r: Result<(BetAcc, u64), BetError>)
    requires
        instruction_data@.len() >= 37,
    ensures
        r == taker_spec(
            *bet_account,
            instruction_data@,
            destination,
            bettor,
            token_program,
            *cfg,
        ),
{
    if !correct_pool(destination, cfg.pool) {
        return Err(BetError::InvalidArgument);
    }
    if !ids_match(bet_account, instruction_data) {
        return Err(BetError::InvalidInstructionData);
    }
    let side = instruction_data[36];
    if side == 0 && !blank_wallet(bet_account.wallet0) || side == 1 && !blank_wallet(
        bet_account.wallet1,
    ) {
        return Err(BetError::AccountAlreadyInitialized);
    }
    proof {
        assert(pow256(8) == 0x1_0000_0000_0000_0000) by {
            reveal_with_fuel(pow256, 9);
        }
    }
    let stake0 = bytes_to_num(instruction_data, 20, 28);
    let stake1 = bytes_to_num(instruction_data, 28, 36);
    if (side == 0 && (stake0 < bet_account.stake0 || stake1 != bet_account.stake1)) || (side == 1
        && (stake1 < bet_account.stake1 || stake0 != bet_account.stake0)) {
        return Err(BetError::InvalidArgument);
    }
    if (bet_account.to_aggregate || bet_account.is_free_bet) && !equal_wallets(
        bettor,
        cfg.operator,
    ) {
        return Err(BetError::InvalidAccountData);
    }
    if !equal_wallets(token_program, cfg.token_program) {
        return Err(BetError::IncorrectProgramId);
    }
    let mut rec = *bet_account;
    let mut stake: u64 = 0;
    if side == 0 {
        rec.stake0 = stake0;
        rec.wallet0 = bettor;
        stake = stake0;
    } else if side == 1 {
        rec.stake1 = stake1;
        rec.wallet1 = bettor;
        stake = stake1;
    }
    Ok((rec, stake))
}

} // verus!
