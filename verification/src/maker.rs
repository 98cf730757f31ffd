//! Opening a new unmatched order: a blank record is populated from the
//! payload, the chosen side's wallet is set to the bettor, and the chosen
//! side's stake must be escrowed into the pool.
use vstd::prelude::*;

use crate::utils::{le_val, pow256, with_ids, blank_acc, blank_acc_spec, correct_pool, equal_wallets,
    wallets_eq, bytes_to_num, BetAcc};
use crate::{BetError, ExchangeConfig};

verus! {

/// The stake offered on side 0 by a match-shaped payload.
pub open spec fn payload_stake0(data: Seq<u8>) -> u64 {
    le_val(data.subrange(20, 28)) as u64
}

/// The stake offered on side 1 by a match-shaped payload.
pub open spec fn payload_stake1(data: Seq<u8>) -> u64 {
    le_val(data.subrange(28, 36)) as u64
}

/// The record a maker request writes: outcome tuple and stakes from the
/// payload, the bettor on the chosen side with the other side left open, the
/// rent payer recorded, a free bet when the funding authority is not the
/// bettor, and the creation time stamped once.
pub open spec fn maker_record(
    rec: BetAcc,
    data: Seq<u8>,
    authority: [u8; 32],
    bettor: [u8; 32],
    rent_payer: [u8; 32],
    now: u64,
) -> BetAcc {
    BetAcc {
        stake0: payload_stake0(data),
        stake1: payload_stake1(data),
        wallet0: if data[36] == 0 {
            bettor
        } else {
            rec.wallet0
        },
        wallet1: if data[36] == 0 {
            rec.wallet1
        } else {
            bettor
        },
        rent_payer: rent_payer,
        is_free_bet: !wallets_eq(authority, bettor),
        placed_at: now,
        to_aggregate: data[37] == 1,
        ..with_ids(rec, data)
    }
}

/// The escrow a maker request owes: the chosen side's stake.
pub open spec fn maker_stake(data: Seq<u8>) -> u64 {
    if data[36] == 0 {
        payload_stake0(data)
    } else {
        payload_stake1(data)
    }
}

/// What a maker request does: rejected unless the destination is the
/// canonical pool, the record is blank, and the custody program is the
/// official one; otherwise the populated record and the stake to escrow.
pub open spec fn maker_spec(
    rec: BetAcc,
    data: Seq<u8>,
    destination: [u8; 32],
    authority: [u8; 32],
    bettor: [u8; 32],
    rent_payer: [u8; 32],
    token_program: [u8; 32],
    now: u64,
    cfg: ExchangeConfig,
) -> Result<(BetAcc, u64), BetError> {
    if !wallets_eq(destination, cfg.pool) {
        Err(BetError::InvalidArgument)
    } else if !blank_acc_spec(rec) {
        Err(BetError::AccountAlreadyInitialized)
    } else if !wallets_eq(token_program, cfg.token_program) {
        Err(BetError::IncorrectProgramId)
    } else {
        Ok((maker_record(rec, data, authority, bettor, rent_payer, now), maker_stake(data)))
    }
}

/// Validates a maker request against a record and returns the populated
/// record with the stake to escrow from the funding source into the pool.
/// The caller persists the record only once that transfer has succeeded.
pub fn bet(
    bet_account: &BetAcc,
    instruction_data: &[u8],
    destination: [u8; 32],
    authority: [u8; 32],
    bettor: [u8; 32],
    rent_payer: [u8; 32],
    token_program: [u8; 32],
    now: u64,
    cfg: &ExchangeConfig,
) -> (r: Result<(BetAcc, u64), BetError>)
    requires
        instruction_data@.len() >= 38,
    ensures
        r == maker_spec(
            *bet_account,
            instruction_data@,
            destination,
            authority,
            bettor,
            rent_payer,
            token_program,
            now,
            *cfg,
        ),
{
    if !correct_pool(destination, cfg.pool) {
        return Err(BetError::InvalidArgument);
    }
    if !blank_acc(bet_account) {
        return Err(BetError::AccountAlreadyInitialized);
    }
    if !equal_wallets(token_program, cfg.token_program) {
        return Err(BetError::IncorrectProgramId);
    }
    proof {
        assert(pow256(8) == 0x1_0000_0000_0000_0000) by {
            reveal_with_fuel(pow256, 9);
        }
    }
    let mut rec = *bet_account;
    crate::utils::set_bet_ids(&mut rec, instruction_data);
    rec.stake0 = bytes_to_num(instruction_data, 20, 28);
    rec.stake1 = bytes_to_num(instruction_data, 28, 36);
    let side = instruction_data[36];
    let stake: u64;
    if side == 0 {
        rec.wallet0 = bettor;
        stake = rec.stake0;
    } else {
        rec.wallet1 = bettor;
        stake = rec.stake1;
    }
    rec.rent_payer = rent_payer;
    rec.is_free_bet = !equal_wallets(authority, bettor);
    rec.to_aggregate = instruction_data[37] == 1;
    rec.placed_at = now;
    Ok((rec, stake))
}

/// Law: the record a maker request writes, serialized and read back,
/// reproduces every field exactly as derived from the payload.
pub proof fn lemma_maker_round_trip(
    rec: BetAcc,
    data: Seq<u8>,
    authority: [u8; 32],
    bettor: [u8; 32],
    rent_payer: [u8; 32],
    now: u64,
)
    ensures
        crate::codec::bet_bytes_valid(crate::codec::bet_bytes(maker_record(rec, data, authority, bettor, rent_payer, now))),
        crate::codec::bet_of_bytes(crate::codec::bet_bytes(maker_record(rec, data, authority, bettor, rent_payer, now)))
            == maker_record(rec, data, authority, bettor, rent_payer, now),
{
    crate::codec::lemma_bet_record_round_trip(maker_record(rec, data, authority, bettor, rent_payer, now));
}

/// Law: a maker request against any record that is not blank is rejected as
/// already initialized, whichever side or field is occupied, whenever it
/// names the canonical pool.
pub proof fn lemma_maker_rejects_nonblank(
    rec: BetAcc,
    data: Seq<u8>,
    destination: [u8; 32],
    authority: [u8; 32],
    bettor: [u8; 32],
    rent_payer: [u8; 32],
    token_program: [u8; 32],
    now: u64,
    cfg: ExchangeConfig,
)
    requires
        wallets_eq(destination, cfg.pool),
        !blank_acc_spec(rec),
    ensures
        maker_spec(rec, data, destination, authority, bettor, rent_payer, token_program, now, cfg)
            == Err::<(BetAcc, u64), BetError>(BetError::AccountAlreadyInitialized),
{
}

} // verus!
