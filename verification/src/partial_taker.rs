//! Matching a portion of a resting order: the matched portion becomes a new,
//! fully matched child record, and the resting parent shrinks proportionally
//! so its price is unchanged for later takers.
use vstd::prelude::*;

use crate::maker::{payload_stake0, payload_stake1};
use crate::odds::{odds_exceed_tolerance, odds_too_high, rebalance, rebalanced_other};
use crate::taker::{match_unauthorized, side_filled};
use crate::utils::{pow256, with_ids, blank_acc, blank_acc_spec, ids_match, ids_match_spec,
    blank_wallet, correct_pool, equal_wallets, wallets_eq, bytes_to_num, BetAcc};
use crate::{BetError, ExchangeConfig};

verus! {

/// The taker's stake on the targeted side.
pub open spec fn fill_stake(data: Seq<u8>) -> u64 {
    if data[36] == 0 {
        payload_stake0(data)
    } else {
        payload_stake1(data)
    }
}

/// The parent's current stake on the targeted side.
pub open spec fn resting_stake(rec: BetAcc, data: Seq<u8>) -> u64 {
    if data[36] == 0 {
        rec.stake0
    } else {
        rec.stake1
    }
}

/// A partial fill the arithmetic cannot carry out: a side byte that is
/// neither 0 nor 1, a zero stake on either end of the targeted side, or a
/// fill larger than what is resting.
pub open spec fn partial_degenerate(rec: BetAcc, data: Seq<u8>) -> bool {
    ||| data[36] != 0 && data[36] != 1
    ||| fill_stake(data) == 0
    ||| resting_stake(rec, data) == 0
    ||| fill_stake(data) > resting_stake(rec, data)
}

/// The taker's implied odds on the targeted side exceed the parent's by more
/// than the 1/100 tolerance.
pub open spec fn partial_odds_too_high(rec: BetAcc, data: Seq<u8>) -> bool {
    odds_too_high(
        payload_stake0(data),
        payload_stake1(data),
        fill_stake(data),
        rec.stake0,
        rec.stake1,
        resting_stake(rec, data),
    )
}

/// The parent after the fill: the targeted side shrinks by the fill, the
/// opposite side is rebuilt to keep the parent's original price, and the
/// privately matched remainder is no longer subject to forced aggregation.
pub open spec fn partial_parent(rec: BetAcc, data: Seq<u8>) -> BetAcc {
    if data[36] == 0 {
        BetAcc {
            stake0: (rec.stake0 - fill_stake(data)) as u64,
            stake1: rebalanced_other(
                rec.stake0,
                rec.stake1,
                (rec.stake0 - fill_stake(data)) as u64,
            ) as u64,
            to_aggregate: false,
            ..rec
        }
    } else {
        BetAcc {
            stake0: rebalanced_other(
                rec.stake1,
                rec.stake0,
                (rec.stake1 - fill_stake(data)) as u64,
            ) as u64,
            stake1: (rec.stake1 - fill_stake(data)) as u64,
            to_aggregate: false,
            ..rec
        }
    }
}

/// The child written for the matched portion: the payload's outcome tuple
/// and stakes, the taker on the targeted side, the parent's opposing wallet
/// mirrored onto the other side, and the parent's aggregation flag carried
/// over. Fields a blank slot already held and the payload does not set are
/// kept as they were.
pub open spec fn partial_child(
    parent: BetAcc,
    child: BetAcc,
    data: Seq<u8>,
    bettor: [u8; 32],
    rent_payer: [u8; 32],
    now: u64,
) -> BetAcc {
    BetAcc {
        stake0: payload_stake0(data),
        stake1: payload_stake1(data),
        wallet0: if data[36] == 0 {
            bettor
        } else {
            parent.wallet0
        },
        wallet1: if data[36] == 0 {
            parent.wallet1
        } else {
            bettor
        },
        rent_payer: rent_payer,
        placed_at: now,
        to_aggregate: parent.to_aggregate,
        ..with_ids(child, data)
    }
}

/// What a partial-match request does: validation in the order the exchange
/// applies it, then the shrunken parent, the new child and the taker's
/// escrow.
pub open spec fn partial_spec(
    parent: BetAcc,
    child: BetAcc,
    data: Seq<u8>,
    child_owned: bool,
    destination: [u8; 32],
    bettor: [u8; 32],
    rent_payer: [u8; 32],
    token_program: [u8; 32],
    now: u64,
    cfg: ExchangeConfig,
) -> Result<(BetAcc, BetAcc, u64), BetError> {
    if !child_owned {
        Err(BetError::IncorrectProgramId)
    } else if !wallets_eq(destination, cfg.pool) {
        Err(BetError::InvalidArgument)
    } else if !ids_match_spec(parent, data) {
        Err(BetError::InvalidInstructionData)
    } else if !blank_acc_spec(child) {
        Err(BetError::AccountAlreadyInitialized)
    } else if side_filled(parent, data[36]) {
        Err(BetError::AccountAlreadyInitialized)
    } else if match_unauthorized(parent, bettor, cfg) {
        Err(BetError::InvalidAccountData)
    } else if partial_degenerate(parent, data) {
        Err(BetError::InvalidInstructionData)
    } else if partial_odds_too_high(parent, data) {
        Err(BetError::InvalidArgument)
    } else if !wallets_eq(token_program, cfg.token_program) {
        Err(BetError::IncorrectProgramId)
    } else {
        Ok(
            (
                partial_parent(parent, data),
                partial_child(parent, child, data, bettor, rent_payer, now),
                fill_stake(data),
            ),
        )
    }
}

/// Validates a partial match against a resting record and a blank child
/// slot, and returns the proportionally shrunken parent, the populated child
/// and the stake to escrow from the taker into the pool. The caller persists
/// both records together, and only once that transfer has succeeded.
pub fn bet(
    bet_account: &BetAcc,
    new_bet_account: &BetAcc,
    instruction_data: &[u8],
    child_owned: bool,
    destination: [u8; 32],
    bettor: [u8; 32],
    rent_payer: [u8; 32],
    token_program: [u8; 32],
    now: u64,
    cfg: &ExchangeConfig,
) -> (r: Result<(BetAcc, BetAcc, u64), BetError>)
    requires
        instruction_data@.len() >= 37,
    ensures
        r == partial_spec(
            *bet_account,
            *new_bet_account,
            instruction_data@,
            child_owned,
            destination,
            bettor,
            rent_payer,
            token_program,
            now,
            *cfg,
        ),
{
    if !child_owned {
        return Err(BetError::IncorrectProgramId);
    }
    if !correct_pool(destination, cfg.pool) {
        return Err(BetError::InvalidArgument);
    }
    if !ids_match(bet_account, instruction_data) {
        return Err(BetError::InvalidInstructionData);
    }
    if !blank_acc(new_bet_account) {
        return Err(BetError::AccountAlreadyInitialized);
    }
    let side = instruction_data[36];
    if side == 0 && !blank_wallet(bet_account.wallet0) || side == 1 && !blank_wallet(
        bet_account.wallet1,
    ) {
        return Err(BetError::AccountAlreadyInitialized);
    }
    if (bet_account.to_aggregate || bet_account.is_free_bet) && !equal_wallets(
        bettor,
        cfg.operator,
    ) {
        return Err(BetError::InvalidAccountData);
    }
    proof {
        assert(pow256(8) == 0x1_0000_0000_0000_0000) by {
            reveal_with_fuel(pow256, 9);
        }
    }
    let stake0 = bytes_to_num(instruction_data, 20, 28);
    let stake1 = bytes_to_num(instruction_data, 28, 36);
    let fill: u64 = if side == 0 {
        stake0
    } else {
        stake1
    };
    let resting: u64 = if side == 0 {
        bet_account.stake0
    } else {
        bet_account.stake1
    };
    if side > 1 || fill == 0 || resting == 0 || fill > resting {
        return Err(BetError::InvalidInstructionData);
    }
    if odds_exceed_tolerance(stake0, stake1, fill, bet_account.stake0, bet_account.stake1, resting)
    {
        return Err(BetError::InvalidArgument);
    }
    if !equal_wallets(token_program, cfg.token_program) {
        return Err(BetError::IncorrectProgramId);
    }
    let mut parent = *bet_account;
    if side == 0 {
        let (new_side, new_other) = rebalance(bet_account.stake0, bet_account.stake1, fill);
        parent.stake0 = new_side;
        parent.stake1 = new_other;
    } else {
        let (new_side, new_other) = rebalance(bet_account.stake1, bet_account.stake0, fill);
        parent.stake1 = new_side;
        parent.stake0 = new_other;
    }
    parent.to_aggregate = false;
    let mut child = *new_bet_account;
    crate::utils::set_bet_ids(&mut child, instruction_data);
    if side == 0 {
        child.wallet0 = bettor;
        child.wallet1 = bet_account.wallet1;
    } else {
        child.wallet1 = bettor;
        child.wallet0 = bet_account.wallet0;
    }
    child.rent_payer = rent_payer;
    child.placed_at = now;
    child.stake0 = stake0;
    child.stake1 = stake1;
    child.to_aggregate = bet_account.to_aggregate;
    Ok((parent, child, fill))
}

/// Law (odds invariance): when the stake resting on the targeted side
/// divides the opposite stake, any accepted partial fill leaves the parent's
/// implied odds for that side exactly unchanged — cross-multiplied, the new
/// pool over the new stake equals the old pool over the old stake. The
/// shrunken parent keeps the divisibility, so the price survives any
/// sequence of partial fills.
pub proof fn lemma_partial_match_preserves_price(
    parent: BetAcc,
    child: BetAcc,
    data: Seq<u8>,
    child_owned: bool,
    destination: [u8; 32],
    bettor: [u8; 32],
    rent_payer: [u8; 32],
    token_program: [u8; 32],
    now: u64,
    cfg: ExchangeConfig,
)
    requires
        partial_spec(
            parent,
            child,
            data,
            child_owned,
            destination,
            bettor,
            rent_payer,
            token_program,
            now,
            cfg,
        ) is Ok,
        data[36] == 0 ==> parent.stake1 % parent.stake0 == 0,
        data[36] == 1 ==> parent.stake0 % parent.stake1 == 0,
    ensures
        (partial_parent(parent, data).stake0 + partial_parent(parent, data).stake1)
            * resting_stake(parent, data) == (parent.stake0 + parent.stake1) * resting_stake(
            partial_parent(parent, data),
            data,
        ),
        resting_stake(partial_parent(parent, data), data) > 0 ==> (if data[36] == 0 {
            partial_parent(parent, data).stake1 % partial_parent(parent, data).stake0 == 0
        } else {
            partial_parent(parent, data).stake0 % partial_parent(parent, data).stake1 == 0
        }),
{
    let os: u64 = resting_stake(parent, data);
    let oo: u64 = if data[36] == 0 {
        parent.stake1
    } else {
        parent.stake0
    };
    let f = fill_stake(data);
    let ns = (os - f) as u64;
    let q = oo as int / os as int;
    vstd::arithmetic::div_mod::lemma_fundamental_div_mod(oo as int, os as int);
    vstd::arithmetic::div_mod::lemma_mod_bound(oo as int, os as int);
    assert(0 <= ns * q <= oo) by (nonlinear_arith)
        requires
            oo == os * q + oo as int % os as int,
            0 <= oo as int % os as int,
            0 <= ns <= os,
            0 < os,
    ;
    assert(rebalanced_other(os, oo, ns) == ns * q);
    if data[36] == 0 {
        crate::odds::lemma_partial_fill_preserves_odds(
            parent.stake0,
            parent.stake1,
            fill_stake(data),
        );
    } else {
        crate::odds::lemma_partial_fill_preserves_odds(
            parent.stake1,
            parent.stake0,
            fill_stake(data),
        );
    }
}

} // verus!
