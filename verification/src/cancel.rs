//! Releasing an unmatched side's escrow back to its owner: only the resting
//! bettor may cancel (only the admin may refund), the payout must go to a
//! token account the entitled party owns, and an aggregated order must have
//! cooled off for the configured delay first.
use vstd::prelude::*;

use crate::codec::{decode_delay, delay_bytes_valid, delay_of_bytes};
use crate::token::{are_paired, token_account_data_valid, token_account_owner};
use crate::utils::{ids_match, ids_match_spec, is_blank, blank_wallet, equal_wallets, wallets_eq,
    BetAcc, CancelDelay};
use crate::{BetError, ExchangeConfig};

verus! {

/// The owner of the record's matched side: the party whose escrow is still
/// resting.
pub open spec fn resting_bettor(rec: BetAcc) -> [u8; 32] {
    if is_blank(rec.wallet0) {
        rec.wallet1
    } else {
        rec.wallet0
    }
}

/// The stake a cancellation releases: the occupied side's stake — the
/// escrow the resting bettor paid in. A fully matched record has nothing to
/// release.
pub open spec fn refund_stake(rec: BetAcc) -> u64 {
    if is_blank(rec.wallet0) {
        rec.stake1
    } else if is_blank(rec.wallet1) {
        rec.stake0
    } else {
        0
    }
}

/// The identity the payout must reach: the rent payer for a free bet, the
/// resting bettor otherwise.
pub open spec fn payout_target(rec: BetAcc, rent_payer: [u8; 32]) -> [u8; 32] {
    if rec.is_free_bet {
        rent_payer
    } else {
        resting_bettor(rec)
    }
}

/// The payload targets a side that is not the one resting.
pub open spec fn wrong_side(rec: BetAcc, side: u8) -> bool {
    (side == 0 && is_blank(rec.wallet0)) || (side == 1 && is_blank(rec.wallet1))
}

/// What a cancel or refund request does: validation in the order the
/// exchange applies it, then the stake to send from the pool back to the
/// destination.
pub open spec fn cancel_spec(
    rec: BetAcc,
    data: Seq<u8>,
    canceller: [u8; 32],
    canceller_signed: bool,
    rent_payer: [u8; 32],
    dest: Seq<u8>,
    is_refund: bool,
    delay: Option<Seq<u8>>,
    delay_owned: bool,
    now: u64,
    token_program: [u8; 32],
    cfg: ExchangeConfig,
) -> Result<u64, BetError> {
    if !ids_match_spec(rec, data) {
        Err(BetError::InvalidInstructionData)
    } else if wrong_side(rec, data[20]) {
        Err(BetError::InvalidInstructionData)
    } else if !canceller_signed {
        Err(BetError::InvalidArgument)
    } else if is_refund && !wallets_eq(canceller, cfg.admin) {
        Err(BetError::InvalidArgument)
    } else if !is_refund && !wallets_eq(canceller, resting_bettor(rec)) {
        Err(BetError::InvalidArgument)
    } else if !token_account_data_valid(dest) {
        Err(BetError::InvalidAccountData)
    } else if payout_target(rec, rent_payer)@ != token_account_owner(dest) {
        Err(BetError::InvalidArgument)
    } else if rec.to_aggregate && delay is None {
        Err(BetError::InvalidArgument)
    } else if rec.to_aggregate && !delay_bytes_valid(delay->0) {
        Err(BetError::InvalidAccountData)
    } else if rec.to_aggregate && !delay_of_bytes(delay->0).is_real {
        Err(BetError::InvalidAccountData)
    } else if rec.to_aggregate && !delay_owned {
        Err(BetError::IncorrectProgramId)
    } else if rec.to_aggregate && !is_refund && now < rec.placed_at + delay_of_bytes(
        delay->0,
    ).seconds {
        Err(BetError::InvalidAccountData)
    } else if !wallets_eq(token_program, cfg.token_program) {
        Err(BetError::IncorrectProgramId)
    } else {
        Ok(refund_stake(rec))
    }
}

/// Validates a cancel or refund request and returns the stake to send from
/// the pool back to the destination token account. The caller performs that
/// transfer and, only once it has succeeded, releases the record's storage
/// deposit to the rent payer.
pub fn bet(
    bet_account: &BetAcc,
    instruction_data: &[u8],
    canceller: [u8; 32],
    canceller_signed: bool,
    rent_payer: [u8; 32],
    destination_data: &[u8],
    is_refund: bool,
    delay_data: Option<&[u8]>,
    delay_owned: bool,
    now: u64,
    token_program: [u8; 32],
    cfg: &ExchangeConfig,
) -> (r: Result<u64, BetError>)
    requires
        instruction_data@.len() >= 21,
    ensures
        delay_data is Some ==> r == cancel_spec(
            *bet_account,
            instruction_data@,
            canceller,
            canceller_signed,
            rent_payer,
            destination_data@,
            is_refund,
            Some(delay_data->0@),
            delay_owned,
            now,
            token_program,
            *cfg,
        ),
        delay_data is None ==> r == cancel_spec(
            *bet_account,
            instruction_data@,
            canceller,
            canceller_signed,
            rent_payer,
            destination_data@,
            is_refund,
            None,
            delay_owned,
            now,
            token_program,
            *cfg,
        ),
{
    if !ids_match(bet_account, instruction_data) {
        return Err(BetError::InvalidInstructionData);
    }
    let side = instruction_data[20];
    if side == 0 && blank_wallet(bet_account.wallet0) || side == 1 && blank_wallet(
        bet_account.wallet1,
    ) {
        return Err(BetError::InvalidInstructionData);
    }
    if !canceller_signed {
        return Err(BetError::InvalidArgument);
    }
    if is_refund && !equal_wallets(canceller, cfg.admin) {
        return Err(BetError::InvalidArgument);
    }
    let bettor: [u8; 32] = if blank_wallet(bet_account.wallet0) {
        bet_account.wallet1
    } else {
        bet_account.wallet0
    };
    if !is_refund && !equal_wallets(canceller, bettor) {
        return Err(BetError::InvalidArgument);
    }
    let target: [u8; 32] = if bet_account.is_free_bet {
        rent_payer
    } else {
        bettor
    };
    match are_paired(target, destination_data) {
        Ok(true) => {},
        Ok(false) => {
            return Err(BetError::InvalidArgument);
        },
        Err(e) => {
            return Err(e);
        },
    }
    if bet_account.to_aggregate {
        match delay_data {
            None => {
                return Err(BetError::InvalidArgument);
            },
            Some(dd) => {
                match decode_delay(dd) {
                    None => {
                        return Err(BetError::InvalidAccountData);
                    },
                    Some(delay) => {
                        if !delay.is_real {
                            return Err(BetError::InvalidAccountData);
                        }
                        if !delay_owned {
                            return Err(BetError::IncorrectProgramId);
                        }
                        if !is_refund && (now as u128) < (bet_account.placed_at as u128) + (
                        delay.seconds as u128) {
                            return Err(BetError::InvalidAccountData);
                        }
                    },
                }
            },
        }
    }
    if !equal_wallets(token_program, cfg.token_program) {
        return Err(BetError::IncorrectProgramId);
    }
    let stake: u64 = if blank_wallet(bet_account.wallet0) {
        bet_account.stake1
    } else if blank_wallet(bet_account.wallet1) {
        bet_account.stake0
    } else {
        0
    };
    Ok(stake)
}

/// Law (authorization boundary): a cancel signed by any identity other than
/// the resting bettor — or, for a refund, other than the admin — is rejected
/// as an invalid argument, whatever the identities are.
pub proof fn lemma_cancel_authorization(
    rec: BetAcc,
    data: Seq<u8>,
    canceller: [u8; 32],
    rent_payer: [u8; 32],
    dest: Seq<u8>,
    is_refund: bool,
    delay: Option<Seq<u8>>,
    delay_owned: bool,
    now: u64,
    token_program: [u8; 32],
    cfg: ExchangeConfig,
)
    requires
        ids_match_spec(rec, data),
        !wrong_side(rec, data[20]),
        is_refund ==> !wallets_eq(canceller, cfg.admin),
        !is_refund ==> !wallets_eq(canceller, resting_bettor(rec)),
    ensures
        cancel_spec(
            rec,
            data,
            canceller,
            true,
            rent_payer,
            dest,
            is_refund,
            delay,
            delay_owned,
            now,
            token_program,
            cfg,
        ) == Err::<u64, BetError>(BetError::InvalidArgument),
{
}

/// Law (aggregation delay): once every identity and destination check is
/// satisfied, a non-refund cancel of an aggregated order fails while the
/// order is younger than the configured delay and succeeds from the moment
/// it has aged that far.
pub proof fn lemma_aggregation_delay(
    rec: BetAcc,
    data: Seq<u8>,
    canceller: [u8; 32],
    rent_payer: [u8; 32],
    dest: Seq<u8>,
    delay: Seq<u8>,
    now: u64,
    token_program: [u8; 32],
    cfg: ExchangeConfig,
)
    requires
        rec.to_aggregate,
        ids_match_spec(rec, data),
        !wrong_side(rec, data[20]),
        wallets_eq(canceller, resting_bettor(rec)),
        token_account_data_valid(dest),
        payout_target(rec, rent_payer)@ == token_account_owner(dest),
        delay_bytes_valid(delay),
        delay_of_bytes(delay).is_real,
        wallets_eq(token_program, cfg.token_program),
    ensures
        now < rec.placed_at + delay_of_bytes(delay).seconds ==> cancel_spec(
            rec,
            data,
            canceller,
            true,
            rent_payer,
            dest,
            false,
            Some(delay),
            true,
            now,
            token_program,
            cfg,
        ) == Err::<u64, BetError>(BetError::InvalidAccountData),
        now >= rec.placed_at + delay_of_bytes(delay).seconds ==> cancel_spec(
            rec,
            data,
            canceller,
            true,
            rent_payer,
            dest,
            false,
            Some(delay),
            true,
            now,
            token_program,
            cfg,
        ) == Ok::<u64, BetError>(refund_stake(rec)),
{
}

/// What a delay-configuration update does: only the signing admin may set
/// it, and it always writes a genuine record with the payload's delay.
pub open spec fn set_delay_spec(
    data: Seq<u8>,
    admin: [u8; 32],
    admin_signed: bool,
    cfg: ExchangeConfig,
) -> Result<CancelDelay, BetError> {
    if !admin_signed || !wallets_eq(admin, cfg.admin) {
        Err(BetError::InvalidArgument)
    } else {
        Ok(CancelDelay { is_real: true, seconds: data[0] })
    }
}

/// Validates a delay-configuration update and returns the record to persist:
/// marked genuine, with the payload's delay in seconds.
pub fn set_delay(
    instruction_data: &[u8],
    admin: [u8; 32],
    admin_signed: bool,
    cfg: &ExchangeConfig,
) -> (r: Result<CancelDelay, BetError>)
    requires
        instruction_data@.len() >= 1,
    ensures
        r == set_delay_spec(instruction_data@, admin, admin_signed, *cfg),
{
    if !admin_signed || !equal_wallets(admin, cfg.admin) {
        return Err(BetError::InvalidArgument);
    }
    Ok(CancelDelay { is_real: true, seconds: instruction_data[0] })
}

} // verus!
