use bet_exchange::cancel;
use bet_exchange::codec::{decode_bet, decode_delay, encode_bet, encode_delay};
use bet_exchange::maker;
use bet_exchange::odds::odds_exceed_tolerance;
use bet_exchange::partial_taker;
use bet_exchange::route::{route, Operation};
use bet_exchange::taker;
use bet_exchange::token::are_paired;
use bet_exchange::utils::{blank_acc, blank_wallet, bytes_to_num, equal_wallets, ids_match,
    BetAcc, CancelDelay};
use bet_exchange::{BetError, ExchangeConfig};

fn w(b: u8) -> [u8; 32] {
    [b; 32]
}

fn cfg() -> ExchangeConfig {
    ExchangeConfig { pool: w(1), operator: w(2), admin: w(3), token_program: w(4) }
}

fn put_le(d: &mut [u8], off: usize, val: u64, width: usize) {
    for i in 0..width {
        d[off + i] = ((val >> (8 * i)) & 0xff) as u8;
    }
}

fn put_ids(d: &mut [u8]) {
    d[0] = 7;
    put_le(d, 1, 300, 4);
    put_le(d, 5, 123456789, 8);
    d[13] = 2;
    put_le(d, 14, 200, 2);
    put_le(d, 16, 77, 4);
}

fn maker_payload(stake0: u64, stake1: u64, side: u8, aggregate: bool) -> Vec<u8> {
    let mut d = vec![0u8; 38];
    put_ids(&mut d);
    put_le(&mut d, 20, stake0, 8);
    put_le(&mut d, 28, stake1, 8);
    d[36] = side;
    d[37] = if aggregate { 1 } else { 0 };
    d
}

fn match_payload(stake0: u64, stake1: u64, side: u8) -> Vec<u8> {
    let mut d = vec![0u8; 37];
    put_ids(&mut d);
    put_le(&mut d, 20, stake0, 8);
    put_le(&mut d, 28, stake1, 8);
    d[36] = side;
    d
}

fn cancel_payload(side: u8) -> Vec<u8> {
    let mut d = vec![0u8; 21];
    put_ids(&mut d);
    d[20] = side;
    d
}

fn blank_record() -> BetAcc {
    BetAcc {
        sport: 0,
        league: 0,
        event: 0,
        period: 0,
        mkt: 0,
        player: 0,
        stake0: 0,
        stake1: 0,
        wallet0: [0; 32],
        wallet1: [0; 32],
        rent_payer: [0; 32],
        is_free_bet: false,
        placed_at: 0,
        to_aggregate: false,
    }
}

/// A record as a maker request with the given stakes leaves it: bettor on
/// `side`, the other side open.
fn resting_record(stake0: u64, stake1: u64, side: u8, bettor: [u8; 32]) -> BetAcc {
    let payload = maker_payload(stake0, stake1, side, false);
    let (rec, _) = maker::bet(
        &blank_record(),
        &payload,
        cfg().pool,
        bettor,
        bettor,
        w(7),
        cfg().token_program,
        1_000_000,
        &cfg(),
    )
    .unwrap();
    rec
}

/// Serialized token-account data as the token program writes it: the mint,
/// then the owner, an initialized state byte, and empty optional fields.
fn token_account_data(owner: [u8; 32]) -> Vec<u8> {
    let mut d = vec![0u8; 165];
    for i in 0..32 {
        d[i] = 9;
        d[32 + i] = owner[i];
    }
    d[108] = 1;
    d
}

#[test]
fn bytes_to_num_reads_little_endian() {
    let data = [0x01u8, 0x02, 0x03, 0xff];
    assert_eq!(bytes_to_num(&data, 0, 2), 0x0201);
    assert_eq!(bytes_to_num(&data, 1, 4), 0xff0302);
    assert_eq!(bytes_to_num(&data, 2, 2), 0);
    let big = [0xffu8; 8];
    assert_eq!(bytes_to_num(&big, 0, 8), u64::MAX);
}

#[test]
fn wallet_predicates() {
    assert!(equal_wallets(w(5), w(5)));
    assert!(!equal_wallets(w(5), w(6)));
    assert!(blank_wallet([0; 32]));
    assert!(!blank_wallet(w(5)));
    assert!(blank_acc(&blank_record()));
    let mut rec = blank_record();
    rec.rent_payer = w(7);
    assert!(!blank_acc(&rec));
}

#[test]
fn ids_match_compares_outcome_tuple() {
    let rec = resting_record(100, 50, 0, w(5));
    let payload = match_payload(100, 50, 1);
    assert!(ids_match(&rec, &payload));
    let mut other = payload.clone();
    other[0] = 8;
    assert!(!ids_match(&rec, &other));
}

#[test]
fn bet_record_codec_round_trip() {
    let mut rec = resting_record(100, 50, 0, w(5));
    rec.is_free_bet = true;
    rec.to_aggregate = true;
    let bytes = encode_bet(&rec);
    assert_eq!(bytes.len(), 142);
    assert_eq!(decode_bet(&bytes), Some(rec));
}

#[test]
fn bet_record_decode_rejects_bad_input() {
    let rec = resting_record(100, 50, 0, w(5));
    let mut bytes = encode_bet(&rec);
    assert_eq!(decode_bet(&bytes[..141]), None);
    bytes[132] = 2;
    assert_eq!(decode_bet(&bytes), None);
}

#[test]
fn delay_codec_round_trip() {
    let d = CancelDelay { is_real: true, seconds: 90 };
    let bytes = encode_delay(&d);
    assert_eq!(bytes.len(), 2);
    assert_eq!(decode_delay(&bytes), Some(d));
    assert_eq!(decode_delay(&[2, 90]), None);
    assert_eq!(decode_delay(&[1]), None);
}

#[test]
fn maker_populates_record() {
    let payload = maker_payload(100, 50, 0, false);
    let (rec, stake) = maker::bet(
        &blank_record(),
        &payload,
        cfg().pool,
        w(5),
        w(5),
        w(7),
        cfg().token_program,
        1_000_000,
        &cfg(),
    )
    .unwrap();
    assert_eq!(stake, 100);
    assert_eq!(rec.sport, 7);
    assert_eq!(rec.league, 300);
    assert_eq!(rec.event, 123456789);
    assert_eq!(rec.period, 2);
    assert_eq!(rec.mkt, 200);
    assert_eq!(rec.player, 77);
    assert_eq!(rec.stake0, 100);
    assert_eq!(rec.stake1, 50);
    assert_eq!(rec.wallet0, w(5));
    assert_eq!(rec.wallet1, [0; 32]);
    assert_eq!(rec.rent_payer, w(7));
    assert!(!rec.is_free_bet);
    assert_eq!(rec.placed_at, 1_000_000);
    assert!(!rec.to_aggregate);
}

#[test]
fn maker_side_one_and_free_bet() {
    let payload = maker_payload(100, 50, 1, true);
    let (rec, stake) = maker::bet(
        &blank_record(),
        &payload,
        cfg().pool,
        w(8),
        w(5),
        w(7),
        cfg().token_program,
        1_000_000,
        &cfg(),
    )
    .unwrap();
    assert_eq!(stake, 50);
    assert_eq!(rec.wallet0, [0; 32]);
    assert_eq!(rec.wallet1, w(5));
    assert!(rec.is_free_bet);
    assert!(rec.to_aggregate);
}

#[test]
fn maker_rejects_wrong_pool() {
    let payload = maker_payload(100, 50, 0, false);
    let r = maker::bet(
        &blank_record(),
        &payload,
        w(9),
        w(5),
        w(5),
        w(7),
        cfg().token_program,
        1_000_000,
        &cfg(),
    );
    assert_eq!(r, Err(BetError::InvalidArgument));
}

#[test]
fn maker_rejects_non_blank_record() {
    let payload = maker_payload(100, 50, 0, false);
    for side in 0..3 {
        let mut occupied = blank_record();
        match side {
            0 => occupied.wallet0 = w(5),
            1 => occupied.wallet1 = w(6),
            _ => occupied.rent_payer = w(7),
        }
        let r = maker::bet(
            &occupied,
            &payload,
            cfg().pool,
            w(5),
            w(5),
            w(7),
            cfg().token_program,
            1_000_000,
            &cfg(),
        );
        assert_eq!(r, Err(BetError::AccountAlreadyInitialized));
    }
}

#[test]
fn taker_full_match() {
    let rec = resting_record(100, 50, 0, w(5));
    let payload = match_payload(100, 50, 1);
    let (matched, stake) = taker::bet(&rec, &payload, cfg().pool, w(6), cfg().token_program, &cfg())
        .unwrap();
    assert_eq!(stake, 50);
    assert_eq!(matched.wallet0, w(5));
    assert_eq!(matched.wallet1, w(6));
    assert_eq!(matched.stake0, 100);
    assert_eq!(matched.stake1, 50);
    // The two escrows together moved the whole pool of the record.
    assert_eq!(100 + stake, 150);
}

#[test]
fn taker_rejects_price_shrink() {
    let rec = resting_record(100, 50, 0, w(5));
    let r = taker::bet(
        &rec,
        &match_payload(100, 49, 1),
        cfg().pool,
        w(6),
        cfg().token_program,
        &cfg(),
    );
    assert_eq!(r, Err(BetError::InvalidArgument));
    let r = taker::bet(
        &rec,
        &match_payload(99, 50, 1),
        cfg().pool,
        w(6),
        cfg().token_program,
        &cfg(),
    );
    assert_eq!(r, Err(BetError::InvalidArgument));
    // Improving the resting price is allowed.
    let r = taker::bet(
        &rec,
        &match_payload(100, 60, 1),
        cfg().pool,
        w(6),
        cfg().token_program,
        &cfg(),
    );
    assert!(r.is_ok());
}

#[test]
fn taker_rejects_filled_side() {
    let rec = resting_record(100, 50, 0, w(5));
    let r = taker::bet(
        &rec,
        &match_payload(100, 50, 0),
        cfg().pool,
        w(6),
        cfg().token_program,
        &cfg(),
    );
    assert_eq!(r, Err(BetError::AccountAlreadyInitialized));
}

#[test]
fn taker_aggregated_requires_operator() {
    let payload = maker_payload(100, 50, 0, true);
    let (rec, _) = maker::bet(
        &blank_record(),
        &payload,
        cfg().pool,
        w(5),
        w(5),
        w(7),
        cfg().token_program,
        1_000_000,
        &cfg(),
    )
    .unwrap();
    let take = match_payload(100, 50, 1);
    let r = taker::bet(&rec, &take, cfg().pool, w(6), cfg().token_program, &cfg());
    assert_eq!(r, Err(BetError::InvalidAccountData));
    let r = taker::bet(&rec, &take, cfg().pool, cfg().operator, cfg().token_program, &cfg());
    assert!(r.is_ok());
}

#[test]
fn taker_unknown_side_matches_nothing() {
    let rec = resting_record(100, 50, 0, w(5));
    let (unchanged, stake) = taker::bet(
        &rec,
        &match_payload(100, 50, 2),
        cfg().pool,
        w(6),
        cfg().token_program,
        &cfg(),
    )
    .unwrap();
    assert_eq!(unchanged, rec);
    assert_eq!(stake, 0);
}

#[test]
fn odds_tolerance_boundary() {
    // Resting odds for the targeted side are 1100 / 100 = 11.
    assert!(odds_exceed_tolerance(1000, 10, 10, 1000, 100, 100));
    assert!(!odds_exceed_tolerance(100, 10, 10, 1000, 100, 100));
    // Exactly 11.01 is within tolerance; a hair above is not.
    assert!(!odds_exceed_tolerance(1001, 100, 100, 1000, 100, 100));
    assert!(odds_exceed_tolerance(1002, 100, 100, 1000, 100, 100));
}

#[test]
fn partial_match_preserves_price() {
    let parent = resting_record(1000, 100, 0, w(5));
    // Implied odds 101 on the targeted side against resting odds 11: rejected.
    let r = partial_taker::bet(
        &parent,
        &blank_record(),
        &match_payload(1000, 10, 1),
        true,
        cfg().pool,
        w(6),
        w(7),
        cfg().token_program,
        2_000_000,
        &cfg(),
    );
    assert_eq!(r, Err(BetError::InvalidArgument));
    // Implied odds 11: accepted, and the parent keeps its price.
    let (new_parent, child, stake) = partial_taker::bet(
        &parent,
        &blank_record(),
        &match_payload(100, 10, 1),
        true,
        cfg().pool,
        w(6),
        w(7),
        cfg().token_program,
        2_000_000,
        &cfg(),
    )
    .unwrap();
    assert_eq!(stake, 10);
    assert_eq!(new_parent.stake1, 90);
    assert_eq!(new_parent.stake0, 900);
    assert_eq!(new_parent.wallet0, w(5));
    assert_eq!(new_parent.wallet1, [0; 32]);
    assert_eq!(child.stake0, 100);
    assert_eq!(child.stake1, 10);
    assert_eq!(child.wallet0, w(5));
    assert_eq!(child.wallet1, w(6));
    assert_eq!(child.rent_payer, w(7));
    assert_eq!(child.placed_at, 2_000_000);
    assert_eq!(child.sport, 7);
    assert_eq!(child.event, 123456789);
}

#[test]
fn repeated_partial_fills_keep_price() {
    let parent = resting_record(1000, 100, 0, w(5));
    let (parent, _, _) = partial_taker::bet(
        &parent,
        &blank_record(),
        &match_payload(100, 10, 1),
        true,
        cfg().pool,
        w(6),
        w(7),
        cfg().token_program,
        2_000_000,
        &cfg(),
    )
    .unwrap();
    assert_eq!((parent.stake0, parent.stake1), (900, 90));
    let (parent, _, _) = partial_taker::bet(
        &parent,
        &blank_record(),
        &match_payload(300, 30, 1),
        true,
        cfg().pool,
        w(6),
        w(7),
        cfg().token_program,
        2_000_100,
        &cfg(),
    )
    .unwrap();
    assert_eq!((parent.stake0, parent.stake1), (600, 60));
    // The implied odds of the open side are still 11 times the stake.
    assert_eq!((parent.stake0 + parent.stake1) / parent.stake1, 11);
    assert_eq!((parent.stake0 + parent.stake1) % parent.stake1, 0);
}

#[test]
fn partial_rejects_degenerate_fills() {
    let parent = resting_record(1000, 100, 0, w(5));
    let r = partial_taker::bet(
        &parent,
        &blank_record(),
        &match_payload(0, 0, 1),
        true,
        cfg().pool,
        w(6),
        w(7),
        cfg().token_program,
        2_000_000,
        &cfg(),
    );
    assert_eq!(r, Err(BetError::InvalidInstructionData));
    let r = partial_taker::bet(
        &parent,
        &blank_record(),
        &match_payload(1010, 101, 1),
        true,
        cfg().pool,
        w(6),
        w(7),
        cfg().token_program,
        2_000_000,
        &cfg(),
    );
    assert_eq!(r, Err(BetError::InvalidInstructionData));
    let r = partial_taker::bet(
        &parent,
        &blank_record(),
        &match_payload(100, 10, 2),
        true,
        cfg().pool,
        w(6),
        w(7),
        cfg().token_program,
        2_000_000,
        &cfg(),
    );
    assert_eq!(r, Err(BetError::InvalidInstructionData));
}

#[test]
fn partial_rejects_non_blank_child_and_foreign_child() {
    let parent = resting_record(1000, 100, 0, w(5));
    let payload = match_payload(100, 10, 1);
    let mut child = blank_record();
    child.wallet0 = w(9);
    let r = partial_taker::bet(
        &parent,
        &child,
        &payload,
        true,
        cfg().pool,
        w(6),
        w(7),
        cfg().token_program,
        2_000_000,
        &cfg(),
    );
    assert_eq!(r, Err(BetError::AccountAlreadyInitialized));
    let r = partial_taker::bet(
        &parent,
        &blank_record(),
        &payload,
        false,
        cfg().pool,
        w(6),
        w(7),
        cfg().token_program,
        2_000_000,
        &cfg(),
    );
    assert_eq!(r, Err(BetError::IncorrectProgramId));
}

#[test]
fn partial_moves_aggregation_to_child() {
    let payload = maker_payload(1000, 100, 0, true);
    let (parent, _) = maker::bet(
        &blank_record(),
        &payload,
        cfg().pool,
        w(5),
        w(5),
        w(7),
        cfg().token_program,
        1_000_000,
        &cfg(),
    )
    .unwrap();
    let (new_parent, child, _) = partial_taker::bet(
        &parent,
        &blank_record(),
        &match_payload(100, 10, 1),
        true,
        cfg().pool,
        cfg().operator,
        w(7),
        cfg().token_program,
        2_000_000,
        &cfg(),
    )
    .unwrap();
    assert!(child.to_aggregate);
    assert!(!new_parent.to_aggregate);
}

#[test]
fn cancel_requires_resting_bettor() {
    let rec = resting_record(100, 50, 0, w(5));
    let dest = token_account_data(w(5));
    for stranger in [w(6), w(3), [0; 32]] {
        let r = cancel::bet(
            &rec,
            &cancel_payload(0),
            stranger,
            true,
            w(7),
            &dest,
            false,
            None,
            true,
            9_000_000,
            cfg().token_program,
            &cfg(),
        );
        assert_eq!(r, Err(BetError::InvalidArgument));
    }
    let r = cancel::bet(
        &rec,
        &cancel_payload(0),
        w(5),
        false,
        w(7),
        &dest,
        false,
        None,
        true,
        9_000_000,
        cfg().token_program,
        &cfg(),
    );
    assert_eq!(r, Err(BetError::InvalidArgument));
}

#[test]
fn refund_requires_admin() {
    let rec = resting_record(100, 50, 0, w(5));
    let dest = token_account_data(w(5));
    for stranger in [w(5), w(6)] {
        let r = cancel::bet(
            &rec,
            &cancel_payload(0),
            stranger,
            true,
            w(7),
            &dest,
            true,
            None,
            true,
            9_000_000,
            cfg().token_program,
            &cfg(),
        );
        assert_eq!(r, Err(BetError::InvalidArgument));
    }
    let r = cancel::bet(
        &rec,
        &cancel_payload(0),
        cfg().admin,
        true,
        w(7),
        &dest,
        true,
        None,
        true,
        9_000_000,
        cfg().token_program,
        &cfg(),
    );
    assert_eq!(r, Ok(100));
}

#[test]
fn cancel_releases_open_side_stake() {
    let rec = resting_record(100, 50, 0, w(5));
    let dest = token_account_data(w(5));
    let r = cancel::bet(
        &rec,
        &cancel_payload(0),
        w(5),
        true,
        w(7),
        &dest,
        false,
        None,
        true,
        9_000_000,
        cfg().token_program,
        &cfg(),
    );
    assert_eq!(r, Ok(100));
    let rec1 = resting_record(100, 50, 1, w(5));
    let r = cancel::bet(
        &rec1,
        &cancel_payload(1),
        w(5),
        true,
        w(7),
        &dest,
        false,
        None,
        true,
        9_000_000,
        cfg().token_program,
        &cfg(),
    );
    assert_eq!(r, Ok(50));
}

#[test]
fn cancel_rejects_open_side_target() {
    let rec = resting_record(100, 50, 0, w(5));
    let dest = token_account_data(w(5));
    let r = cancel::bet(
        &rec,
        &cancel_payload(1),
        w(5),
        true,
        w(7),
        &dest,
        false,
        None,
        true,
        9_000_000,
        cfg().token_program,
        &cfg(),
    );
    assert_eq!(r, Err(BetError::InvalidInstructionData));
}

#[test]
fn cancel_checks_destination_ownership() {
    let rec = resting_record(100, 50, 0, w(5));
    // A destination owned by someone else is refused.
    let foreign = token_account_data(w(6));
    let r = cancel::bet(
        &rec,
        &cancel_payload(0),
        w(5),
        true,
        w(7),
        &foreign,
        false,
        None,
        true,
        9_000_000,
        cfg().token_program,
        &cfg(),
    );
    assert_eq!(r, Err(BetError::InvalidArgument));
    // Unreadable destination data is refused.
    let r = cancel::bet(
        &rec,
        &cancel_payload(0),
        w(5),
        true,
        w(7),
        &[0u8; 10],
        false,
        None,
        true,
        9_000_000,
        cfg().token_program,
        &cfg(),
    );
    assert_eq!(r, Err(BetError::InvalidAccountData));
    // An uninitialized token account is refused even at the right length.
    let mut uninit = token_account_data(w(5));
    uninit[108] = 0;
    let r = cancel::bet(
        &rec,
        &cancel_payload(0),
        w(5),
        true,
        w(7),
        &uninit,
        false,
        None,
        true,
        9_000_000,
        cfg().token_program,
        &cfg(),
    );
    assert_eq!(r, Err(BetError::InvalidAccountData));
}

#[test]
fn free_bet_refunds_rent_payer() {
    let payload = maker_payload(100, 50, 0, false);
    let (rec, _) = maker::bet(
        &blank_record(),
        &payload,
        cfg().pool,
        w(8),
        w(5),
        w(7),
        cfg().token_program,
        1_000_000,
        &cfg(),
    )
    .unwrap();
    assert!(rec.is_free_bet);
    // The payout must go to the rent payer's token account, not the bettor's.
    let to_bettor = token_account_data(w(5));
    let r = cancel::bet(
        &rec,
        &cancel_payload(0),
        w(5),
        true,
        w(7),
        &to_bettor,
        false,
        None,
        true,
        9_000_000,
        cfg().token_program,
        &cfg(),
    );
    assert_eq!(r, Err(BetError::InvalidArgument));
    let to_rent_payer = token_account_data(w(7));
    let r = cancel::bet(
        &rec,
        &cancel_payload(0),
        w(5),
        true,
        w(7),
        &to_rent_payer,
        false,
        None,
        true,
        9_000_000,
        cfg().token_program,
        &cfg(),
    );
    assert_eq!(r, Ok(100));
}

#[test]
fn aggregated_cancel_waits_for_delay() {
    let payload = maker_payload(100, 50, 0, true);
    let placed_at = 1_000_000u64;
    let (rec, _) = maker::bet(
        &blank_record(),
        &payload,
        cfg().pool,
        w(5),
        w(5),
        w(7),
        cfg().token_program,
        placed_at,
        &cfg(),
    )
    .unwrap();
    let dest = token_account_data(w(5));
    let delay = [1u8, 90];
    // Too early: every instant strictly before placement plus the delay.
    for now in [placed_at, placed_at + 89] {
        let r = cancel::bet(
            &rec,
            &cancel_payload(0),
            w(5),
            true,
            w(7),
            &dest,
            false,
            Some(&delay),
            true,
            now,
            cfg().token_program,
            &cfg(),
        );
        assert_eq!(r, Err(BetError::InvalidAccountData));
    }
    // From placement plus the delay onward the cancel goes through.
    for now in [placed_at + 90, placed_at + 91] {
        let r = cancel::bet(
            &rec,
            &cancel_payload(0),
            w(5),
            true,
            w(7),
            &dest,
            false,
            Some(&delay),
            true,
            now,
            cfg().token_program,
            &cfg(),
        );
        assert_eq!(r, Ok(100));
    }
    // An admin refund bypasses the delay.
    let r = cancel::bet(
        &rec,
        &cancel_payload(0),
        cfg().admin,
        true,
        w(7),
        &dest,
        true,
        Some(&delay),
        true,
        placed_at,
        cfg().token_program,
        &cfg(),
    );
    assert_eq!(r, Ok(100));
}

#[test]
fn aggregated_cancel_rejects_counterfeit_config() {
    let payload = maker_payload(100, 50, 0, true);
    let (rec, _) = maker::bet(
        &blank_record(),
        &payload,
        cfg().pool,
        w(5),
        w(5),
        w(7),
        cfg().token_program,
        1_000_000,
        &cfg(),
    )
    .unwrap();
    let dest = token_account_data(w(5));
    let fake = [0u8, 90];
    let r = cancel::bet(
        &rec,
        &cancel_payload(0),
        w(5),
        true,
        w(7),
        &dest,
        false,
        Some(&fake),
        true,
        9_000_000,
        cfg().token_program,
        &cfg(),
    );
    assert_eq!(r, Err(BetError::InvalidAccountData));
    let genuine = [1u8, 90];
    let r = cancel::bet(
        &rec,
        &cancel_payload(0),
        w(5),
        true,
        w(7),
        &dest,
        false,
        Some(&genuine),
        false,
        9_000_000,
        cfg().token_program,
        &cfg(),
    );
    assert_eq!(r, Err(BetError::IncorrectProgramId));
    let r = cancel::bet(
        &rec,
        &cancel_payload(0),
        w(5),
        true,
        w(7),
        &dest,
        false,
        None,
        true,
        9_000_000,
        cfg().token_program,
        &cfg(),
    );
    assert_eq!(r, Err(BetError::InvalidArgument));
}

#[test]
fn are_paired_reads_token_account_owner() {
    let data = token_account_data(w(5));
    assert_eq!(are_paired(w(5), &data), Ok(true));
    assert_eq!(are_paired(w(6), &data), Ok(false));
    assert_eq!(are_paired(w(5), &data[..100]), Err(BetError::InvalidAccountData));
}

#[test]
fn set_delay_requires_admin() {
    let r = cancel::set_delay(&[90], w(5), true, &cfg());
    assert_eq!(r, Err(BetError::InvalidArgument));
    let r = cancel::set_delay(&[90], cfg().admin, false, &cfg());
    assert_eq!(r, Err(BetError::InvalidArgument));
    let r = cancel::set_delay(&[90], cfg().admin, true, &cfg());
    assert_eq!(r, Ok(CancelDelay { is_real: true, seconds: 90 }));
}

#[test]
fn route_selects_handler_from_shape() {
    assert_eq!(route(false, 5, 37, true, true, None), Err(BetError::IncorrectProgramId));
    assert_eq!(route(true, 2, 1, false, false, None), Ok(Operation::SetDelay));
    assert_eq!(route(true, 7, 38, true, true, None), Ok(Operation::Maker));
    assert_eq!(route(true, 5, 37, true, false, None), Ok(Operation::Taker));
    assert_eq!(route(true, 7, 37, false, true, None), Ok(Operation::PartialTaker));
    assert_eq!(route(true, 7, 21, false, true, None), Ok(Operation::Cancel));
    assert_eq!(route(true, 8, 21, false, true, Some(2)), Ok(Operation::Cancel));
    assert_eq!(route(true, 8, 21, false, true, Some(9)), Ok(Operation::Reserved));
    assert_eq!(route(true, 5, 21, false, true, None), Err(BetError::InvalidArgument));
    assert_eq!(route(true, 5, 37, false, false, None), Ok(Operation::Reserved));
}
