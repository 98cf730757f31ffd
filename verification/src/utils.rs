//! The wagering record and the configuration record, with the identity
//! predicates and payload helpers every handler builds on.
use vstd::prelude::*;

verus! {

/// A wagering record: an order while one side is open, a position once both
/// wallets are set. A side is unmatched exactly when its wallet is the
/// all-zero sentinel.
#[derive(Clone, Copy, Debug, PartialEq, Eq)]
pub struct BetAcc {
    pub sport: u8,
    pub league: u32,
    pub event: u64,
    pub period: u8,
    pub mkt: u16,
    pub player: u32,
    pub stake0: u64,
    pub stake1: u64,
    pub wallet0: [u8; 32],
    pub wallet1: [u8; 32],
    pub rent_payer: [u8; 32],
    pub is_free_bet: bool,
    pub placed_at: u64,
    pub to_aggregate: bool,
}

/// The cancellation-delay configuration record: `is_real` discriminates a
/// genuine record from an uninitialized slot, `seconds` is the minimum age an
/// aggregated order must reach before its owner may cancel it.
#[derive(Clone, Copy, Debug, PartialEq, Eq)]
pub struct CancelDelay {
    pub is_real: bool,
    pub seconds: u8,
}

/// Two 32-byte identities are equal when every byte agrees.
pub open spec fn wallets_eq(w1: [u8; 32], w2: [u8; 32]) -> bool {
    w1@ == w2@
}

/// The blank sentinel: all 32 bytes zero.
pub open spec fn is_blank(w: [u8; 32]) -> bool {
    forall|i: int| 0 <= i < 32 ==> w@[i] == 0
}

/// Byte-wise equality of two 32-byte identities.
pub fn equal_wallets(wallet1: [u8; 32], wallet2: [u8; 32]) -> (r: bool)
    ensures
        r == wallets_eq(wallet1, wallet2),
{
    let mut i: usize = 0;
    while i < 32
        invariant
            0 <= i <= 32,
            forall|j: int| 0 <= j < i ==> wallet1@[j] == wallet2@[j],
        decreases 32 - i,
    {
        if wallet1[i] != wallet2[i] {
            return false;
        }
        i = i + 1;
    }
    proof {
        assert(wallet1@ =~= wallet2@);
    }
    true
}

/// An identity is the canonical pool exactly when it equals the configured
/// pool identity.
pub fn correct_pool(wallet: [u8; 32], pool: [u8; 32]) -> (r: bool)
    ensures
        r == wallets_eq(wallet, pool),
{
    equal_wallets(wallet, pool)
}

/// An identity is blank exactly when every byte is zero.
pub fn blank_wallet(wallet: [u8; 32]) -> (r: bool)
    ensures
        r == is_blank(wallet),
{
    let mut i: usize = 0;
    while i < 32
        invariant
            0 <= i <= 32,
            forall|j: int| 0 <= j < i ==> wallet@[j] == 0,
        decreases 32 - i,
    {
        if wallet[i] != 0 {
            return false;
        }
        i = i + 1;
    }
    true
}

/// The value of a little-endian byte sequence.
pub open spec fn le_val(s: Seq<u8>) -> nat
    decreases s.len(),
{
    if s.len() == 0 {
        0
    } else {
        (s[0] as nat) + 256 * le_val(s.drop_first())
    }
}

/// 256 to the power `n`.
pub open spec fn pow256(n: nat) -> nat
    decreases n,
{
    if n == 0 {
        1
    } else {
        256 * pow256((n - 1) as nat)
    }
}

pub proof fn lemma_pow256_monotone(a: nat, b: nat)
    requires
        a <= b,
    ensures
        pow256(a) <= pow256(b),
    decreases b,
{
    if a < b {
        lemma_pow256_monotone(a, (b - 1) as nat);
        assert(pow256(b) == 256 * pow256((b - 1) as nat));
        assert(pow256((b - 1) as nat) <= 256 * pow256((b - 1) as nat)) by (nonlinear_arith)
            requires
                pow256((b - 1) as nat) >= 0,
        ;
    }
}

pub proof fn lemma_le_val_bound(s: Seq<u8>)
    ensures
        le_val(s) < pow256(s.len()),
    decreases s.len(),
{
    if s.len() == 0 {
    } else {
        lemma_le_val_bound(s.drop_first());
        assert(le_val(s.drop_first()) + 1 <= pow256((s.len() - 1) as nat));
        assert(256 * (le_val(s.drop_first()) + 1) <= 256 * pow256((s.len() - 1) as nat))
            by (nonlinear_arith)
            requires
                le_val(s.drop_first()) + 1 <= pow256((s.len() - 1) as nat),
        ;
    }
}

/// The little-endian value of `data[start..end]`, at most eight bytes wide.
pub fn bytes_to_num(data: &[u8], start: usize, end: usize) -> (output: u64)
    requires
        start <= end <= data@.len(),
        end - start <= 8,
    ensures
        output == le_val(data@.subrange(start as int, end as int)),
        output < pow256((end - start) as nat),
{
    let ghost whole = data@.subrange(start as int, end as int);
    let mut output: u64 = 0;
    let mut k: usize = end;
    proof {
        assert(data@.subrange(end as int, end as int) =~= Seq::<u8>::empty());
    }
    while k > start
        invariant
            start <= k <= end <= data@.len(),
            end - start <= 8,
            output == le_val(data@.subrange(k as int, end as int)),
        decreases k,
    {
        k = k - 1;
        let ghost tail = data@.subrange(k as int + 1, end as int);
        let ghost cur = data@.subrange(k as int, end as int);
        proof {
            assert(cur.drop_first() =~= tail);
            assert(le_val(cur) == (data@[k as int] as nat) + 256 * le_val(tail));
            lemma_le_val_bound(cur);
            lemma_pow256_monotone(cur.len(), 8);
            assert(pow256(8) == 0x1_0000_0000_0000_0000) by {
                reveal_with_fuel(pow256, 9);
            }
        }
        output = output * 256 + (data[k] as u64);
    }
    proof {
        lemma_le_val_bound(whole);
        lemma_pow256_monotone(whole.len(), 8);
        assert(pow256(8) == 0x1_0000_0000_0000_0000) by {
            reveal_with_fuel(pow256, 9);
        }
    }
    output
}

/// The `n`-byte little-endian form of `v` (modulo 256 to the `n`).
pub open spec fn le_bytes(v: nat, n: nat) -> Seq<u8>
    decreases n,
{
    if n == 0 {
        Seq::empty()
    } else {
        seq![(v % 256) as u8] + le_bytes(v / 256, (n - 1) as nat)
    }
}

pub proof fn lemma_le_bytes_len(v: nat, n: nat)
    ensures
        le_bytes(v, n).len() == n,
    decreases n,
{
    if n > 0 {
        lemma_le_bytes_len(v / 256, (n - 1) as nat);
    }
}

/// Reading back the little-endian bytes of a value below 256 to the `n`
/// recovers the value.
pub proof fn lemma_le_val_of_le_bytes(v: nat, n: nat)
    requires
        v < pow256(n),
    ensures
        le_val(le_bytes(v, n)) == v,
    decreases n,
{
    if n > 0 {
        vstd::arithmetic::div_mod::lemma_fundamental_div_mod(v as int, 256);
        assert(v / 256 < pow256((n - 1) as nat)) by (nonlinear_arith)
            requires
                v == 256 * (v as int / 256) + v as int % 256,
                0 <= v as int % 256 < 256,
                v < 256 * pow256((n - 1) as nat),
        ;
        lemma_le_val_of_le_bytes(v / 256, (n - 1) as nat);
        let s = le_bytes(v, n);
        assert(s.drop_first() =~= le_bytes(v / 256, (n - 1) as nat));
        assert(le_val(s) == (v % 256) + 256 * (v / 256));
    }
}

/// The outcome-identification tuple carried at the head of every payload
/// agrees with the record's.
pub open spec fn ids_match_spec(rec: BetAcc, data: Seq<u8>) -> bool {
    &&& data[0] == rec.sport
    &&& le_val(data.subrange(1, 5)) == rec.league
    &&& le_val(data.subrange(5, 13)) == rec.event
    &&& data[13] == rec.period
    &&& le_val(data.subrange(14, 16)) == rec.mkt
    &&& le_val(data.subrange(16, 20)) == rec.player
}

/// Whether the payload's outcome tuple equals the record's.
pub fn ids_match(bet_account: &BetAcc, instruction_data: &[u8]) -> (r: bool)
    requires
        instruction_data@.len() >= 20,
    ensures
        r == ids_match_spec(*bet_account, instruction_data@),
{
    proof {
        assert(pow256(4) == 0x1_0000_0000) by {
            reveal_with_fuel(pow256, 5);
        }
        assert(pow256(2) == 0x1_0000) by {
            reveal_with_fuel(pow256, 3);
        }
    }
    let sports_equal = instruction_data[0] == bet_account.sport;
    let leagues_equal = bytes_to_num(instruction_data, 1, 5) as u32 == bet_account.league;
    let events_equal = bytes_to_num(instruction_data, 5, 13) == bet_account.event;
    let periods_equal = instruction_data[13] == bet_account.period;
    let mkts_equal = bytes_to_num(instruction_data, 14, 16) as u16 == bet_account.mkt;
    let players_equal = bytes_to_num(instruction_data, 16, 20) as u32 == bet_account.player;
    sports_equal && leagues_equal && events_equal && periods_equal && mkts_equal && players_equal
}

/// A blank record: both wallets and the rent payer are the blank sentinel.
pub open spec fn blank_acc_spec(rec: BetAcc) -> bool {
    is_blank(rec.wallet0) && is_blank(rec.wallet1) && is_blank(rec.rent_payer)
}

/// Whether a record is blank, the only state a maker may write into.
pub fn blank_acc(bet_account: &BetAcc) -> (r: bool)
    ensures
        r == blank_acc_spec(*bet_account),
{
    let wallet0_empty = blank_wallet(bet_account.wallet0);
    let wallet1_empty = blank_wallet(bet_account.wallet1);
    let rent_payer_empty = blank_wallet(bet_account.rent_payer);
    wallet0_empty && wallet1_empty && rent_payer_empty
}

/// The record `rec` with its outcome tuple replaced by the payload's.
pub open spec fn with_ids(rec: BetAcc, data: Seq<u8>) -> BetAcc {
    BetAcc {
        sport: data[0],
        league: le_val(data.subrange(1, 5)) as u32,
        event: le_val(data.subrange(5, 13)) as u64,
        period: data[13],
        mkt: le_val(data.subrange(14, 16)) as u16,
        player: le_val(data.subrange(16, 20)) as u32,
        ..rec
    }
}

/// Copies the payload's outcome tuple into the record.
pub fn set_bet_ids(bet_account: &mut BetAcc, instruction_data: &[u8])
    requires
        instruction_data@.len() >= 20,
    ensures
        *final(bet_account) == with_ids(*old(bet_account), instruction_data@),
        ids_match_spec(*final(bet_account), instruction_data@),
{
    proof {
        assert(pow256(4) == 0x1_0000_0000) by {
            reveal_with_fuel(pow256, 5);
        }
        assert(pow256(2) == 0x1_0000) by {
            reveal_with_fuel(pow256, 3);
        }
        assert(pow256(8) == 0x1_0000_0000_0000_0000) by {
            reveal_with_fuel(pow256, 9);
        }
    }
    bet_account.sport = instruction_data[0];
    bet_account.league = bytes_to_num(instruction_data, 1, 5) as u32;
    bet_account.event = bytes_to_num(instruction_data, 5, 13);
    bet_account.period = instruction_data[13];
    bet_account.mkt = bytes_to_num(instruction_data, 14, 16) as u16;
    bet_account.player = bytes_to_num(instruction_data, 16, 20) as u32;
}

} // verus!
