//! The fixed persisted layout of the two record types: little-endian packed
//! integers, raw 32-byte identities, booleans as a single 0/1 byte, fields in
//! declaration order. A record occupies 142 bytes, a delay configuration 2.
use vstd::prelude::*;

use crate::utils::{le_val, pow256, le_bytes, lemma_le_bytes_len, lemma_le_val_of_le_bytes, BetAcc,
    CancelDelay};

verus! {

/// The byte a boolean serializes to.
pub open spec fn bool_byte(b: bool) -> Seq<u8> {
    seq![if b { 1u8 } else { 0u8 }]
}

/// The serialized form of a record.
pub open spec fn bet_bytes(rec: BetAcc) -> Seq<u8> {
    le_bytes(rec.sport as nat, 1) + le_bytes(rec.league as nat, 4) + le_bytes(rec.event as nat, 8)
        + le_bytes(rec.period as nat, 1) + le_bytes(rec.mkt as nat, 2) + le_bytes(
        rec.player as nat,
        4,
    ) + le_bytes(rec.stake0 as nat, 8) + le_bytes(rec.stake1 as nat, 8) + rec.wallet0@
        + rec.wallet1@ + rec.rent_payer@ + bool_byte(rec.is_free_bet) + le_bytes(
        rec.placed_at as nat,
        8,
    ) + bool_byte(rec.to_aggregate)
}

/// Whether serialized record bytes are well-formed: exactly 142 bytes with
/// valid boolean bytes.
pub open spec fn bet_bytes_valid(data: Seq<u8>) -> bool {
    &&& data.len() == 142
    &&& (data[132] == 0 || data[132] == 1)
    &&& (data[141] == 0 || data[141] == 1)
}

/// The record read from well-formed serialized bytes.
pub open spec fn bet_of_bytes(data: Seq<u8>) -> BetAcc {
    BetAcc {
        sport: data[0],
        league: le_val(data.subrange(1, 5)) as u32,
        event: le_val(data.subrange(5, 13)) as u64,
        period: data[13],
        mkt: le_val(data.subrange(14, 16)) as u16,
        player: le_val(data.subrange(16, 20)) as u32,
        stake0: le_val(data.subrange(20, 28)) as u64,
        stake1: le_val(data.subrange(28, 36)) as u64,
        wallet0: seq_to_wallet(data.subrange(36, 68)),
        wallet1: seq_to_wallet(data.subrange(68, 100)),
        rent_payer: seq_to_wallet(data.subrange(100, 132)),
        is_free_bet: data[132] == 1,
        placed_at: le_val(data.subrange(133, 141)) as u64,
        to_aggregate: data[141] == 1,
    }
}

/// The 32-byte identity whose view is `s`.
pub open spec fn seq_to_wallet(s: Seq<u8>) -> [u8; 32] {
    choose|w: [u8; 32]| w@ == s
}

pub proof fn lemma_seq_to_wallet(w: [u8; 32])
    ensures
        seq_to_wallet(w@) == w,
{
    let p = seq_to_wallet(w@);
    assert(p@ == w@);
    assert(p =~= w);
}

/// Appends the 32 bytes of an identity.
fn push_wallet(out: &mut Vec<u8>, w: [u8; 32])
    ensures
        final(out)@ == old(out)@ + w@,
{
    let ghost start = out@;
    let mut i: usize = 0;
    while i < 32
        invariant
            0 <= i <= 32,
            out@ == start + w@.subrange(0, i as int),
        decreases 32 - i,
    {
        out.push(w[i]);
        proof {
            assert(start + w@.subrange(0, i as int) + seq![w@[i as int]] =~= start + w@.subrange(
                0,
                i + 1,
            ));
        }
        i = i + 1;
    }
    proof {
        assert(w@.subrange(0, 32) =~= w@);
    }
}

/// Appends one 0/1 byte for a boolean.
fn push_bool(out: &mut Vec<u8>, b: bool)
    ensures
        final(out)@ == old(out)@ + bool_byte(b),
{
    out.push(if b { 1 } else { 0 });
    proof {
        assert(old(out)@.push(if b { 1u8 } else { 0u8 }) =~= old(out)@ + bool_byte(b));
    }
}

/// Appends the `n`-byte little-endian form of `v`.
fn push_le(out: &mut Vec<u8>, v: u64, n: usize)
    ensures
        final(out)@ == old(out)@ + le_bytes(v as nat, n as nat),
{
    let ghost start = old(out)@;
    let ghost v0 = v as nat;
    let mut cur: u64 = v;
    let mut i: usize = 0;
    while i < n
        invariant
            0 <= i <= n,
            start + le_bytes(v0, n as nat) =~= out@ + le_bytes(cur as nat, (n - i) as nat),
            out@.len() == start.len() + i,
        decreases n - i,
    {
        let ghost pre = out@;
        let ghost prev = cur as nat;
        let b: u8 = (cur % 256) as u8;
        out.push(b);
        cur = cur / 256;
        proof {
            assert(le_bytes(prev, (n - i) as nat) == seq![(prev % 256) as u8] + le_bytes(
                prev / 256,
                (n - i - 1) as nat,
            ));
            assert(pre + (seq![b] + le_bytes(cur as nat, (n - i - 1) as nat)) =~= (pre + seq![b])
                + le_bytes(cur as nat, (n - i - 1) as nat));
            assert(pre + seq![b] =~= out@);
        }
        i = i + 1;
    }
    proof {
        assert(out@ + le_bytes(cur as nat, 0) =~= out@);
        assert(out@ =~= start + le_bytes(v0, n as nat));
    }
}

/// Serializes a record into its 142-byte persisted form.
pub fn encode_bet(rec: &BetAcc) -> (r: Vec<u8>)
    ensures
        r@ == bet_bytes(*rec),
        r@.len() == 142,
{
    let mut out: Vec<u8> = Vec::new();
    push_le(&mut out, rec.sport as u64, 1);
    push_le(&mut out, rec.league as u64, 4);
    push_le(&mut out, rec.event, 8);
    push_le(&mut out, rec.period as u64, 1);
    push_le(&mut out, rec.mkt as u64, 2);
    push_le(&mut out, rec.player as u64, 4);
    push_le(&mut out, rec.stake0, 8);
    push_le(&mut out, rec.stake1, 8);
    push_wallet(&mut out, rec.wallet0);
    push_wallet(&mut out, rec.wallet1);
    push_wallet(&mut out, rec.rent_payer);
    push_bool(&mut out, rec.is_free_bet);
    push_le(&mut out, rec.placed_at, 8);
    push_bool(&mut out, rec.to_aggregate);
    proof {
        lemma_bet_bytes_len(*rec);
        assert(out@ =~= bet_bytes(*rec));
    }
    out
}

pub proof fn lemma_bet_bytes_len(rec: BetAcc)
    ensures
        bet_bytes(rec).len() == 142,
{
    lemma_le_bytes_len(rec.sport as nat, 1);
    lemma_le_bytes_len(rec.league as nat, 4);
    lemma_le_bytes_len(rec.event as nat, 8);
    lemma_le_bytes_len(rec.period as nat, 1);
    lemma_le_bytes_len(rec.mkt as nat, 2);
    lemma_le_bytes_len(rec.player as nat, 4);
    lemma_le_bytes_len(rec.stake0 as nat, 8);
    lemma_le_bytes_len(rec.stake1 as nat, 8);
    lemma_le_bytes_len(rec.placed_at as nat, 8);
}

/// Reads the 32 bytes at `start` as an identity.
fn read_wallet(data: &[u8], start: usize) -> (r: [u8; 32])
    requires
        start + 32 <= data@.len(),
    ensures
        r@ == data@.subrange(start as int, start as int + 32),
{
    let dlen = data.len();
    let mut w: [u8; 32] = [0;32];
    let mut i: usize = 0;
    while i < 32
        invariant
            0 <= i <= 32,
            start + 32 <= dlen == data@.len(),
            forall|j: int| 0 <= j < i ==> w@[j] == data@[start + j],
        decreases 32 - i,
    {
        w[i] = data[start + i];
        i = i + 1;
    }
    proof {
        assert(w@ =~= data@.subrange(start as int, start as int + 32));
    }
    w
}

/// Reads a record back from its persisted form; fails on any other length
/// and on a boolean byte that is neither 0 nor 1.
pub fn decode_bet(data: &[u8]) -> (r: Option<BetAcc>)
    ensures
        r is Some <==> bet_bytes_valid(data@),
        r is Some ==> r->0 == bet_of_bytes(data@),
{
    if data.len() != 142 {
        return None;
    }
    let free_byte = data[132];
    let agg_byte = data[141];
    if free_byte > 1 || agg_byte > 1 {
        return None;
    }
    proof {
        assert(pow256(2) == 0x1_0000) by {
            reveal_with_fuel(pow256, 3);
        }
        assert(pow256(4) == 0x1_0000_0000) by {
            reveal_with_fuel(pow256, 5);
        }
    }
    let rec = BetAcc {
        sport: data[0],
        league: crate::utils::bytes_to_num(data, 1, 5) as u32,
        event: crate::utils::bytes_to_num(data, 5, 13),
        period: data[13],
        mkt: crate::utils::bytes_to_num(data, 14, 16) as u16,
        player: crate::utils::bytes_to_num(data, 16, 20) as u32,
        stake0: crate::utils::bytes_to_num(data, 20, 28),
        stake1: crate::utils::bytes_to_num(data, 28, 36),
        wallet0: read_wallet(data, 36),
        wallet1: read_wallet(data, 68),
        rent_payer: read_wallet(data, 100),
        is_free_bet: free_byte == 1,
        placed_at: crate::utils::bytes_to_num(data, 133, 141),
        to_aggregate: agg_byte == 1,
    };
    proof {
        lemma_seq_to_wallet(rec.wallet0);
        lemma_seq_to_wallet(rec.wallet1);
        lemma_seq_to_wallet(rec.rent_payer);
    }
    Some(rec)
}

/// The serialized form of a delay configuration.
pub open spec fn delay_bytes(d: CancelDelay) -> Seq<u8> {
    bool_byte(d.is_real) + seq![d.seconds]
}

/// Whether serialized delay bytes are well-formed: two bytes with a valid
/// boolean byte.
pub open spec fn delay_bytes_valid(data: Seq<u8>) -> bool {
    data.len() == 2 && (data[0] == 0 || data[0] == 1)
}

/// The delay configuration read from well-formed serialized bytes.
pub open spec fn delay_of_bytes(data: Seq<u8>) -> CancelDelay {
    CancelDelay { is_real: data[0] == 1, seconds: data[1] }
}

/// Serializes a delay configuration into its 2-byte persisted form.
pub fn encode_delay(d: &CancelDelay) -> (r: Vec<u8>)
    ensures
        r@ == delay_bytes(*d),
        r@.len() == 2,
{
    let mut out: Vec<u8> = Vec::new();
    push_bool(&mut out, d.is_real);
    out.push(d.seconds);
    proof {
        assert(out@ =~= delay_bytes(*d));
    }
    out
}

/// Reads a delay configuration back from its persisted form.
pub fn decode_delay(data: &[u8]) -> (r: Option<CancelDelay>)
    ensures
        r is Some <==> delay_bytes_valid(data@),
        r is Some ==> r->0 == delay_of_bytes(data@),
{
    if data.len() != 2 {
        return None;
    }
    let real_byte = data[0];
    if real_byte > 1 {
        return None;
    }
    Some(CancelDelay { is_real: real_byte == 1, seconds: data[1] })
}

/// Law: serializing a record and reading it back reproduces every field.
pub proof fn lemma_bet_record_round_trip(rec: BetAcc)
    ensures
        bet_bytes_valid(bet_bytes(rec)),
        bet_of_bytes(bet_bytes(rec)) == rec,
{
    let s = bet_bytes(rec);
    lemma_bet_bytes_len(rec);
    lemma_le_bytes_len(rec.sport as nat, 1);
    lemma_le_bytes_len(rec.league as nat, 4);
    lemma_le_bytes_len(rec.event as nat, 8);
    lemma_le_bytes_len(rec.period as nat, 1);
    lemma_le_bytes_len(rec.mkt as nat, 2);
    lemma_le_bytes_len(rec.player as nat, 4);
    lemma_le_bytes_len(rec.stake0 as nat, 8);
    lemma_le_bytes_len(rec.stake1 as nat, 8);
    lemma_le_bytes_len(rec.placed_at as nat, 8);
    assert(pow256(1) == 0x100) by {
        reveal_with_fuel(pow256, 2);
    }
    assert(pow256(2) == 0x1_0000) by {
        reveal_with_fuel(pow256, 3);
    }
    assert(pow256(4) == 0x1_0000_0000) by {
        reveal_with_fuel(pow256, 5);
    }
    assert(pow256(8) == 0x1_0000_0000_0000_0000) by {
        reveal_with_fuel(pow256, 9);
    }
    assert(s.subrange(0, 1) =~= le_bytes(rec.sport as nat, 1));
    assert(s.subrange(1, 5) =~= le_bytes(rec.league as nat, 4));
    assert(s.subrange(5, 13) =~= le_bytes(rec.event as nat, 8));
    assert(s.subrange(13, 14) =~= le_bytes(rec.period as nat, 1));
    assert(s.subrange(14, 16) =~= le_bytes(rec.mkt as nat, 2));
    assert(s.subrange(16, 20) =~= le_bytes(rec.player as nat, 4));
    assert(s.subrange(20, 28) =~= le_bytes(rec.stake0 as nat, 8));
    assert(s.subrange(28, 36) =~= le_bytes(rec.stake1 as nat, 8));
    assert(s.subrange(36, 68) =~= rec.wallet0@);
    assert(s.subrange(68, 100) =~= rec.wallet1@);
    assert(s.subrange(100, 132) =~= rec.rent_payer@);
    assert(s.subrange(133, 141) =~= le_bytes(rec.placed_at as nat, 8));
    lemma_le_val_of_le_bytes(rec.sport as nat, 1);
    lemma_le_val_of_le_bytes(rec.league as nat, 4);
    lemma_le_val_of_le_bytes(rec.event as nat, 8);
    lemma_le_val_of_le_bytes(rec.period as nat, 1);
    lemma_le_val_of_le_bytes(rec.mkt as nat, 2);
    lemma_le_val_of_le_bytes(rec.player as nat, 4);
    lemma_le_val_of_le_bytes(rec.stake0 as nat, 8);
    lemma_le_val_of_le_bytes(rec.stake1 as nat, 8);
    lemma_le_val_of_le_bytes(rec.placed_at as nat, 8);
    lemma_seq_to_wallet(rec.wallet0);
    lemma_seq_to_wallet(rec.wallet1);
    lemma_seq_to_wallet(rec.rent_payer);
    let d = s.subrange(0, 1);
    assert(s[0] == d[0]);
    assert(le_val(d) == (d[0] as nat) + 256 * le_val(d.drop_first()));
    assert(d.drop_first() =~= Seq::<u8>::empty());
    let p = s.subrange(13, 14);
    assert(s[13] == p[0]);
    assert(le_val(p) == (p[0] as nat) + 256 * le_val(p.drop_first()));
    assert(p.drop_first() =~= Seq::<u8>::empty());
    assert(bet_of_bytes(s).sport == rec.sport);
    assert(bet_of_bytes(s).period == rec.period);
}

/// Law: serializing a delay configuration and reading it back reproduces it.
pub proof fn lemma_delay_round_trip(d: CancelDelay)
    ensures
        delay_bytes_valid(delay_bytes(d)),
        delay_of_bytes(delay_bytes(d)) == d,
{
}

} // verus!
