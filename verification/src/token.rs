//! The custody side of the exchange: reading a token account's recorded
//! owner, so a cancellation can prove that a payout destination belongs to
//! the party entitled to it.
use vstd::prelude::*;

use solana_program::program_pack::Pack;

use crate::utils::{equal_wallets, wallets_eq};
use crate::BetError;

verus! {

/// A four-byte optional-field tag as the token program lays it out: a 0 or 1
/// followed by three zero bytes.
pub open spec fn coption_tag_ok(d: Seq<u8>, i: int) -> bool {
    (d[i] == 0 || d[i] == 1) && d[i + 1] == 0 && d[i + 2] == 0 && d[i + 3] == 0
}

/// Serialized token-account data the token program accepts: 165 bytes, valid
/// optional-field tags for delegate, native marker and close authority, and
/// an account state that is initialized or frozen.
pub open spec fn token_account_data_valid(d: Seq<u8>) -> bool {
    &&& d.len() == 165
    &&& coption_tag_ok(d, 72)
    &&& (d[108] == 1 || d[108] == 2)
    &&& coption_tag_ok(d, 109)
    &&& coption_tag_ok(d, 129)
}

/// The owner identity recorded in serialized token-account data.
pub open spec fn token_account_owner(d: Seq<u8>) -> Seq<u8> {
    d.subrange(32, 64)
}

/// Relies on `spl_token::state::Account::unpack`: it accepts exactly the
/// 165-byte accounts whose optional-field tags are well-formed and whose
/// state byte marks an initialized or frozen account, and the owner identity
/// it returns is the one stored at bytes 32..64.
#[verifier::external_body]
fn unpack_token_owner(data: &[u8]) -> (r: Option<[u8; 32]>)
    ensures
        r is Some <==> token_account_data_valid(data@),
        r is Some ==> r->0@ == token_account_owner(data@),
{
    match spl_token::state::Account::unpack(data) {
        Ok(acc) => Some(acc.owner.to_bytes()),
        Err(_) => None,
    }
}

/// Whether the token account serialized in `tok_data` is owned by `auth`;
/// fails when the data is not a readable token account.
pub fn are_paired(auth: [u8; 32], tok_data: &[u8]) -> (r: Result<bool, BetError>)
    ensures
        r is Ok <==> token_account_data_valid(tok_data@),
        r is Ok ==> r->Ok_0 == (auth@ == token_account_owner(tok_data@)),
        r is Err ==> r->Err_0 == BetError::InvalidAccountData,
{
    match unpack_token_owner(tok_data) {
        Some(owner) => {
            let paired = equal_wallets(auth, owner);
            proof {
                assert(wallets_eq(auth, owner) == (auth@ == token_account_owner(tok_data@)));
            }
            Ok(paired)
        },
        None => Err(BetError::InvalidAccountData),
    }
}

} // verus!
