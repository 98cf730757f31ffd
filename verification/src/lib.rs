//! A peer-to-peer wagering exchange: records pair a maker's stake against a
//! taker's stake on an outcome, with a custody pool escrowing both sides.
//! Each handler is a pure transition: it validates a request against the
//! current record and returns the updated record together with the custody
//! transfer that must accompany it.
use vstd::prelude::*;

pub mod utils;
pub mod codec;
pub mod odds;
pub mod token;
pub mod maker;
pub mod taker;
pub mod partial_taker;
pub mod cancel;
pub mod route;

verus! {

/// The trusted principals of one deployment, injected at startup: the custody
/// pool's receiving account, the aggregation operator, the administrator and
/// the official token custody program.
pub struct ExchangeConfig {
    pub pool: [u8; 32],
    pub operator: [u8; 32],
    pub admin: [u8; 32],
    pub token_program: [u8; 32],
}

/// The error kinds a handler can reject a request with.
#[derive(Clone, Copy, Debug, PartialEq, Eq, Structural)]
pub enum BetError {
    /// Outcome tuple mismatch or a malformed payload.
    InvalidInstructionData,
    /// Wrong pool destination, a required identity that did not sign, an
    /// unauthorized canceller or refunder, or an odds or price violation.
    InvalidArgument,
    /// Writing into a non-blank record, or matching an already-filled side.
    AccountAlreadyInitialized,
    /// A referenced record or the token program does not belong to the
    /// expected owner.
    IncorrectProgramId,
    /// A counterfeit configuration record, a too-early cancellation, an
    /// unauthorized match of an aggregated or free-bet order, or an
    /// unreadable token account.
    InvalidAccountData,
}

} // verus!
