//! Routing an incoming request to a handler from the target record's state
//! and the request's shape: how many resources are attached and how long the
//! payload is.
use vstd::prelude::*;

use crate::BetError;

verus! {

/// The handler a request is routed to. `Reserved` covers the grading and
/// settlement shapes that are recognized but not yet acted on.
#[derive(Clone, Copy, Debug, PartialEq, Eq, Structural)]
pub enum Operation {
    SetDelay,
    Maker,
    Taker,
    PartialTaker,
    Cancel,
    Reserved,
}

/// Where a request goes: a two-resource request updates the delay
/// configuration; a blank record is a maker; a half-open record takes a
/// 37-byte match payload (full or partial by resource count) or otherwise a
/// cancel, next to the reserved grading shapes; a fully matched record is
/// reserved for grading.
pub open spec fn route_spec(
    bet_owned: bool,
    accounts_len: usize,
    payload_len: usize,
    wallet0_blank: bool,
    wallet1_blank: bool,
    eighth_data_len: Option<usize>,
) -> Result<Operation, BetError> {
    if !bet_owned {
        Err(BetError::IncorrectProgramId)
    } else if accounts_len == 2 {
        Ok(Operation::SetDelay)
    } else if wallet0_blank && wallet1_blank {
        Ok(Operation::Maker)
    } else if wallet0_blank || wallet1_blank {
        if payload_len == 37 {
            if accounts_len == 5 {
                Ok(Operation::Taker)
            } else if accounts_len == 7 {
                Ok(Operation::PartialTaker)
            } else {
                Ok(Operation::Reserved)
            }
        } else if accounts_len == 7 || eighth_data_len == Some(2usize) {
            Ok(Operation::Cancel)
        } else if accounts_len == 8 {
            Ok(Operation::Reserved)
        } else {
            Err(BetError::InvalidArgument)
        }
    } else {
        Ok(Operation::Reserved)
    }
}

/// Routes a request: `bet_owned` says whether the target record belongs to
/// this program, and `eighth_data_len` carries the stored size of the eighth
/// attached resource where one exists.
pub fn route(
    bet_owned: bool,
    accounts_len: usize,
    payload_len: usize,
    wallet0_blank: bool,
    wallet1_blank: bool,
    eighth_data_len: Option<usize>,
) -> (r: Result<Operation, BetError>)
    ensures
        r == route_spec(
            bet_owned,
            accounts_len,
            payload_len,
            wallet0_blank,
            wallet1_blank,
            eighth_data_len,
        ),
{
    if !bet_owned {
        return Err(BetError::IncorrectProgramId);
    }
    if accounts_len == 2 {
        return Ok(Operation::SetDelay);
    }
    if wallet0_blank && wallet1_blank {
        return Ok(Operation::Maker);
    }
    if wallet0_blank || wallet1_blank {
        if payload_len == 37 {
            if accounts_len == 5 {
                return Ok(Operation::Taker);
            }
            if accounts_len == 7 {
                return Ok(Operation::PartialTaker);
            }
            return Ok(Operation::Reserved);
        }
        let eighth_is_delay = match eighth_data_len {
            Some(n) => n == 2,
            None => false,
        };
        if accounts_len == 7 || eighth_is_delay {
            return Ok(Operation::Cancel);
        }
        if accounts_len == 8 {
            return Ok(Operation::Reserved);
        }
        return Err(BetError::InvalidArgument);
    }
    Ok(Operation::Reserved)
}

} // verus!
