//! Handoff of the pointer to the other computer's desktop.
use vstd::prelude::*;

use crate::desktop::{bounds_are_unique, is_bounds, DesktopResponse, Edge, Rect, MAX_TOKEN};
use crate::random::{first_eight, le_value, random_bytes, u64_from_le};

verus! {

/// Where the pointer enters the other desktop, and how large that desktop was
/// when the layout was saved.
#[derive(Clone, Copy, Debug, PartialEq, Eq, Structural)]
pub struct HandoffOptions {
    pub edge: Edge,
    pub start: u32,
    pub end: u32,
    pub position: u32,
    pub expected_width: u32,
    pub expected_height: u32,
}

#[derive(Debug, PartialEq, Eq)]
pub enum PrepareError {
    /// The monitors have no bounds.
    InvalidGeometry,
    /// The desktop is not as large as the saved layout says.
    SizeChanged,
    Unavailable(String),
    /// The receiver answered something else.
    NotPrepared,
}

#[derive(Debug, PartialEq, Eq)]
pub enum FinishError {
    /// The request failed.
    Failed(String),
    Unavailable(String),
    /// The receiver answered something else.
    NotConfirmed,
}

/// The other desktop has the size that the layout expects.
pub open spec fn has_expected_size(handoff: HandoffOptions, monitors: Seq<Rect>) -> bool {
    exists|bounds: Rect| #[trigger]
        is_bounds(bounds, monitors) && bounds.width == handoff.expected_width && bounds.height
            == handoff.expected_height
}

/// The receiver must have prepared the desktop that the layout was made for.
pub fn validate_prepared(handoff: &HandoffOptions, response: DesktopResponse) -> (result: Result<
    (),
    PrepareError,
>)
    ensures
        match response {
            DesktopResponse::Prepared { geometry, .. } => {
                &&& result is Ok <==> has_expected_size(*handoff, geometry.monitors@)
                &&& result is Err ==> result->Err_0 == if exists|bounds: Rect| #[trigger]
                    is_bounds(bounds, geometry.monitors@) {
                    PrepareError::SizeChanged
                } else {
                    PrepareError::InvalidGeometry
                }
            },
            DesktopResponse::Unavailable { reason } => result == Err::<(), PrepareError>(
                PrepareError::Unavailable(reason),
            ),
            _ => result == Err::<(), PrepareError>(PrepareError::NotPrepared),
        },
{
    match response {
        DesktopResponse::Prepared { geometry, .. } => match geometry.bounds() {
            Some(bounds) => {
                proof {
                    assert forall|other: Rect| #[trigger]
                        is_bounds(other, geometry.monitors@) implies other == bounds by {
                        bounds_are_unique(other, bounds, geometry.monitors@);
                    }
                }
                if bounds.width != handoff.expected_width || bounds.height
                    != handoff.expected_height {
                    Err(PrepareError::SizeChanged)
                } else {
                    Ok(())
                }
            },
            None => Err(PrepareError::InvalidGeometry),
        },
        DesktopResponse::Unavailable { reason } => Err(PrepareError::Unavailable(reason)),
        _ => Err(PrepareError::NotPrepared),
    }
}

/// Only an explicit acknowledgement ends a handoff.
pub fn validate_finished(response: Result<DesktopResponse, String>) -> (result: Result<
    (),
    FinishError,
>)
    ensures
        result == match response {
            Ok(DesktopResponse::Finished) => Ok::<(), FinishError>(()),
            Ok(DesktopResponse::Unavailable { reason }) => Err(FinishError::Unavailable(reason)),
            Ok(_) => Err(FinishError::NotConfirmed),
            Err(reason) => Err(FinishError::Failed(reason)),
        },
{
    match response {
        Ok(DesktopResponse::Finished) => Ok(()),
        Ok(DesktopResponse::Unavailable { reason }) => Err(FinishError::Unavailable(reason)),
        Ok(_) => Err(FinishError::NotConfirmed),
        Err(reason) => Err(FinishError::Failed(reason)),
    }
}

/// The token that random bytes give: their low bits, and never zero.
pub open spec fn token_of(bytes: Seq<u8>) -> int {
    let low = le_value(bytes) as int % (MAX_TOKEN + 1);
    if low == 0 {
        1
    } else {
        low
    }
}

/// A handoff token from random bytes.
pub fn handoff_token(random: [u8; 8]) -> (result: u64)
    ensures
        result == token_of(random@),
        1 <= result <= MAX_TOKEN,
{
    let low: u64 = u64_from_le(random) % (MAX_TOKEN + 1);
    if low == 0 {
        1
    } else {
        low
    }
}

/// Draws a handoff token, if the system gives random data.
pub fn random_handoff_token() -> (result: Option<u64>)
    ensures
        result matches Some(token) ==> 1 <= token <= MAX_TOKEN,
{
    match random_bytes(8) {
        Some(bytes) => Some(handoff_token(first_eight(&bytes))),
        None => None,
    }
}

#[derive(Clone, Copy, Debug, PartialEq, Eq, Structural)]
pub enum EntryProblem {
    /// Keys or buttons are held.
    HeldInput,
    /// The pointer left the edge while connecting.
    LeftEdge,
    /// The displays changed while connecting.
    DesktopChanged,
}

/// Decides whether a crossing may still start when everything is prepared.
pub fn check_entry(neutral: bool, at_edge: bool, desktop_unchanged: bool) -> (result: Result<
    (),
    EntryProblem,
>)
    ensures
        result == if !neutral {
            Err::<(), EntryProblem>(EntryProblem::HeldInput)
        } else if !at_edge {
            Err(EntryProblem::LeftEdge)
        } else if !desktop_unchanged {
            Err(EntryProblem::DesktopChanged)
        } else {
            Ok(())
        },
{
    if !neutral {
        Err(EntryProblem::HeldInput)
    } else if !at_edge {
        Err(EntryProblem::LeftEdge)
    } else if !desktop_unchanged {
        Err(EntryProblem::DesktopChanged)
    } else {
        Ok(())
    }
}

/// A token is the random number's low 53 bits, and one if those are zero.
pub proof fn tokens_are_the_low_bits(bytes: Seq<u8>)
    ensures
        1 <= token_of(bytes) < 0x20_0000_0000_0000,
        le_value(bytes) as int % 0x20_0000_0000_0000 != 0 ==> (le_value(bytes) - token_of(bytes))
            % 0x20_0000_0000_0000 == 0,
        le_value(bytes) as int % 0x20_0000_0000_0000 == 0 ==> token_of(bytes) == 1,
{
}

} // verus!
