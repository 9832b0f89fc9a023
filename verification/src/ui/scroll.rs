//! Transcript scrolling: offset moves, clamping to the panel, and which
//! states let the transcript scroll.

use vstd::prelude::*;

use crate::engine::outcome::SessionState;

verus! {

/// Visual lines per mouse wheel step.
pub const SCROLL_STEP: usize = 3;

/// Visual lines per page key.
pub const PAGE_STEP: i32 = 10;

impl SessionState {
    /// States that wait for an acknowledgement: intro, narrative, outro,
    /// ending.
    pub open spec fn spec_is_ack(self) -> bool {
        self == SessionState::ShowingIntro || self == SessionState::ShowingNarrative
            || self == SessionState::ShowingOutro || self == SessionState::Ending
    }

    pub fn is_ack(&self) -> (r: bool)
        ensures
            r == self.spec_is_ack(),
    {
        match self {
            SessionState::ShowingIntro | SessionState::ShowingNarrative | SessionState::ShowingOutro
            | SessionState::Ending => true,
            _ => false,
        }
    }
}

/// The transcript is visible and scrolls: while exploring or waiting for an
/// acknowledgement (menus and confirmations cover it).
pub fn is_transcript_scrollable(state: &SessionState) -> (r: bool)
    ensures
        r == (*state == SessionState::Exploring || state.spec_is_ack()),
{
    match state {
        SessionState::Exploring => true,
        _ => state.is_ack(),
    }
}

/// The offset moved by a signed amount, saturating at both ends.
pub open spec fn apply_scroll_delta_spec(cur: usize, delta: i32) -> usize {
    (if delta >= 0 {
        if cur + delta > usize::MAX { usize::MAX as int } else { cur + delta }
    } else {
        if cur + delta < 0 { 0 } else { cur + delta }
    }) as usize
}

/// Move the offset by a signed amount, saturating: positive looks further
/// back, negative comes back down.
pub fn apply_scroll_delta(cur: usize, delta: i32) -> (r: usize)
    requires
        delta > i32::MIN,
    ensures
        r == apply_scroll_delta_spec(cur, delta),
{
    if delta >= 0 {
        cur.saturating_add(delta as usize)
    } else {
        cur.saturating_sub((-delta) as usize)
    }
}

/// Clamp the offset to what the transcript can scroll: `total - height` at
/// most.
pub fn clamp_offset(offset: usize, total: usize, height: usize) -> (r: usize)
    ensures
        r == if offset < (if total > height { total - height } else { 0 }) {
            offset as int
        } else {
            if total > height { total - height } else { 0 }
        },
{
    let max = total.saturating_sub(height);
    if offset < max {
        offset
    } else {
        max
    }
}

} // verus!
