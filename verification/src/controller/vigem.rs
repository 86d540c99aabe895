//! What a virtual Xbox 360 controller slot is sent.

use vstd::prelude::*;

use crate::controller::{report_of_state, GamepadState, XInputGamepad};
use crate::routing::table::SLOT_COUNT;

verus! {

/// A request named a virtual controller slot that does not exist.
#[derive(Debug, Clone, Copy, PartialEq, Eq, Structural)]
pub enum SlotError {
    InvalidSlot(usize),
}

/// The report to push to virtual controller `slot` for `state`, or the
/// error for a slot index outside 0-3.
pub fn slot_report(slot: usize, state: &GamepadState) -> (r: Result<XInputGamepad, SlotError>)
    ensures
        slot < SLOT_COUNT ==> r == Ok::<XInputGamepad, SlotError>(report_of_state(*state)),
        slot >= SLOT_COUNT ==> r == Err::<XInputGamepad, SlotError>(SlotError::InvalidSlot(slot)),
        r is Ok <==> slot < 4,
        r matches Ok(gp) ==> {
            &&& gp.buttons as int == state.buttons as int % 0x1_0000
            &&& gp.left_trigger == state.left_trigger
            &&& gp.right_trigger == state.right_trigger
            &&& gp.thumb_lx == state.left_thumb_x
            &&& gp.thumb_ly == state.left_thumb_y
            &&& gp.thumb_rx == state.right_thumb_x
            &&& gp.thumb_ry == state.right_thumb_y
        },
{
    if slot >= SLOT_COUNT {
        return Err(SlotError::InvalidSlot(slot));
    }
    Ok(state.to_xinput())
}

} // verus!
