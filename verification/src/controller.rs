//! Physical devices, gamepad state, and the XInput report layout shared by
//! the capture side and the virtual controllers.

pub mod capture;
pub mod enumerate;
pub mod vigem;

use vstd::prelude::*;

verus! {

/// A physical gamepad detected via Raw Input.
#[derive(Debug, Clone, PartialEq, Eq)]
pub struct PhysicalDevice {
    /// Raw Input device handle, as an integer.
    pub handle: u64,
    /// HID device path string (e.g. `\\?\HID#VID_...`).
    pub device_path: String,
    /// Human-readable player name assigned after identification.
    pub player_name: Option<String>,
}

/// What a physical device is, as plain values.
pub struct DeviceInfo {
    pub handle: u64,
    pub device_path: Seq<char>,
    pub player_name: Option<Seq<char>>,
}

/// The text of an optional string.
pub open spec fn name_view(name: Option<String>) -> Option<Seq<char>> {
    match name {
        Some(s) => Some(s@),
        None => None,
    }
}

impl View for PhysicalDevice {
    type V = DeviceInfo;

    open spec fn view(&self) -> DeviceInfo {
        DeviceInfo {
            handle: self.handle,
            device_path: self.device_path@,
            player_name: name_view(self.player_name),
        }
    }
}

/// Normalised gamepad state used for routing.  Axes use XInput conventions
/// ([-32768, 32767]); `buttons` is an XInput-style bitmask.
#[derive(Debug, Clone, Copy, PartialEq, Eq, Structural)]
pub struct GamepadState {
    pub buttons: u32,
    pub left_trigger: u8,
    pub right_trigger: u8,
    pub left_thumb_x: i16,
    pub left_thumb_y: i16,
    pub right_thumb_x: i16,
    pub right_thumb_y: i16,
}

/// One XInput gamepad report: what XInput reads from a controller and what
/// a virtual Xbox 360 controller is sent.
#[derive(Debug, Clone, Copy, PartialEq, Eq, Structural)]
pub struct XInputGamepad {
    pub buttons: u16,
    pub left_trigger: u8,
    pub right_trigger: u8,
    pub thumb_lx: i16,
    pub thumb_ly: i16,
    pub thumb_rx: i16,
    pub thumb_ry: i16,
}

/// Every button released, triggers and sticks at rest.
pub open spec fn neutral_state() -> GamepadState {
    GamepadState {
        buttons: 0,
        left_trigger: 0,
        right_trigger: 0,
        left_thumb_x: 0,
        left_thumb_y: 0,
        right_thumb_x: 0,
        right_thumb_y: 0,
    }
}

/// The state that an XInput report describes; the 16 button bits widen to 32.
pub open spec fn state_of_report(gp: XInputGamepad) -> GamepadState {
    GamepadState {
        buttons: gp.buttons as u32,
        left_trigger: gp.left_trigger,
        right_trigger: gp.right_trigger,
        left_thumb_x: gp.thumb_lx,
        left_thumb_y: gp.thumb_ly,
        right_thumb_x: gp.thumb_rx,
        right_thumb_y: gp.thumb_ry,
    }
}

/// The XInput report for a state: only the low 16 button bits fit.
pub open spec fn report_of_state(s: GamepadState) -> XInputGamepad {
    XInputGamepad {
        buttons: (s.buttons % 0x1_0000) as u16,
        left_trigger: s.left_trigger,
        right_trigger: s.right_trigger,
        thumb_lx: s.left_thumb_x,
        thumb_ly: s.left_thumb_y,
        thumb_rx: s.right_thumb_x,
        thumb_ry: s.right_thumb_y,
    }
}

impl Default for GamepadState {
    /// The neutral state.
    fn default() -> (s: Self)
        ensures
            s == neutral_state(),
    {
        GamepadState {
            buttons: 0,
            left_trigger: 0,
            right_trigger: 0,
            left_thumb_x: 0,
            left_thumb_y: 0,
            right_thumb_x: 0,
            right_thumb_y: 0,
        }
    }
}

impl GamepadState {
    /// The state that an XInput report describes.
    pub fn from_xinput(gp: &XInputGamepad) -> (s: GamepadState)
        ensures
            s == state_of_report(*gp),
            s.buttons == gp.buttons as u32,
            s.left_trigger == gp.left_trigger,
            s.right_trigger == gp.right_trigger,
            s.left_thumb_x == gp.thumb_lx,
            s.left_thumb_y == gp.thumb_ly,
            s.right_thumb_x == gp.thumb_rx,
            s.right_thumb_y == gp.thumb_ry,
    {
        GamepadState {
            buttons: gp.buttons as u32,
            left_trigger: gp.left_trigger,
            right_trigger: gp.right_trigger,
            left_thumb_x: gp.thumb_lx,
            left_thumb_y: gp.thumb_ly,
            right_thumb_x: gp.thumb_rx,
            right_thumb_y: gp.thumb_ry,
        }
    }

    /// The XInput report for this state, keeping the low 16 button bits.
    pub fn to_xinput(&self) -> (gp: XInputGamepad)
        ensures
            gp == report_of_state(*self),
            gp.buttons as int == self.buttons as int % 0x1_0000,
            gp.left_trigger == self.left_trigger,
            gp.right_trigger == self.right_trigger,
            gp.thumb_lx == self.left_thumb_x,
            gp.thumb_ly == self.left_thumb_y,
            gp.thumb_rx == self.right_thumb_x,
            gp.thumb_ry == self.right_thumb_y,
    {
        let b: u32 = self.buttons;
        let low: u16 = b as u16;
        assert(low == (b % 0x1_0000) as u16) by (bit_vector)
            requires
                low == b as u16,
        ;
        XInputGamepad {
            buttons: low,
            left_trigger: self.left_trigger,
            right_trigger: self.right_trigger,
            thumb_lx: self.left_thumb_x,
            thumb_ly: self.left_thumb_y,
            thumb_rx: self.right_thumb_x,
            thumb_ry: self.right_thumb_y,
        }
    }
}

/// A state read from a report carries every field of the report into its
/// same-named field, the button mask unchanged in value.
pub proof fn lemma_state_of_report_fields(gp: XInputGamepad)
    ensures
        state_of_report(gp).buttons as int == gp.buttons as int,
        state_of_report(gp).left_trigger == gp.left_trigger,
        state_of_report(gp).right_trigger == gp.right_trigger,
        state_of_report(gp).left_thumb_x == gp.thumb_lx,
        state_of_report(gp).left_thumb_y == gp.thumb_ly,
        state_of_report(gp).right_thumb_x == gp.thumb_rx,
        state_of_report(gp).right_thumb_y == gp.thumb_ry,
{
}

/// The report for a state carries every field of the state into its
/// same-named field; the buttons are the low 16 bits of the mask.
pub proof fn lemma_report_of_state_fields(s: GamepadState)
    ensures
        report_of_state(s).buttons as int == s.buttons as int % 0x1_0000,
        report_of_state(s).left_trigger == s.left_trigger,
        report_of_state(s).right_trigger == s.right_trigger,
        report_of_state(s).thumb_lx == s.left_thumb_x,
        report_of_state(s).thumb_ly == s.left_thumb_y,
        report_of_state(s).thumb_rx == s.right_thumb_x,
        report_of_state(s).thumb_ry == s.right_thumb_y,
{
}

/// The neutral state has every button released and every axis at zero.
pub proof fn lemma_neutral_state_fields()
    ensures
        neutral_state().buttons == 0,
        neutral_state().left_trigger == 0,
        neutral_state().right_trigger == 0,
        neutral_state().left_thumb_x == 0,
        neutral_state().left_thumb_y == 0,
        neutral_state().right_thumb_x == 0,
        neutral_state().right_thumb_y == 0,
{
}

/// Reading a report into a state and writing it back out gives the same
/// report: forwarding never alters what a controller sent.
pub proof fn lemma_report_round_trip(gp: XInputGamepad)
    ensures
        report_of_state(state_of_report(gp)) == gp,
{
}

/// A state survives the trip out to a report and back exactly when its
/// button mask fits in 16 bits.
pub proof fn lemma_state_round_trip(s: GamepadState)
    ensures
        state_of_report(report_of_state(s)) == s <==> s.buttons < 0x1_0000,
{
}

/// The neutral state's report is the all-zero report.
pub proof fn lemma_neutral_report()
    ensures
        report_of_state(neutral_state()) == (XInputGamepad {
            buttons: 0,
            left_trigger: 0,
            right_trigger: 0,
            thumb_lx: 0,
            thumb_ly: 0,
            thumb_rx: 0,
            thumb_ry: 0,
        }),
{
}

} // verus!
