//! Which Raw Input devices are gamepads, and how each becomes a
//! `PhysicalDevice`.

use vstd::prelude::*;

use crate::controller::{DeviceInfo, PhysicalDevice};

verus! {

/// Raw Input device type of a HID device (not a mouse or keyboard).
pub const RIM_TYPE_HID: u32 = 2;

/// HID usage page "Generic Desktop".
pub const HID_USAGE_PAGE_GENERIC: u16 = 0x01;

/// Generic Desktop usage "Joystick".
pub const HID_USAGE_GENERIC_JOYSTICK: u16 = 0x04;

/// Generic Desktop usage "Game Pad".
pub const HID_USAGE_GENERIC_GAMEPAD: u16 = 0x05;

/// The HID usage page and usage that a device reports.
#[derive(Debug, Clone, Copy, PartialEq, Eq, Structural)]
pub struct HidUsage {
    pub usage_page: u16,
    pub usage: u16,
}

/// What the Raw Input device list says of one device: its handle, its type,
/// its HID usage (`None` where it was not asked for or could not be read) and
/// the UTF-16 buffer that holds its device path (empty where not asked for).
#[derive(Debug, Clone, PartialEq, Eq)]
pub struct RawInputDevice {
    pub handle: u64,
    pub device_type: u32,
    pub hid_usage: Option<HidUsage>,
    pub name: Vec<u16>,
}

/// The device list itself could not be read.
#[derive(Debug, Clone, Copy, PartialEq, Eq, Structural)]
pub enum EnumerateError {
    DeviceListFailed,
}

/// The full result of lossy UTF-16 decoding (`String::from_utf16_lossy`):
/// each unpaired surrogate becomes U+FFFD.
pub uninterp spec fn utf16_lossy(units: Seq<u16>) -> Seq<char>;

/// A UTF-16 code unit outside the surrogate range encodes one character by
/// itself.
pub open spec fn is_bmp_scalar(u: u16) -> bool {
    u < 0xD800 || u >= 0xE000
}

/// Decodes UTF-16 with `String::from_utf16_lossy`.  The contract names the
/// result, and states what the UTF-16 encoding fixes: units that are no
/// surrogates decode one for one to the characters with those code points.
#[verifier::external_body]
fn decode_utf16_lossy(units: &[u16]) -> (s: String)
    ensures
        s@ == utf16_lossy(units@),
        (forall|i: int| 0 <= i < units@.len() ==> is_bmp_scalar(#[trigger] units@[i])) ==> s@
            == units@.map_values(|u: u16| u as char),
{
    String::from_utf16_lossy(units)
}

/// A HID usage of a generic joystick or gamepad.
pub open spec fn is_gamepad_usage(u: HidUsage) -> bool {
    u.usage_page == HID_USAGE_PAGE_GENERIC && (u.usage == HID_USAGE_GENERIC_JOYSTICK || u.usage
        == HID_USAGE_GENERIC_GAMEPAD)
}

/// A HID device whose usage was read and names a joystick or gamepad.
pub open spec fn is_gamepad_spec(device_type: u32, hid_usage: Option<HidUsage>) -> bool {
    device_type == RIM_TYPE_HID && match hid_usage {
        Some(u) => is_gamepad_usage(u),
        None => false,
    }
}

/// A buffer without its trailing NUL code units.
pub open spec fn trimmed(units: Seq<u16>) -> Seq<u16>
    decreases units.len(),
{
    if units.len() > 0 && units.last() == 0 {
        trimmed(units.drop_last())
    } else {
        units
    }
}

/// The device that a gamepad entry becomes: its handle, its decoded path,
/// and no player name yet.
pub open spec fn device_of(d: RawInputDevice) -> DeviceInfo {
    DeviceInfo { handle: d.handle, device_path: utf16_lossy(trimmed(d.name@)), player_name: None }
}

/// The gamepads among `entries`, in order.
pub open spec fn gamepads_of(entries: Seq<RawInputDevice>) -> Seq<DeviceInfo>
    decreases entries.len(),
{
    if entries.len() == 0 {
        Seq::empty()
    } else {
        let rest = gamepads_of(entries.drop_last());
        let d = entries.last();
        if is_gamepad_spec(d.device_type, d.hid_usage) {
            rest.push(device_of(d))
        } else {
            rest
        }
    }
}

/// Whether a Raw Input device is a generic joystick or gamepad.
pub fn is_gamepad(device_type: u32, hid_usage: Option<HidUsage>) -> (r: bool)
    ensures
        r == is_gamepad_spec(device_type, hid_usage),
        r <==> device_type == 2 && hid_usage is Some && hid_usage->0.usage_page == 1 && (
        hid_usage->0.usage == 4 || hid_usage->0.usage == 5),
{
    if device_type != RIM_TYPE_HID {
        return false;
    }
    match hid_usage {
        Some(u) => u.usage_page == HID_USAGE_PAGE_GENERIC && (u.usage == HID_USAGE_GENERIC_JOYSTICK
            || u.usage == HID_USAGE_GENERIC_GAMEPAD),
        None => false,
    }
}

/// Drops the trailing NUL terminators of a device-name buffer.
pub fn trim_nul_terminators(buf: &mut Vec<u16>)
    ensures
        final(buf)@ == trimmed(old(buf)@),
        final(buf)@.len() <= old(buf)@.len(),
        final(buf)@ == old(buf)@.take(final(buf)@.len() as int),
        final(buf)@.len() > 0 ==> final(buf)@.last() != 0,
        forall|i: int| final(buf)@.len() <= i < old(buf)@.len() ==> old(buf)@[i] == 0,
{
    proof {
        lemma_trimmed(buf@);
    }
    while buf.len() > 0 && buf[buf.len() - 1] == 0
        invariant
            trimmed(buf@) == trimmed(old(buf)@),
        decreases buf.len(),
    {
        buf.pop();
    }
}

/// The gamepads among the first `count` entries of the Raw Input device
/// list, in list order; `count == u32::MAX` is how the list query reports
/// failure.
pub fn enumerate_gamepads(count: u32, entries: &Vec<RawInputDevice>) -> (r: Result<
    Vec<PhysicalDevice>,
    EnumerateError,
>)
    requires
        count == u32::MAX || count <= entries.len(),
    ensures
        count == u32::MAX ==> r == Err::<Vec<PhysicalDevice>, EnumerateError>(
            EnumerateError::DeviceListFailed,
        ),
        count != u32::MAX ==> r is Ok && r->Ok_0@.map_values(|d: PhysicalDevice| d@)
            == gamepads_of(entries@.take(count as int)),
        count != u32::MAX ==> r is Ok && r->Ok_0@.map_values(|d: PhysicalDevice| d@)
            == entries@.take(count as int).filter(|d: RawInputDevice| is_gamepad_entry(d)).map_values(
            |d: RawInputDevice| device_of(d),
        ),
{
    if count == u32::MAX {
        return Err(EnumerateError::DeviceListFailed);
    }
    let n = count as usize;
    let mut result: Vec<PhysicalDevice> = Vec::new();
    let mut i: usize = 0;
    while i < n
        invariant
            n == count,
            n <= entries.len(),
            i <= n,
            result@.map_values(|d: PhysicalDevice| d@) == gamepads_of(entries@.take(i as int)),
        decreases n - i,
    {
        let entry = &entries[i];
        assert(entries@.take(i + 1).drop_last() =~= entries@.take(i as int));
        if is_gamepad(entry.device_type, entry.hid_usage) {
            let mut name = entry.name.clone();
            trim_nul_terminators(&mut name);
            let device_path = decode_utf16_lossy(name.as_slice());
            let ghost before = result@;
            result.push(PhysicalDevice { handle: entry.handle, device_path, player_name: None });
            assert(result@.map_values(|d: PhysicalDevice| d@) =~= before.map_values(
                |d: PhysicalDevice| d@,
            ).push(device_of(entries@[i as int])));
        } else {
            assert(result@.map_values(|d: PhysicalDevice| d@) =~= gamepads_of(
                entries@.take(i + 1),
            ));
        }
        i += 1;
    }
    proof {
        lemma_gamepads_of_filter(entries@.take(count as int));
    }
    Ok(result)
}

/// A Raw Input entry that is a gamepad.
pub open spec fn is_gamepad_entry(d: RawInputDevice) -> bool {
    is_gamepad_spec(d.device_type, d.hid_usage)
}

/// A device is a gamepad exactly when it is a HID device whose usage was
/// read and is usage 4 (joystick) or 5 (gamepad) on the generic page 1.
pub proof fn lemma_is_gamepad_spec(device_type: u32, hid_usage: Option<HidUsage>)
    ensures
        is_gamepad_spec(device_type, hid_usage) <==> device_type == 2 && hid_usage is Some
            && hid_usage->0.usage_page == 1 && (hid_usage->0.usage == 4 || hid_usage->0.usage
            == 5),
{
}

/// The gamepads of a device list are all of its gamepad entries, none
/// dropped and none added, in list order, each turned into its device.
pub proof fn lemma_gamepads_of_filter(entries: Seq<RawInputDevice>)
    ensures
        gamepads_of(entries) == entries.filter(|d: RawInputDevice| is_gamepad_entry(d)).map_values(
            |d: RawInputDevice| device_of(d),
        ),
    decreases entries.len(),
{
    let pred = |d: RawInputDevice| is_gamepad_entry(d);
    let f = |d: RawInputDevice| device_of(d);
    if entries.len() > 0 {
        let t = entries.drop_last();
        lemma_gamepads_of_filter(t);
        let sub = t.filter(pred);
        reveal(Seq::filter);
        assert(entries.filter(pred) == (if pred(entries.last()) {
            sub.push(entries.last())
        } else {
            sub
        }));
        if pred(entries.last()) {
            assert(sub.push(entries.last()).map_values(f) =~= sub.map_values(f).push(
                device_of(entries.last()),
            ));
        }
        assert(gamepads_of(entries) =~= entries.filter(pred).map_values(f));
    } else {
        reveal(Seq::filter);
        assert(entries.filter(pred).map_values(f) =~= Seq::<DeviceInfo>::empty());
    }
}

/// A gamepad entry becomes the device with its handle, its trimmed and
/// decoded path, and no player name.
pub proof fn lemma_device_of(d: RawInputDevice)
    ensures
        device_of(d).handle == d.handle,
        device_of(d).device_path == utf16_lossy(trimmed(d.name@)),
        device_of(d).player_name is None,
{
}

/// Trimming keeps a prefix of the buffer that does not end in NUL, and drops
/// only NULs.
pub proof fn lemma_trimmed(units: Seq<u16>)
    ensures
        trimmed(units).len() <= units.len(),
        trimmed(units) == units.take(trimmed(units).len() as int),
        trimmed(units).len() > 0 ==> trimmed(units).last() != 0,
        forall|i: int| trimmed(units).len() <= i < units.len() ==> units[i] == 0,
    decreases units.len(),
{
    if units.len() > 0 && units.last() == 0 {
        let t = units.drop_last();
        lemma_trimmed(t);
        assert(t.take(trimmed(t).len() as int) =~= units.take(trimmed(t).len() as int));
        assert forall|i: int| trimmed(units).len() <= i < units.len() implies units[i] == 0 by {
            if i < units.len() - 1 {
                assert(units[i] == t[i]);
            }
        }
    } else {
        assert(units.take(units.len() as int) =~= units);
    }
}

} // verus!
