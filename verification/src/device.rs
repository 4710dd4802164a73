//! Device selection: the selector and direction tokens, the debug switch,
//! and the sysfs path pair of each supported device.

use crate::brightness::Direction;
use crate::text::bytes_eq;
use crate::text::canon;
use crate::text::canon_bytes;
use crate::text::trim;
use crate::text::trim_bytes;
use vstd::prelude::*;

verus! {

/// The device a run adjusts. `Unsupported` stands for any selector token
/// that names neither the keyboard nor the screen.
#[derive(Clone, Copy, Debug, PartialEq, Eq, Structural)]
pub enum Device {
    Keyboard,
    Screen,
    Unsupported,
}

/// The bytes of `"keyboard"`.
pub open spec fn keyboard_token() -> Seq<u8> {
    seq![0x6bu8, 0x65u8, 0x79u8, 0x62u8, 0x6fu8, 0x61u8, 0x72u8, 0x64u8]
}

/// The bytes of `"screen"`.
pub open spec fn screen_token() -> Seq<u8> {
    seq![0x73u8, 0x63u8, 0x72u8, 0x65u8, 0x65u8, 0x6eu8]
}

/// The bytes of `"+"`.
pub open spec fn plus_token() -> Seq<u8> {
    seq![0x2bu8]
}

/// The bytes of `"true"`.
pub open spec fn true_token() -> Seq<u8> {
    seq![0x74u8, 0x72u8, 0x75u8, 0x65u8]
}

/// The device a selector token names, compared case-insensitively after
/// trimming; anything but `"keyboard"` or `"screen"` is unsupported.
pub open spec fn device_of(s: Seq<u8>) -> Device {
    if canon(s) == keyboard_token() {
        Device::Keyboard
    } else if canon(s) == screen_token() {
        Device::Screen
    } else {
        Device::Unsupported
    }
}

/// The direction a token selects: exactly `"+"` after trimming means
/// increase, and any other token means decrease.
pub open spec fn direction_of(s: Seq<u8>) -> Direction {
    if trim(s) == plus_token() {
        Direction::Increase
    } else {
        Direction::Decrease
    }
}

/// Whether a `DEBUG` environment value switches diagnostics on: its trimmed,
/// lowercased form must be `"true"`.
pub open spec fn debug_of(s: Seq<u8>) -> bool {
    canon(s) == true_token()
}

fn keyboard_bytes() -> (r: Vec<u8>)
    ensures
        r@ == keyboard_token(),
{
    let mut v: Vec<u8> = Vec::new();
    v.push(0x6b);
    v.push(0x65);
    v.push(0x79);
    v.push(0x62);
    v.push(0x6f);
    v.push(0x61);
    v.push(0x72);
    v.push(0x64);
    proof {
        assert(v@ =~= keyboard_token());
    }
    v
}

fn screen_bytes() -> (r: Vec<u8>)
    ensures
        r@ == screen_token(),
{
    let mut v: Vec<u8> = Vec::new();
    v.push(0x73);
    v.push(0x63);
    v.push(0x72);
    v.push(0x65);
    v.push(0x65);
    v.push(0x6e);
    proof {
        assert(v@ =~= screen_token());
    }
    v
}

fn true_bytes() -> (r: Vec<u8>)
    ensures
        r@ == true_token(),
{
    let mut v: Vec<u8> = Vec::new();
    v.push(0x74);
    v.push(0x72);
    v.push(0x75);
    v.push(0x65);
    proof {
        assert(v@ =~= true_token());
    }
    v
}

pub fn parse_device(token: &[u8]) -> (device: Device)
    ensures
        device == device_of(token@),
{
    let c = canon_bytes(token);
    let kbd = keyboard_bytes();
    if bytes_eq(c.as_slice(), kbd.as_slice()) {
        Device::Keyboard
    } else {
        let scr = screen_bytes();
        if bytes_eq(c.as_slice(), scr.as_slice()) {
            Device::Screen
        } else {
            Device::Unsupported
        }
    }
}

pub fn parse_direction(token: &[u8]) -> (direction: Direction)
    ensures
        direction == direction_of(token@),
{
    let t = trim_bytes(token);
    if t.len() == 1 && t[0] == 0x2b {
        proof {
            assert(t@ =~= plus_token());
        }
        Direction::Increase
    } else {
        proof {
            if t@ == plus_token() {
                assert(t@.len() == 1 && t@[0] == 0x2b);
            }
        }
        Direction::Decrease
    }
}

/// Whether the value of the `DEBUG` environment variable, handed in as
/// bytes, enables diagnostic output.
pub fn debug_enabled(value: &[u8]) -> (r: bool)
    ensures
        r == debug_of(value@),
{
    let c = canon_bytes(value);
    let t = true_bytes();
    bytes_eq(c.as_slice(), t.as_slice())
}

/// The sysfs file pair of a supported device: the path of its maximum
/// brightness first, the path of its current brightness second.
pub fn sysfs_paths(device: Device) -> (paths: (&'static str, &'static str))
    requires
        !(device is Unsupported),
    ensures
        device is Screen ==> paths.0@ == "/sys/class/backlight/intel_backlight/max_brightness"@
            && paths.1@ == "/sys/class/backlight/intel_backlight/brightness"@,
        device is Keyboard ==> paths.0@ == "/sys/class/leds/smc::kbd_backlight/max_brightness"@
            && paths.1@ == "/sys/class/leds/smc::kbd_backlight/brightness"@,
{
    match device {
        Device::Keyboard => (
            "/sys/class/leds/smc::kbd_backlight/max_brightness",
            "/sys/class/leds/smc::kbd_backlight/brightness",
        ),
        _ => (
            "/sys/class/backlight/intel_backlight/max_brightness",
            "/sys/class/backlight/intel_backlight/brightness",
        ),
    }
}

} // verus!
