//! A fixed US-QWERTY keyboard: modifiers, the console shortcut, and the
//! characters that keys type.
//!
//! Key codes are evdev codes plus the offset 8 of XKB.

use crate::text::{is_letter, letter};
use vstd::prelude::*;

verus! {

pub const KEY_ESC: u32 = 9;

pub const KEY_BACKSPACE: u32 = 22;

pub const KEY_ENTER: u32 = 36;

pub const KEY_LEFTCTRL: u32 = 37;

pub const KEY_LEFTSHIFT: u32 = 50;

pub const KEY_RIGHTSHIFT: u32 = 62;

pub const KEY_LEFTALT: u32 = 64;

pub const KEY_CAPSLOCK: u32 = 66;

pub const KEY_RIGHTCTRL: u32 = 105;

pub const KEY_RIGHTALT: u32 = 108;

/// Which modifiers are held, and whether Caps Lock is on.
#[derive(Debug, Clone, Copy, PartialEq, Eq, Structural)]
pub struct Modifiers {
    pub ctrl: bool,
    pub alt: bool,
    pub shift: bool,
    /// Toggled, not held: it flips once per press and ignores the release.
    pub caps: bool,
}

impl Default for Modifiers {
    fn default() -> (r: Modifiers)
        ensures
            r == (Modifiers { ctrl: false, alt: false, shift: false, caps: false }),
    {
        Modifiers { ctrl: false, alt: false, shift: false, caps: false }
    }
}

pub open spec fn is_ctrl_key(keycode: u32) -> bool {
    keycode == KEY_LEFTCTRL || keycode == KEY_RIGHTCTRL
}

pub open spec fn is_shift_key(keycode: u32) -> bool {
    keycode == KEY_LEFTSHIFT || keycode == KEY_RIGHTSHIFT
}

pub open spec fn is_alt_key(keycode: u32) -> bool {
    keycode == KEY_LEFTALT || keycode == KEY_RIGHTALT
}

/// The keys that only change modifiers.
pub open spec fn is_modifier_key(keycode: u32) -> bool {
    is_ctrl_key(keycode) || is_shift_key(keycode) || is_alt_key(keycode) || keycode == KEY_CAPSLOCK
}

/// The modifiers after a key went down or up.
pub open spec fn modifiers_after(m: Modifiers, keycode: u32, pressed: bool) -> Modifiers {
    Modifiers {
        ctrl: if is_ctrl_key(keycode) {
            pressed
        } else {
            m.ctrl
        },
        alt: if is_alt_key(keycode) {
            pressed
        } else {
            m.alt
        },
        shift: if is_shift_key(keycode) {
            pressed
        } else {
            m.shift
        },
        caps: if keycode == KEY_CAPSLOCK && pressed {
            !m.caps
        } else {
            m.caps
        },
    }
}

impl Modifiers {
    /// Follows a modifier key. Returns whether `keycode` was one.
    pub fn track(&mut self, keycode: u32, pressed: bool) -> (r: bool)
        ensures
            r == is_modifier_key(keycode),
            *final(self) == modifiers_after(*old(self), keycode, pressed),
    {
        if keycode == KEY_LEFTCTRL || keycode == KEY_RIGHTCTRL {
            self.ctrl = pressed;
        } else if keycode == KEY_LEFTSHIFT || keycode == KEY_RIGHTSHIFT {
            self.shift = pressed;
        } else if keycode == KEY_LEFTALT || keycode == KEY_RIGHTALT {
            self.alt = pressed;
        } else if keycode == KEY_CAPSLOCK {
            if pressed {
                self.caps = !self.caps;
            }
        } else {
            return false;
        }
        true
    }
}

/// Two presses of Caps Lock cancel each other, its release does nothing, and a
/// key that is no modifier changes no modifier.
pub proof fn law_caps_lock_toggles(m: Modifiers, keycode: u32, pressed: bool)
    ensures
        modifiers_after(modifiers_after(m, KEY_CAPSLOCK, true), KEY_CAPSLOCK, true) == m,
        modifiers_after(m, KEY_CAPSLOCK, true).caps == !m.caps,
        modifiers_after(m, KEY_CAPSLOCK, false) == m,
        !is_modifier_key(keycode) ==> modifiers_after(m, keycode, pressed) == m,
{
}

/// The console that Ctrl+Alt and a function key lead to: F1 to F10 have the
/// codes 67 to 76, F11 and F12 the codes 95 and 96.
pub open spec fn console_of(keycode: u32) -> Option<i32> {
    if 67 <= keycode && keycode <= 76 {
        Some((keycode - 66) as i32)
    } else if keycode == 95 {
        Some(11i32)
    } else if keycode == 96 {
        Some(12i32)
    } else {
        None
    }
}

/// The console that a function key leads to.
pub fn vt_switch_target(keycode: u32) -> (r: Option<i32>)
    ensures
        r == console_of(keycode),
{
    if 67 <= keycode && keycode <= 76 {
        Some((keycode - 67 + 1) as i32)
    } else if keycode == 95 {
        Some(11)
    } else if keycode == 96 {
        Some(12)
    } else {
        None
    }
}

/// What a key types without and with Shift.
pub open spec fn key_row(keycode: u32) -> Option<(char, char)> {
    match keycode {
        10u32 => Some(('1', '!')),
        11u32 => Some(('2', '@')),
        12u32 => Some(('3', '#')),
        13u32 => Some(('4', '$')),
        14u32 => Some(('5', '%')),
        15u32 => Some(('6', '^')),
        16u32 => Some(('7', '&')),
        17u32 => Some(('8', '*')),
        18u32 => Some(('9', '(')),
        19u32 => Some(('0', ')')),
        20u32 => Some(('-', '_')),
        21u32 => Some(('=', '+')),
        24u32 => Some(('q', 'Q')),
        25u32 => Some(('w', 'W')),
        26u32 => Some(('e', 'E')),
        27u32 => Some(('r', 'R')),
        28u32 => Some(('t', 'T')),
        29u32 => Some(('y', 'Y')),
        30u32 => Some(('u', 'U')),
        31u32 => Some(('i', 'I')),
        32u32 => Some(('o', 'O')),
        33u32 => Some(('p', 'P')),
        34u32 => Some(('[', '{')),
        35u32 => Some((']', '}')),
        38u32 => Some(('a', 'A')),
        39u32 => Some(('s', 'S')),
        40u32 => Some(('d', 'D')),
        41u32 => Some(('f', 'F')),
        42u32 => Some(('g', 'G')),
        43u32 => Some(('h', 'H')),
        44u32 => Some(('j', 'J')),
        45u32 => Some(('k', 'K')),
        46u32 => Some(('l', 'L')),
        47u32 => Some((';', ':')),
        48u32 => Some(('\'', '"')),
        51u32 => Some(('\\', '|')),
        52u32 => Some(('z', 'Z')),
        53u32 => Some(('x', 'X')),
        54u32 => Some(('c', 'C')),
        55u32 => Some(('v', 'V')),
        56u32 => Some(('b', 'B')),
        57u32 => Some(('n', 'N')),
        58u32 => Some(('m', 'M')),
        59u32 => Some((',', '<')),
        60u32 => Some(('.', '>')),
        61u32 => Some(('/', '?')),
        65u32 => Some((' ', ' ')),
        _ => None,
    }
}

fn find_row(keycode: u32) -> (r: Option<(char, char)>)
    ensures
        r == key_row(keycode),
{
    match keycode {
        10 => Some(('1', '!')),
        11 => Some(('2', '@')),
        12 => Some(('3', '#')),
        13 => Some(('4', '$')),
        14 => Some(('5', '%')),
        15 => Some(('6', '^')),
        16 => Some(('7', '&')),
        17 => Some(('8', '*')),
        18 => Some(('9', '(')),
        19 => Some(('0', ')')),
        20 => Some(('-', '_')),
        21 => Some(('=', '+')),
        24 => Some(('q', 'Q')),
        25 => Some(('w', 'W')),
        26 => Some(('e', 'E')),
        27 => Some(('r', 'R')),
        28 => Some(('t', 'T')),
        29 => Some(('y', 'Y')),
        30 => Some(('u', 'U')),
        31 => Some(('i', 'I')),
        32 => Some(('o', 'O')),
        33 => Some(('p', 'P')),
        34 => Some(('[', '{')),
        35 => Some((']', '}')),
        38 => Some(('a', 'A')),
        39 => Some(('s', 'S')),
        40 => Some(('d', 'D')),
        41 => Some(('f', 'F')),
        42 => Some(('g', 'G')),
        43 => Some(('h', 'H')),
        44 => Some(('j', 'J')),
        45 => Some(('k', 'K')),
        46 => Some(('l', 'L')),
        47 => Some((';', ':')),
        48 => Some(('\'', '"')),
        51 => Some(('\\', '|')),
        52 => Some(('z', 'Z')),
        53 => Some(('x', 'X')),
        54 => Some(('c', 'C')),
        55 => Some(('v', 'V')),
        56 => Some(('b', 'B')),
        57 => Some(('n', 'N')),
        58 => Some(('m', 'M')),
        59 => Some((',', '<')),
        60 => Some(('.', '>')),
        61 => Some(('/', '?')),
        65 => Some((' ', ' ')),
        _ => None,
    }
}

/// What a key types: Shift picks the second character, and Caps Lock turns
/// that round for letters only.
pub open spec fn typed_char(keycode: u32, shift: bool, caps: bool) -> Option<char> {
    match key_row(keycode) {
        None => None,
        Some((lower, upper)) => if is_letter(lower) && caps {
            Some(
                if shift {
                    lower
                } else {
                    upper
                },
            )
        } else {
            Some(
                if shift {
                    upper
                } else {
                    lower
                },
            )
        },
    }
}

/// The character that a key types.
pub fn keycode_to_char(keycode: u32, shift: bool, caps: bool) -> (r: Option<char>)
    ensures
        r == typed_char(keycode, shift, caps),
{
    match find_row(keycode) {
        None => None,
        Some((lower, upper)) => {
            let use_upper = if letter(lower) {
                shift != caps
            } else {
                shift
            };
            Some(
                if use_upper {
                    upper
                } else {
                    lower
                },
            )
        },
    }
}

/// Caps Lock has no effect on digits and symbols, and on letters the same as
/// turning Shift round.
pub proof fn law_caps_flips_letters_only(keycode: u32, shift: bool)
    ensures
        match key_row(keycode) {
            Some((lower, _)) => if is_letter(lower) {
                typed_char(keycode, shift, true) == typed_char(keycode, !shift, false)
            } else {
                typed_char(keycode, shift, true) == typed_char(keycode, shift, false)
            },
            None => typed_char(keycode, shift, true) is None,
        },
{
}

/// Every character that a key types is printable ASCII.
pub proof fn law_typed_is_printable(keycode: u32, shift: bool, caps: bool)
    ensures
        match typed_char(keycode, shift, caps) {
            Some(c) => ' ' <= c && c <= '~',
            None => true,
        },
{
}

/// No key both types a character and acts as a modifier, an editing key or a
/// console key.
pub proof fn law_typing_keys_are_separate(keycode: u32)
    ensures
        key_row(keycode) is Some ==> !is_modifier_key(keycode) && console_of(keycode) is None
            && keycode != KEY_ESC && keycode != KEY_BACKSPACE && keycode != KEY_ENTER,
{
}

/// The keys of each row type the characters of a US keyboard, from left to
/// right, and with Shift the ones above them.
pub proof fn law_us_layout(i: int)
    ensures
        0 <= i < 12 ==> typed_char((10 + i) as u32, false, false) == Some("1234567890-="@[i])
            && typed_char((10 + i) as u32, true, false) == Some("!@#$%^&*()_+"@[i]),
        0 <= i < 12 ==> typed_char((24 + i) as u32, false, false) == Some("qwertyuiop[]"@[i])
            && typed_char((24 + i) as u32, true, false) == Some("QWERTYUIOP{}"@[i]),
        0 <= i < 11 ==> typed_char((38 + i) as u32, false, false) == Some("asdfghjkl;'"@[i])
            && typed_char((38 + i) as u32, true, false) == Some("ASDFGHJKL:\""@[i]),
        0 <= i < 11 ==> typed_char((51 + i) as u32, false, false) == Some("\\zxcvbnm,./"@[i])
            && typed_char((51 + i) as u32, true, false) == Some("|ZXCVBNM<>?"@[i]),
        typed_char(65, false, false) == Some(' '),
        typed_char(65, true, false) == Some(' '),
{
    reveal_strlit("1234567890-=");
    reveal_strlit("!@#$%^&*()_+");
    reveal_strlit("qwertyuiop[]");
    reveal_strlit("QWERTYUIOP{}");
    reveal_strlit("asdfghjkl;'");
    reveal_strlit("ASDFGHJKL:\"");
    reveal_strlit("\\zxcvbnm,./");
    reveal_strlit("|ZXCVBNM<>?");
}

/// Each function key has its console: the first has the first, and so on up to
/// the twelfth; no other key has one.
pub proof fn law_function_keys(a: u32, b: u32, n: i32)
    ensures
        console_of(a) is Some ==> 1 <= console_of(a)->Some_0 <= 12,
        console_of(a) is Some && console_of(a) == console_of(b) ==> a == b,
        1 <= n <= 10 ==> console_of((66 + n) as u32) == Some(n),
        console_of(95) == Some(11i32),
        console_of(96) == Some(12i32),
{
}

/// A modifier is held from its press to its release, the left one as the right
/// one, and changes no other.
pub proof fn law_modifiers_are_held(m: Modifiers, keycode: u32, pressed: bool)
    ensures
        ({
            let n = modifiers_after(m, keycode, pressed);
            &&& keycode == 37 || keycode == 105 ==> n == (Modifiers { ctrl: pressed, ..m })
            &&& keycode == 50 || keycode == 62 ==> n == (Modifiers { shift: pressed, ..m })
            &&& keycode == 64 || keycode == 108 ==> n == (Modifiers { alt: pressed, ..m })
            &&& keycode != 37 && keycode != 105 ==> n.ctrl == m.ctrl
            &&& keycode != 50 && keycode != 62 ==> n.shift == m.shift
            &&& keycode != 64 && keycode != 108 ==> n.alt == m.alt
            &&& keycode != 66 ==> n.caps == m.caps
        }),
{
}

} // verus!
