//! Translation of PS/2 set-1 scancodes into ASCII bytes, with shift and caps-lock state.
use vstd::prelude::*;

verus! {

/// Which modifier keys are held or latched, and whether an extended-key prefix was just seen.
#[derive(Debug, Clone, Copy, PartialEq, Eq)]
pub struct KeyboardState {
    left_shift: bool,
    right_shift: bool,
    caps_lock: bool,
    extended: bool,
}

/// The state of the keyboard as plain flags.
pub struct KeyboardView {
    pub left_shift: bool,
    pub right_shift: bool,
    pub caps_lock: bool,
    pub extended: bool,
}

impl View for KeyboardState {
    type V = KeyboardView;

    closed spec fn view(&self) -> KeyboardView {
        KeyboardView {
            left_shift: self.left_shift,
            right_shift: self.right_shift,
            caps_lock: self.caps_lock,
            extended: self.extended,
        }
    }
}

/// The unshifted and shifted byte of a printable key, by its make code.
pub open spec fn key_bytes(code: u8) -> Option<(u8, u8)> {
    match code {
        0x02 => Some((49, 33)),  // 1 !
        0x03 => Some((50, 64)),  // 2 @
        0x04 => Some((51, 35)),  // 3 #
        0x05 => Some((52, 36)),  // 4 $
        0x06 => Some((53, 37)),  // 5 %
        0x07 => Some((54, 94)),  // 6 ^
        0x08 => Some((55, 38)),  // 7 &
        0x09 => Some((56, 42)),  // 8 *
        0x0a => Some((57, 40)),  // 9 (
        0x0b => Some((48, 41)),  // 0 )
        0x0c => Some((45, 95)),  // - _
        0x0d => Some((61, 43)),  // = +
        0x10 => Some((113, 81)),  // q Q
        0x11 => Some((119, 87)),  // w W
        0x12 => Some((101, 69)),  // e E
        0x13 => Some((114, 82)),  // r R
        0x14 => Some((116, 84)),  // t T
        0x15 => Some((121, 89)),  // y Y
        0x16 => Some((117, 85)),  // u U
        0x17 => Some((105, 73)),  // i I
        0x18 => Some((111, 79)),  // o O
        0x19 => Some((112, 80)),  // p P
        0x1a => Some((91, 123)),  // [ {
        0x1b => Some((93, 125)),  // ] }
        0x1e => Some((97, 65)),  // a A
        0x1f => Some((115, 83)),  // s S
        0x20 => Some((100, 68)),  // d D
        0x21 => Some((102, 70)),  // f F
        0x22 => Some((103, 71)),  // g G
        0x23 => Some((104, 72)),  // h H
        0x24 => Some((106, 74)),  // j J
        0x25 => Some((107, 75)),  // k K
        0x26 => Some((108, 76)),  // l L
        0x27 => Some((59, 58)),  // ; :
        0x28 => Some((39, 34)),  // ' "
        0x29 => Some((96, 126)),  // ` ~
        0x2b => Some((92, 124)),  // \ |
        0x2c => Some((122, 90)),  // z Z
        0x2d => Some((120, 88)),  // x X
        0x2e => Some((99, 67)),  // c C
        0x2f => Some((118, 86)),  // v V
        0x30 => Some((98, 66)),  // b B
        0x31 => Some((110, 78)),  // n N
        0x32 => Some((109, 77)),  // m M
        0x33 => Some((44, 60)),  // , <
        0x34 => Some((46, 62)),  // . >
        0x35 => Some((47, 63)),  // / ?
        _ => None,
    }
}

/// What one scancode does: the state after it and the byte it types, if any.
///
/// An `0xe0` prefix marks the next code as an extended key, which is dropped. Break codes
/// (bit 7 set) type nothing and release a shift key. Enter, backspace and space type CR, BS and
/// a space; shift keys and caps lock change the state. A letter is upper-case when exactly one
/// of caps lock and shift applies; other keys take their shifted byte while shift is held.
pub open spec fn translate_spec(s: KeyboardView, scancode: u8) -> (KeyboardView, Option<u8>) {
    let code = (scancode % 128) as u8;
    let shift = s.left_shift || s.right_shift;
    if scancode == 0xe0 {
        (KeyboardView { extended: true, ..s }, None)
    } else if s.extended {
        (KeyboardView { extended: false, ..s }, None)
    } else if scancode >= 0x80 {
        if code == 0x2a {
            (KeyboardView { left_shift: false, ..s }, None)
        } else if code == 0x36 {
            (KeyboardView { right_shift: false, ..s }, None)
        } else {
            (s, None)
        }
    } else if code == 0x2a {
        (KeyboardView { left_shift: true, ..s }, None)
    } else if code == 0x36 {
        (KeyboardView { right_shift: true, ..s }, None)
    } else if code == 0x3a {
        (KeyboardView { caps_lock: !s.caps_lock, ..s }, None)
    } else if code == 0x1c {
        (s, Some(13u8))
    } else if code == 0x0e {
        (s, Some(8u8))
    } else if code == 0x39 {
        (s, Some(32u8))
    } else {
        match key_bytes(code) {
            None => (s, None),
            Some((normal, shifted)) => {
                let letter = 97 <= normal <= 122;
                if letter && s.caps_lock != shift {
                    (s, Some((normal - 32) as u8))
                } else if shift {
                    (s, Some(shifted))
                } else {
                    (s, Some(normal))
                }
            },
        }
    }
}

fn key_pair(code: u8) -> (r: Option<(u8, u8)>)
    ensures
        r == key_bytes(code),
{
    match code {
        0x02 => Some((49, 33)),  // 1 !
        0x03 => Some((50, 64)),  // 2 @
        0x04 => Some((51, 35)),  // 3 #
        0x05 => Some((52, 36)),  // 4 $
        0x06 => Some((53, 37)),  // 5 %
        0x07 => Some((54, 94)),  // 6 ^
        0x08 => Some((55, 38)),  // 7 &
        0x09 => Some((56, 42)),  // 8 *
        0x0a => Some((57, 40)),  // 9 (
        0x0b => Some((48, 41)),  // 0 )
        0x0c => Some((45, 95)),  // - _
        0x0d => Some((61, 43)),  // = +
        0x10 => Some((113, 81)),  // q Q
        0x11 => Some((119, 87)),  // w W
        0x12 => Some((101, 69)),  // e E
        0x13 => Some((114, 82)),  // r R
        0x14 => Some((116, 84)),  // t T
        0x15 => Some((121, 89)),  // y Y
        0x16 => Some((117, 85)),  // u U
        0x17 => Some((105, 73)),  // i I
        0x18 => Some((111, 79)),  // o O
        0x19 => Some((112, 80)),  // p P
        0x1a => Some((91, 123)),  // [ {
        0x1b => Some((93, 125)),  // ] }
        0x1e => Some((97, 65)),  // a A
        0x1f => Some((115, 83)),  // s S
        0x20 => Some((100, 68)),  // d D
        0x21 => Some((102, 70)),  // f F
        0x22 => Some((103, 71)),  // g G
        0x23 => Some((104, 72)),  // h H
        0x24 => Some((106, 74)),  // j J
        0x25 => Some((107, 75)),  // k K
        0x26 => Some((108, 76)),  // l L
        0x27 => Some((59, 58)),  // ; :
        0x28 => Some((39, 34)),  // ' "
        0x29 => Some((96, 126)),  // ` ~
        0x2b => Some((92, 124)),  // \ |
        0x2c => Some((122, 90)),  // z Z
        0x2d => Some((120, 88)),  // x X
        0x2e => Some((99, 67)),  // c C
        0x2f => Some((118, 86)),  // v V
        0x30 => Some((98, 66)),  // b B
        0x31 => Some((110, 78)),  // n N
        0x32 => Some((109, 77)),  // m M
        0x33 => Some((44, 60)),  // , <
        0x34 => Some((46, 62)),  // . >
        0x35 => Some((47, 63)),  // / ?
        _ => None,
    }
}

impl KeyboardState {
    /// No key held, caps lock off.
    pub fn new() -> (r: Self)
        ensures
            r@ == (KeyboardView {
                left_shift: false,
                right_shift: false,
                caps_lock: false,
                extended: false,
            }),
    {
        Self { left_shift: false, right_shift: false, caps_lock: false, extended: false }
    }

    /// Feeds one scancode; gives the byte it types, if any.
    pub fn translate(&mut self, scancode: u8) -> (r: Option<u8>)
        ensures
            final(self)@ == translate_spec(old(self)@, scancode).0,
            r == translate_spec(old(self)@, scancode).1,
            scancode >= 0x80 ==> r is None,
    {
        if scancode == 0xe0 {
            self.extended = true;
            return None;
        }
        if self.extended {
            self.extended = false;
            return None;
        }
        let released = scancode & 0x80 != 0;
        let code = scancode & 0x7f;
        assert(scancode & 0x80u8 != 0 <==> scancode >= 0x80) by (bit_vector);
        assert(scancode & 0x7fu8 == scancode % 128) by (bit_vector);
        if released {
            if code == 0x2a {
                self.left_shift = false;
            } else if code == 0x36 {
                self.right_shift = false;
            }
            return None;
        }
        if code == 0x2a {
            self.left_shift = true;
            return None;
        }
        if code == 0x36 {
            self.right_shift = true;
            return None;
        }
        if code == 0x3a {
            self.caps_lock = !self.caps_lock;
            return None;
        }
        if code == 0x1c {
            return Some(13);
        }
        if code == 0x0e {
            return Some(8);
        }
        if code == 0x39 {
            return Some(32);
        }
        let (normal, shifted) = match key_pair(code) {
            None => return None,
            Some(pair) => pair,
        };
        let shift = self.left_shift || self.right_shift;
        let letter = 97 <= normal && normal <= 122;
        if letter && self.caps_lock != shift {
            Some(normal - 32)
        } else if shift {
            Some(shifted)
        } else {
            Some(normal)
        }
    }
}

impl Default for KeyboardState {
    fn default() -> (r: Self)
        ensures
            r@ == (KeyboardView {
                left_shift: false,
                right_shift: false,
                caps_lock: false,
                extended: false,
            }),
    {
        Self::new()
    }
}

/// The US keyboard's printable keys in scancode set 1, row by row: each row's make codes run
/// consecutively from its first key, and each key carries its unshifted and shifted key cap.
/// Row one is `1234567890-=` from 0x02, row two `qwertyuiop[]` from 0x10, row three
/// `asdfghjkl;'` and the backtick from 0x1e, row four the backslash and `zxcvbnm,./` from 0x2b.
pub open spec fn us_key_caps(code: u8) -> Option<(u8, u8)> {
    if 0x02 <= code <= 0x0d {
        Some(
            (
                seq![49u8, 50, 51, 52, 53, 54, 55, 56, 57, 48, 45, 61][code - 0x02],
                seq![33u8, 64, 35, 36, 37, 94, 38, 42, 40, 41, 95, 43][code - 0x02],
            ),
        )
    } else if 0x10 <= code <= 0x1b {
        Some(
            (
                seq![113u8, 119, 101, 114, 116, 121, 117, 105, 111, 112, 91, 93][code - 0x10],
                seq![81u8, 87, 69, 82, 84, 89, 85, 73, 79, 80, 123, 125][code - 0x10],
            ),
        )
    } else if 0x1e <= code <= 0x29 {
        Some(
            (
                seq![97u8, 115, 100, 102, 103, 104, 106, 107, 108, 59, 39, 96][code - 0x1e],
                seq![65u8, 83, 68, 70, 71, 72, 74, 75, 76, 58, 34, 126][code - 0x1e],
            ),
        )
    } else if 0x2b <= code <= 0x35 {
        Some(
            (
                seq![92u8, 122, 120, 99, 118, 98, 110, 109, 44, 46, 47][code - 0x2b],
                seq![124u8, 90, 88, 67, 86, 66, 78, 77, 60, 62, 63][code - 0x2b],
            ),
        )
    } else {
        None
    }
}

/// The keyboard with no modifier held and no prefix pending.
pub open spec fn idle(caps_lock: bool) -> KeyboardView {
    KeyboardView { left_shift: false, right_shift: false, caps_lock, extended: false }
}

/// The keyboard with one shift key held and caps lock off.
pub open spec fn shifted(left: bool) -> KeyboardView {
    KeyboardView { left_shift: left, right_shift: !left, caps_lock: false, extended: false }
}

/// Typing a printable key follows the US key caps: with nothing held it types the unshifted
/// cap, with either shift key held the shifted one, and with caps lock on a letter types its
/// upper-case cap and any other key its unshifted cap. The key's release types nothing. Keys
/// with no printable cap (other than enter, backspace and space) type nothing.
pub proof fn lemma_printable_keys_follow_us_layout(code: u8)
    requires
        code < 0x80,
        code != 0x1c && code != 0x0e && code != 0x39,
        code != 0x2a && code != 0x36 && code != 0x3a,
    ensures
        match us_key_caps(code) {
            Some((plain, shift)) => {
                &&& translate_spec(idle(false), code).1 == Some(plain)
                &&& translate_spec(shifted(true), code).1 == Some(shift)
                &&& translate_spec(shifted(false), code).1 == Some(shift)
                &&& translate_spec(idle(true), code).1 == Some(
                    if 97 <= plain <= 122 {
                        shift
                    } else {
                        plain
                    },
                )
                &&& translate_spec(idle(false), (code + 0x80) as u8).1 == None::<u8>
            },
            None => translate_spec(idle(false), code).1 == None::<u8>,
        },
{
    assert(((code + 0x80) as u8) % 128 == code);
    if 0x02 <= code <= 0x0d {
        assert(code == 2 || code == 3 || code == 4 || code == 5 || code == 6 || code == 7 || code
            == 8 || code == 9 || code == 10 || code == 11 || code == 12 || code == 13);
    } else if 0x10 <= code <= 0x1b {
        assert(code == 0x10 || code == 0x11 || code == 0x12 || code == 0x13 || code == 0x14 || code
            == 0x15 || code == 0x16 || code == 0x17 || code == 0x18 || code == 0x19 || code == 0x1a
            || code == 0x1b);
    } else if 0x1e <= code <= 0x29 {
        assert(code == 0x1e || code == 0x1f || code == 0x20 || code == 0x21 || code == 0x22 || code
            == 0x23 || code == 0x24 || code == 0x25 || code == 0x26 || code == 0x27 || code == 0x28
            || code == 0x29);
    } else if 0x2b <= code <= 0x35 {
        assert(code == 0x2b || code == 0x2c || code == 0x2d || code == 0x2e || code == 0x2f || code
            == 0x30 || code == 0x31 || code == 0x32 || code == 0x33 || code == 0x34 || code == 0x35);
    }
}

/// Distinct printable keys type distinct bytes when nothing is held.
pub proof fn lemma_distinct_keys_type_distinct_bytes(a: u8, b: u8)
    requires
        a < 0x80 && b < 0x80,
        a != b,
        us_key_caps(a) is Some,
        us_key_caps(b) is Some,
    ensures
        translate_spec(idle(false), a).1 != translate_spec(idle(false), b).1,
{
    lemma_printable_keys_follow_us_layout(a);
    lemma_printable_keys_follow_us_layout(b);
}

} // verus!
