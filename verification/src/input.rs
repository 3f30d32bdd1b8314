//! Virtual keys, keyboard modifiers and the key events that change the modifier state.

use vstd::prelude::*;

verus! {

pub const MOUSE_LEFT: u16 = 0x110;
pub const MOUSE_RIGHT: u16 = 0x111;
pub const MOUSE_MIDDLE: u16 = 0x112;

pub type KeyModifier = u8;
pub const SHIFT: KeyModifier = 0x01;
pub const CAPS_LOCK: KeyModifier = 0x02;
pub const CTRL: KeyModifier = 0x04;
pub const ALT: KeyModifier = 0x08;
pub const NUM_LOCK: KeyModifier = 0x10;
pub const SUPER: KeyModifier = 0x40;
pub const META: KeyModifier = 0x80;

/// Keys of the virtual keyboard, named after their X11 key names.
#[allow(non_camel_case_types)]
#[derive(Debug, PartialEq, Eq, Structural, Clone, Copy)]
pub enum VirtualKey {
    Escape,
    N1,
    N2,
    N3,
    N4,
    N5,
    N6,
    N7,
    N8,
    N9,
    N0,
    Minus,
    Plus,
    BackSpace,
    Tab,
    Q,
    W,
    E,
    R,
    T,
    Y,
    U,
    I,
    O,
    P,
    Oem4,
    Oem6,
    Return,
    LCtrl,
    A,
    S,
    D,
    F,
    G,
    H,
    J,
    K,
    L,
    Oem1,
    Oem7,
    Oem3,
    LShift,
    Oem5,
    Z,
    X,
    C,
    V,
    B,
    N,
    M,
    Comma,
    Period,
    Oem2,
    RShift,
    KP_Multiply,
    LAlt,
    Space,
    Caps,
    F1,
    F2,
    F3,
    F4,
    F5,
    F6,
    F7,
    F8,
    F9,
    F10,
    NumLock,
    Scroll,
    KP_7,
    KP_8,
    KP_9,
    KP_Subtract,
    KP_4,
    KP_5,
    KP_6,
    KP_Add,
    KP_1,
    KP_2,
    KP_3,
    KP_0,
    KP_Decimal,
    Oem102,
    F11,
    F12,
    AbntC1,
    Katakana,
    Hiragana,
    Henkan,
    Kana,
    Muhenkan,
    KP_Enter,
    RCtrl,
    KP_Divide,
    Print,
    Meta,
    Home,
    Up,
    Prior,
    Left,
    Right,
    End,
    Down,
    Next,
    Insert,
    Delete,
    XF86AudioMute,
    XF86AudioLowerVolume,
    XF86AudioRaiseVolume,
    Pause,
    AbntC2,
    Hangul,
    Hanja,
    LSuper,
    RSuper,
    Menu,
    Help,
    XF86MenuKB,
    XF86Sleep,
    XF86Xfer,
    XF86Launch1,
    XF86Launch2,
    XF86WWW,
    XF86Mail,
    XF86Favorites,
    XF86MyComputer,
    XF86Back,
    XF86Forward,
    XF86AudioNext,
    XF86AudioPlay,
    XF86AudioPrev,
    XF86AudioStop,
    XF86HomePage,
    XF86Reload,
    F13,
    F14,
    F15,
    F16,
    F17,
    F18,
    F19,
    F20,
    F21,
    F22,
    F23,
    F24,
    Hyper,
    XF86Launch3,
    XF86Launch4,
    XF86LaunchB,
    XF86Search,
}

/// The X11 key code of a virtual key.
pub open spec fn key_code(k: VirtualKey) -> u16 {
    match k {
        VirtualKey::Escape => 9,
        VirtualKey::N1 => 10,
        VirtualKey::N2 => 11,
        VirtualKey::N3 => 12,
        VirtualKey::N4 => 13,
        VirtualKey::N5 => 14,
        VirtualKey::N6 => 15,
        VirtualKey::N7 => 16,
        VirtualKey::N8 => 17,
        VirtualKey::N9 => 18,
        VirtualKey::N0 => 19,
        VirtualKey::Minus => 20,
        VirtualKey::Plus => 21,
        VirtualKey::BackSpace => 22,
        VirtualKey::Tab => 23,
        VirtualKey::Q => 24,
        VirtualKey::W => 25,
        VirtualKey::E => 26,
        VirtualKey::R => 27,
        VirtualKey::T => 28,
        VirtualKey::Y => 29,
        VirtualKey::U => 30,
        VirtualKey::I => 31,
        VirtualKey::O => 32,
        VirtualKey::P => 33,
        VirtualKey::Oem4 => 34,
        VirtualKey::Oem6 => 35,
        VirtualKey::Return => 36,
        VirtualKey::LCtrl => 37,
        VirtualKey::A => 38,
        VirtualKey::S => 39,
        VirtualKey::D => 40,
        VirtualKey::F => 41,
        VirtualKey::G => 42,
        VirtualKey::H => 43,
        VirtualKey::J => 44,
        VirtualKey::K => 45,
        VirtualKey::L => 46,
        VirtualKey::Oem1 => 47,
        VirtualKey::Oem7 => 48,
        VirtualKey::Oem3 => 49,
        VirtualKey::LShift => 50,
        VirtualKey::Oem5 => 51,
        VirtualKey::Z => 52,
        VirtualKey::X => 53,
        VirtualKey::C => 54,
        VirtualKey::V => 55,
        VirtualKey::B => 56,
        VirtualKey::N => 57,
        VirtualKey::M => 58,
        VirtualKey::Comma => 59,
        VirtualKey::Period => 60,
        VirtualKey::Oem2 => 61,
        VirtualKey::RShift => 62,
        VirtualKey::KP_Multiply => 63,
        VirtualKey::LAlt => 64,
        VirtualKey::Space => 65,
        VirtualKey::Caps => 66,
        VirtualKey::F1 => 67,
        VirtualKey::F2 => 68,
        VirtualKey::F3 => 69,
        VirtualKey::F4 => 70,
        VirtualKey::F5 => 71,
        VirtualKey::F6 => 72,
        VirtualKey::F7 => 73,
        VirtualKey::F8 => 74,
        VirtualKey::F9 => 75,
        VirtualKey::F10 => 76,
        VirtualKey::NumLock => 77,
        VirtualKey::Scroll => 78,
        VirtualKey::KP_7 => 79,
        VirtualKey::KP_8 => 80,
        VirtualKey::KP_9 => 81,
        VirtualKey::KP_Subtract => 82,
        VirtualKey::KP_4 => 83,
        VirtualKey::KP_5 => 84,
        VirtualKey::KP_6 => 85,
        VirtualKey::KP_Add => 86,
        VirtualKey::KP_1 => 87,
        VirtualKey::KP_2 => 88,
        VirtualKey::KP_3 => 89,
        VirtualKey::KP_0 => 90,
        VirtualKey::KP_Decimal => 91,
        VirtualKey::Oem102 => 94,
        VirtualKey::F11 => 95,
        VirtualKey::F12 => 96,
        VirtualKey::AbntC1 => 97,
        VirtualKey::Katakana => 98,
        VirtualKey::Hiragana => 99,
        VirtualKey::Henkan => 100,
        VirtualKey::Kana => 101,
        VirtualKey::Muhenkan => 102,
        VirtualKey::KP_Enter => 104,
        VirtualKey::RCtrl => 105,
        VirtualKey::KP_Divide => 106,
        VirtualKey::Print => 107,
        VirtualKey::Meta => 108,
        VirtualKey::Home => 110,
        VirtualKey::Up => 111,
        VirtualKey::Prior => 112,
        VirtualKey::Left => 113,
        VirtualKey::Right => 114,
        VirtualKey::End => 115,
        VirtualKey::Down => 116,
        VirtualKey::Next => 117,
        VirtualKey::Insert => 118,
        VirtualKey::Delete => 119,
        VirtualKey::XF86AudioMute => 121,
        VirtualKey::XF86AudioLowerVolume => 122,
        VirtualKey::XF86AudioRaiseVolume => 123,
        VirtualKey::Pause => 127,
        VirtualKey::AbntC2 => 129,
        VirtualKey::Hangul => 130,
        VirtualKey::Hanja => 131,
        VirtualKey::LSuper => 133,
        VirtualKey::RSuper => 134,
        VirtualKey::Menu => 135,
        VirtualKey::Help => 146,
        VirtualKey::XF86MenuKB => 147,
        VirtualKey::XF86Sleep => 150,
        VirtualKey::XF86Xfer => 155,
        VirtualKey::XF86Launch1 => 156,
        VirtualKey::XF86Launch2 => 157,
        VirtualKey::XF86WWW => 158,
        VirtualKey::XF86Mail => 163,
        VirtualKey::XF86Favorites => 164,
        VirtualKey::XF86MyComputer => 165,
        VirtualKey::XF86Back => 166,
        VirtualKey::XF86Forward => 167,
        VirtualKey::XF86AudioNext => 171,
        VirtualKey::XF86AudioPlay => 172,
        VirtualKey::XF86AudioPrev => 173,
        VirtualKey::XF86AudioStop => 174,
        VirtualKey::XF86HomePage => 180,
        VirtualKey::XF86Reload => 181,
        VirtualKey::F13 => 191,
        VirtualKey::F14 => 192,
        VirtualKey::F15 => 193,
        VirtualKey::F16 => 194,
        VirtualKey::F17 => 195,
        VirtualKey::F18 => 196,
        VirtualKey::F19 => 197,
        VirtualKey::F20 => 198,
        VirtualKey::F21 => 199,
        VirtualKey::F22 => 200,
        VirtualKey::F23 => 201,
        VirtualKey::F24 => 202,
        VirtualKey::Hyper => 207,
        VirtualKey::XF86Launch3 => 208,
        VirtualKey::XF86Launch4 => 209,
        VirtualKey::XF86LaunchB => 210,
        VirtualKey::XF86Search => 225,
    }
}

impl VirtualKey {
    /// The X11 key code (evdev code plus 8).
    pub fn code(self) -> (c: u16)
        ensures
            c == key_code(self),
    {
        match self {
        VirtualKey::Escape => 9,
        VirtualKey::N1 => 10,
        VirtualKey::N2 => 11,
        VirtualKey::N3 => 12,
        VirtualKey::N4 => 13,
        VirtualKey::N5 => 14,
        VirtualKey::N6 => 15,
        VirtualKey::N7 => 16,
        VirtualKey::N8 => 17,
        VirtualKey::N9 => 18,
        VirtualKey::N0 => 19,
        VirtualKey::Minus => 20,
        VirtualKey::Plus => 21,
        VirtualKey::BackSpace => 22,
        VirtualKey::Tab => 23,
        VirtualKey::Q => 24,
        VirtualKey::W => 25,
        VirtualKey::E => 26,
        VirtualKey::R => 27,
        VirtualKey::T => 28,
        VirtualKey::Y => 29,
        VirtualKey::U => 30,
        VirtualKey::I => 31,
        VirtualKey::O => 32,
        VirtualKey::P => 33,
        VirtualKey::Oem4 => 34,
        VirtualKey::Oem6 => 35,
        VirtualKey::Return => 36,
        VirtualKey::LCtrl => 37,
        VirtualKey::A => 38,
        VirtualKey::S => 39,
        VirtualKey::D => 40,
        VirtualKey::F => 41,
        VirtualKey::G => 42,
        VirtualKey::H => 43,
        VirtualKey::J => 44,
        VirtualKey::K => 45,
        VirtualKey::L => 46,
        VirtualKey::Oem1 => 47,
        VirtualKey::Oem7 => 48,
        VirtualKey::Oem3 => 49,
        VirtualKey::LShift => 50,
        VirtualKey::Oem5 => 51,
        VirtualKey::Z => 52,
        VirtualKey::X => 53,
        VirtualKey::C => 54,
        VirtualKey::V => 55,
        VirtualKey::B => 56,
        VirtualKey::N => 57,
        VirtualKey::M => 58,
        VirtualKey::Comma => 59,
        VirtualKey::Period => 60,
        VirtualKey::Oem2 => 61,
        VirtualKey::RShift => 62,
        VirtualKey::KP_Multiply => 63,
        VirtualKey::LAlt => 64,
        VirtualKey::Space => 65,
        VirtualKey::Caps => 66,
        VirtualKey::F1 => 67,
        VirtualKey::F2 => 68,
        VirtualKey::F3 => 69,
        VirtualKey::F4 => 70,
        VirtualKey::F5 => 71,
        VirtualKey::F6 => 72,
        VirtualKey::F7 => 73,
        VirtualKey::F8 => 74,
        VirtualKey::F9 => 75,
        VirtualKey::F10 => 76,
        VirtualKey::NumLock => 77,
        VirtualKey::Scroll => 78,
        VirtualKey::KP_7 => 79,
        VirtualKey::KP_8 => 80,
        VirtualKey::KP_9 => 81,
        VirtualKey::KP_Subtract => 82,
        VirtualKey::KP_4 => 83,
        VirtualKey::KP_5 => 84,
        VirtualKey::KP_6 => 85,
        VirtualKey::KP_Add => 86,
        VirtualKey::KP_1 => 87,
        VirtualKey::KP_2 => 88,
        VirtualKey::KP_3 => 89,
        VirtualKey::KP_0 => 90,
        VirtualKey::KP_Decimal => 91,
        VirtualKey::Oem102 => 94,
        VirtualKey::F11 => 95,
        VirtualKey::F12 => 96,
        VirtualKey::AbntC1 => 97,
        VirtualKey::Katakana => 98,
        VirtualKey::Hiragana => 99,
        VirtualKey::Henkan => 100,
        VirtualKey::Kana => 101,
        VirtualKey::Muhenkan => 102,
        VirtualKey::KP_Enter => 104,
        VirtualKey::RCtrl => 105,
        VirtualKey::KP_Divide => 106,
        VirtualKey::Print => 107,
        VirtualKey::Meta => 108,
        VirtualKey::Home => 110,
        VirtualKey::Up => 111,
        VirtualKey::Prior => 112,
        VirtualKey::Left => 113,
        VirtualKey::Right => 114,
        VirtualKey::End => 115,
        VirtualKey::Down => 116,
        VirtualKey::Next => 117,
        VirtualKey::Insert => 118,
        VirtualKey::Delete => 119,
        VirtualKey::XF86AudioMute => 121,
        VirtualKey::XF86AudioLowerVolume => 122,
        VirtualKey::XF86AudioRaiseVolume => 123,
        VirtualKey::Pause => 127,
        VirtualKey::AbntC2 => 129,
        VirtualKey::Hangul => 130,
        VirtualKey::Hanja => 131,
        VirtualKey::LSuper => 133,
        VirtualKey::RSuper => 134,
        VirtualKey::Menu => 135,
        VirtualKey::Help => 146,
        VirtualKey::XF86MenuKB => 147,
        VirtualKey::XF86Sleep => 150,
        VirtualKey::XF86Xfer => 155,
        VirtualKey::XF86Launch1 => 156,
        VirtualKey::XF86Launch2 => 157,
        VirtualKey::XF86WWW => 158,
        VirtualKey::XF86Mail => 163,
        VirtualKey::XF86Favorites => 164,
        VirtualKey::XF86MyComputer => 165,
        VirtualKey::XF86Back => 166,
        VirtualKey::XF86Forward => 167,
        VirtualKey::XF86AudioNext => 171,
        VirtualKey::XF86AudioPlay => 172,
        VirtualKey::XF86AudioPrev => 173,
        VirtualKey::XF86AudioStop => 174,
        VirtualKey::XF86HomePage => 180,
        VirtualKey::XF86Reload => 181,
        VirtualKey::F13 => 191,
        VirtualKey::F14 => 192,
        VirtualKey::F15 => 193,
        VirtualKey::F16 => 194,
        VirtualKey::F17 => 195,
        VirtualKey::F18 => 196,
        VirtualKey::F19 => 197,
        VirtualKey::F20 => 198,
        VirtualKey::F21 => 199,
        VirtualKey::F22 => 200,
        VirtualKey::F23 => 201,
        VirtualKey::F24 => 202,
        VirtualKey::Hyper => 207,
        VirtualKey::XF86Launch3 => 208,
        VirtualKey::XF86Launch4 => 209,
        VirtualKey::XF86LaunchB => 210,
        VirtualKey::XF86Search => 225,
        }
    }
}

/// The modifier a key sets, if it is a modifier key.
pub open spec fn spec_key_modifier(k: VirtualKey) -> Option<KeyModifier> {
    match k {
        VirtualKey::LShift => Some(SHIFT),
        VirtualKey::RShift => Some(SHIFT),
        VirtualKey::Caps => Some(CAPS_LOCK),
        VirtualKey::LCtrl => Some(CTRL),
        VirtualKey::RCtrl => Some(CTRL),
        VirtualKey::LAlt => Some(ALT),
        VirtualKey::NumLock => Some(NUM_LOCK),
        VirtualKey::LSuper => Some(SUPER),
        VirtualKey::RSuper => Some(SUPER),
        VirtualKey::Meta => Some(META),
        _ => None,
    }
}

/// The keys that produce a modifier, preferred key first; empty for bits that
/// are no modifier.
pub open spec fn spec_modifier_keys(m: KeyModifier) -> Seq<VirtualKey> {
    if m == SHIFT {
        seq![VirtualKey::LShift, VirtualKey::RShift]
    } else if m == CAPS_LOCK {
        seq![VirtualKey::Caps]
    } else if m == CTRL {
        seq![VirtualKey::LCtrl, VirtualKey::RCtrl]
    } else if m == ALT {
        seq![VirtualKey::LAlt]
    } else if m == NUM_LOCK {
        seq![VirtualKey::NumLock]
    } else if m == SUPER {
        seq![VirtualKey::LSuper, VirtualKey::RSuper]
    } else if m == META {
        seq![VirtualKey::Meta]
    } else {
        seq![]
    }
}

/// The modifier a key sets (the key-to-modifier table).
pub fn keys_to_mods(k: VirtualKey) -> (m: Option<KeyModifier>)
    ensures
        m == spec_key_modifier(k),
{
    match k {
        VirtualKey::LShift => Some(SHIFT),
        VirtualKey::RShift => Some(SHIFT),
        VirtualKey::Caps => Some(CAPS_LOCK),
        VirtualKey::LCtrl => Some(CTRL),
        VirtualKey::RCtrl => Some(CTRL),
        VirtualKey::LAlt => Some(ALT),
        VirtualKey::NumLock => Some(NUM_LOCK),
        VirtualKey::LSuper => Some(SUPER),
        VirtualKey::RSuper => Some(SUPER),
        VirtualKey::Meta => Some(META),
        _ => None,
    }
}

/// The keys of a modifier (the modifier-to-keys table), `None` for no modifier.
pub fn mods_to_keys(m: KeyModifier) -> (r: Option<Vec<VirtualKey>>)
    ensures
        match r {
            Some(v) => v@ == spec_modifier_keys(m) && v@.len() > 0,
            None => spec_modifier_keys(m).len() == 0,
        },
{
    if m == SHIFT {
        Some(vec![VirtualKey::LShift, VirtualKey::RShift])
    } else if m == CAPS_LOCK {
        Some(vec![VirtualKey::Caps])
    } else if m == CTRL {
        Some(vec![VirtualKey::LCtrl, VirtualKey::RCtrl])
    } else if m == ALT {
        Some(vec![VirtualKey::LAlt])
    } else if m == NUM_LOCK {
        Some(vec![VirtualKey::NumLock])
    } else if m == SUPER {
        Some(vec![VirtualKey::LSuper, VirtualKey::RSuper])
    } else if m == META {
        Some(vec![VirtualKey::Meta])
    } else {
        None
    }
}

/// The two tables agree: a modifier key is one of its modifier's keys, and the
/// preferred key of each modifier sets that modifier.
pub proof fn law_modifier_tables_agree(k: VirtualKey, m: KeyModifier)
    ensures
        spec_key_modifier(k) == Some(m) ==> spec_modifier_keys(m).contains(k),
        spec_modifier_keys(m).len() > 0 ==> spec_key_modifier(spec_modifier_keys(m)[0]) == Some(m),
{
    if spec_key_modifier(k) == Some(m) {
        let ks = spec_modifier_keys(m);
        if k == VirtualKey::RShift || k == VirtualKey::RCtrl || k == VirtualKey::RSuper {
            assert(ks[1] == k);
        } else {
            assert(ks[0] == k);
        }
    }
}

/// 2 to the power `i`, for a bit of a byte.
pub open spec fn bit_value(i: nat) -> int {
    if i == 0 { 1 } else if i == 1 { 2 } else if i == 2 { 4 } else if i == 3 { 8 }
    else if i == 4 { 16 } else if i == 5 { 32 } else if i == 6 { 64 } else { 128 }
}

/// Whether bit `i` of `x` is set.
pub open spec fn has_bit(x: u8, i: nat) -> bool {
    (x as int / bit_value(i)) % 2 == 1
}

fn bit_mask(i: u32) -> (m: u8)
    requires
        i < 8,
    ensures
        m == bit_value(i as nat),
{
    if i == 0 { 1 } else if i == 1 { 2 } else if i == 2 { 4 } else if i == 3 { 8 }
    else if i == 4 { 16 } else if i == 5 { 32 } else if i == 6 { 64 } else { 128 }
}

/// The key events (X11 key code, pressed) that move the modifier state from `cur`
/// to `new`, looking at bits below `n`: for each changed bit, lowest first, the
/// modifier's preferred key goes down or up as the new bit says; bits that are
/// no modifier are skipped.
pub open spec fn modifier_events(cur: u8, new: u8, n: nat) -> Seq<(u16, bool)>
    decreases n,
{
    if n == 0 {
        seq![]
    } else {
        let i = (n - 1) as nat;
        let earlier = modifier_events(cur, new, i);
        let keys = spec_modifier_keys(bit_value(i) as u8);
        if has_bit(cur, i) != has_bit(new, i) && keys.len() > 0 {
            earlier.push((key_code(keys[0]), has_bit(new, i)))
        } else {
            earlier
        }
    }
}

/// Key events that bring the modifiers from `cur` to `new`, over the bits below `n`.
/// `n` is 7 for the uinput device, which leaves the meta bit alone, and 8 for the
/// compositor.
pub fn modifier_key_events(cur: u8, new: u8, n: u32) -> (r: Vec<(u16, bool)>)
    requires
        n <= 8,
    ensures
        r@ == modifier_events(cur, new, n as nat),
{
    let mut out: Vec<(u16, bool)> = Vec::new();
    let mut i: u32 = 0;
    while i < n
        invariant
            i <= n <= 8,
            out@ == modifier_events(cur, new, i as nat),
        decreases n - i,
    {
        let m = bit_mask(i);
        let was = (cur / m) % 2 == 1;
        let now = (new / m) % 2 == 1;
        if was != now {
            match mods_to_keys(m) {
                Some(keys) => {
                    out.push((keys[0].code(), now));
                },
                None => {},
            }
        }
        i = i + 1;
    }
    out
}

/// Every event sent is for a modifier bit that changed, and presses exactly when
/// the bit is now set.
pub proof fn law_modifier_events_only_changed_bits(cur: u8, new: u8, n: nat, k: int)
    requires
        n <= 8,
        0 <= k < modifier_events(cur, new, n).len(),
    ensures
        exists|i: nat| i < n && has_bit(cur, i) != has_bit(new, i)
            && spec_modifier_keys(bit_value(i) as u8).len() > 0
            && modifier_events(cur, new, n)[k] == (key_code(spec_modifier_keys(bit_value(i) as u8)[0]), has_bit(new, i)),
    decreases n,
{
    let i = (n - 1) as nat;
    let earlier = modifier_events(cur, new, i);
    if k < earlier.len() {
        law_modifier_events_only_changed_bits(cur, new, i, k);
        let j = choose|j: nat| j < i && has_bit(cur, j) != has_bit(new, j)
            && spec_modifier_keys(bit_value(j) as u8).len() > 0
            && earlier[k] == (key_code(spec_modifier_keys(bit_value(j) as u8)[0]), has_bit(new, j));
        assert(modifier_events(cur, new, n)[k] == earlier[k]);
    }
}

/// Setting the same modifiers again sends no key events.
pub proof fn law_unchanged_modifiers_send_nothing(m: u8, n: nat)
    requires
        n <= 8,
    ensures
        modifier_events(m, m, n).len() == 0,
    decreases n,
{
    if n > 0 {
        law_unchanged_modifiers_send_nothing(m, (n - 1) as nat);
    }
}

/// The evdev code the uinput device receives for an X11 key code.
pub fn evdev_code(key: u16) -> (c: u16)
    requires
        key >= 8,
    ensures
        c == key - 8,
{
    key - 8
}

/// An input device that sends nothing, for when uinput is not available.
pub struct DummyProvider;

/// The state of the uinput keyboard-mouse device that decides which events to send.
pub struct UInputState {
    pub mouse_moved: bool,
    pub cur_modifiers: u8,
}

impl UInputState {
    pub fn new() -> (s: UInputState)
        ensures
            !s.mouse_moved,
            s.cur_modifiers == 0,
    {
        UInputState { mouse_moved: false, cur_modifiers: 0 }
    }

    /// Whether a mouse move may be sent now: only the first one of each frame is.
    pub fn mouse_move(&mut self) -> (send: bool)
        ensures
            send == !old(self).mouse_moved,
            final(self).mouse_moved,
            final(self).cur_modifiers == old(self).cur_modifiers,
    {
        if self.mouse_moved {
            return false;
        }
        self.mouse_moved = true;
        true
    }

    pub fn on_new_frame(&mut self)
        ensures
            !final(self).mouse_moved,
            final(self).cur_modifiers == old(self).cur_modifiers,
    {
        self.mouse_moved = false;
    }

    /// The key events (evdev code, pressed) that bring the device's modifiers to
    /// `modifiers`. The device handles the seven lower bits; the unassigned bit
    /// 0x20 must not change.
    pub fn set_modifiers(&mut self, modifiers: u8) -> (r: Vec<(u16, bool)>)
        requires
            has_bit(old(self).cur_modifiers, 5) == has_bit(modifiers, 5),
        ensures
            final(self).cur_modifiers == modifiers,
            final(self).mouse_moved == old(self).mouse_moved,
            r@.len() == modifier_events(old(self).cur_modifiers, modifiers, 7).len(),
            forall|i: int| 0 <= i < r@.len() ==> (#[trigger] r@[i]).0 + 8 == modifier_events(old(self).cur_modifiers, modifiers, 7)[i].0
                && r@[i].1 == modifier_events(old(self).cur_modifiers, modifiers, 7)[i].1,
    {
        let events = modifier_key_events(self.cur_modifiers, modifiers, 7);
        let mut out: Vec<(u16, bool)> = Vec::new();
        let mut i: usize = 0;
        while i < events.len()
            invariant
                i <= events@.len(),
                events@ == modifier_events(old(self).cur_modifiers, modifiers, 7),
                out@.len() == i,
                forall|j: int| 0 <= j < i ==> (#[trigger] out@[j]).0 + 8 == events@[j].0 && out@[j].1 == events@[j].1,
            decreases events@.len() - i,
        {
            proof {
                lemma_modifier_event_codes(old(self).cur_modifiers, modifiers, 7, i as int);
            }
            let (code, down) = events[i];
            out.push((evdev_code(code), down));
            i = i + 1;
        }
        self.cur_modifiers = modifiers;
        out
    }
}

proof fn lemma_modifier_event_codes(cur: u8, new: u8, n: nat, k: int)
    requires
        n <= 8,
        0 <= k < modifier_events(cur, new, n).len(),
    ensures
        modifier_events(cur, new, n)[k].0 >= 8,
{
    law_modifier_events_only_changed_bits(cur, new, n, k);
}

} // verus!
