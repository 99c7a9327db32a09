//! The scancode decoder: a small stateful translation of the keyboard's
//! raw byte stream into logical key events — either a printable character
//! or the identity of a non-printable key. A byte that completes no event
//! (a release, or the first byte of a two-byte sequence) is silently
//! absorbed.

use vstd::prelude::*;

verus! {

/// The byte that announces a two-byte scancode sequence; the event is
/// complete only when the second byte arrives.
pub const EXTENDED_PREFIX: u8 = 0xe0;

/// Press scancodes at and above this value are releases of the key with
/// the value below it.
pub const RELEASE_BIT: u8 = 0x80;

/// A complete key event: a printable character (or line break), or the
/// identity of a non-printable key as its press scancode, extended keys
/// flagged apart.
#[derive(Debug, Clone, Copy, PartialEq, Eq, Structural)]
pub enum KeyEvent {
    Char(u8),
    Raw(u8),
    RawExtended(u8),
}

/// The character a plain press scancode stands for on the basic layout:
/// letters, digits, space and the line break; `None` for every key that
/// types no character.
pub open spec fn key_char(code: u8) -> Option<u8> {
    match code {
        0x02 => Some(0x31),  // 1
        0x03 => Some(0x32),  // 2
        0x04 => Some(0x33),  // 3
        0x05 => Some(0x34),  // 4
        0x06 => Some(0x35),  // 5
        0x07 => Some(0x36),  // 6
        0x08 => Some(0x37),  // 7
        0x09 => Some(0x38),  // 8
        0x0a => Some(0x39),  // 9
        0x0b => Some(0x30),  // 0
        0x10 => Some(0x71),  // q
        0x11 => Some(0x77),  // w
        0x12 => Some(0x65),  // e
        0x13 => Some(0x72),  // r
        0x14 => Some(0x74),  // t
        0x15 => Some(0x79),  // y
        0x16 => Some(0x75),  // u
        0x17 => Some(0x69),  // i
        0x18 => Some(0x6f),  // o
        0x19 => Some(0x70),  // p
        0x1c => Some(0x0a),  // enter
        0x1e => Some(0x61),  // a
        0x1f => Some(0x73),  // s
        0x20 => Some(0x64),  // d
        0x21 => Some(0x66),  // f
        0x22 => Some(0x67),  // g
        0x23 => Some(0x68),  // h
        0x24 => Some(0x6a),  // j
        0x25 => Some(0x6b),  // k
        0x26 => Some(0x6c),  // l
        0x2c => Some(0x7a),  // z
        0x2d => Some(0x78),  // x
        0x2e => Some(0x63),  // c
        0x2f => Some(0x76),  // v
        0x30 => Some(0x62),  // b
        0x31 => Some(0x6e),  // n
        0x32 => Some(0x6d),  // m
        0x39 => Some(0x20),  // space
        _ => None,
    }
}

/// The decoder state: whether the two-byte prefix has been seen and the
/// second byte is still awaited.
pub ghost struct KeyboardView {
    pub awaiting_extended: bool,
}

/// What one incoming byte does to the decoder: the next state and the
/// completed event, if the byte completes one.
pub open spec fn spec_decode(state: KeyboardView, scancode: u8) -> (KeyboardView, Option<
    KeyEvent,
>) {
    if scancode == EXTENDED_PREFIX {
        // the first byte of a two-byte sequence: no event yet
        (KeyboardView { awaiting_extended: true }, None)
    } else if scancode >= RELEASE_BIT {
        // a release: absorbed, and it completes any pending sequence
        (KeyboardView { awaiting_extended: false }, None)
    } else if state.awaiting_extended {
        (KeyboardView { awaiting_extended: false }, Some(KeyEvent::RawExtended(scancode)))
    } else {
        match key_char(scancode) {
            Some(b) => (state, Some(KeyEvent::Char(b))),
            None => (state, Some(KeyEvent::Raw(scancode))),
        }
    }
}

/// The stateful decoder.
#[derive(Clone, Copy)]
pub struct Keyboard {
    awaiting_extended: bool,
}

impl View for Keyboard {
    type V = KeyboardView;

    closed spec fn view(&self) -> KeyboardView {
        KeyboardView { awaiting_extended: self.awaiting_extended }
    }
}

impl Keyboard {
    /// A fresh decoder, awaiting nothing.
    pub fn new() -> (k: Keyboard)
        ensures
            !k@.awaiting_extended,
    {
        Keyboard { awaiting_extended: false }
    }

    /// Feeds one raw scancode byte; returns the completed key event, or
    /// `None` when the byte completes none.
    pub fn add_byte(&mut self, scancode: u8) -> (event: Option<KeyEvent>)
        ensures
            final(self)@ == spec_decode(old(self)@, scancode).0,
            event == spec_decode(old(self)@, scancode).1,
    {
        if scancode == EXTENDED_PREFIX {
            self.awaiting_extended = true;
            None
        } else if scancode >= RELEASE_BIT {
            self.awaiting_extended = false;
            None
        } else if self.awaiting_extended {
            self.awaiting_extended = false;
            Some(KeyEvent::RawExtended(scancode))
        } else {
            match Self::char_for(scancode) {
                Some(b) => Some(KeyEvent::Char(b)),
                None => Some(KeyEvent::Raw(scancode)),
            }
        }
    }

    /// The layout lookup for a plain press scancode.
    fn char_for(code: u8) -> (r: Option<u8>)
        ensures
            r == key_char(code),
    {
        match code {
            0x02 => Some(0x31),
            0x03 => Some(0x32),
            0x04 => Some(0x33),
            0x05 => Some(0x34),
            0x06 => Some(0x35),
            0x07 => Some(0x36),
            0x08 => Some(0x37),
            0x09 => Some(0x38),
            0x0a => Some(0x39),
            0x0b => Some(0x30),
            0x10 => Some(0x71),
            0x11 => Some(0x77),
            0x12 => Some(0x65),
            0x13 => Some(0x72),
            0x14 => Some(0x74),
            0x15 => Some(0x79),
            0x16 => Some(0x75),
            0x17 => Some(0x69),
            0x18 => Some(0x6f),
            0x19 => Some(0x70),
            0x1c => Some(0x0a),
            0x1e => Some(0x61),
            0x1f => Some(0x73),
            0x20 => Some(0x64),
            0x21 => Some(0x66),
            0x22 => Some(0x67),
            0x23 => Some(0x68),
            0x24 => Some(0x6a),
            0x25 => Some(0x6b),
            0x26 => Some(0x6c),
            0x2c => Some(0x7a),
            0x2d => Some(0x78),
            0x2e => Some(0x63),
            0x2f => Some(0x76),
            0x30 => Some(0x62),
            0x31 => Some(0x6e),
            0x32 => Some(0x6d),
            0x39 => Some(0x20),
            _ => None,
        }
    }
}

/// Every character the layout types is printable or the line break, so a
/// decoded character can go to the console verbatim.
pub proof fn lemma_key_chars_console_safe(code: u8)
    ensures
        key_char(code) matches Some(b) ==> crate::vga_buffer::printable(b) || b
            == crate::vga_buffer::NEWLINE,
{
}

} // verus!
