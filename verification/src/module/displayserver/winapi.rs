use vstd::prelude::*;
use crate::module::charmap::CharMap;
use crate::module::displayserver::{release_held, first_index_of};

verus! {

/// Key event flag: the scan code is a UTF-16 unit
pub const KEYEVENTF_UNICODE: u32 = 0x0004;

/// Key event flag: the key is released
pub const KEYEVENTF_KEYUP: u32 = 0x0002;

/// One keyboard input event: flags, virtual-key code and scan code
#[derive(Debug, Clone, Copy, PartialEq, Eq, Structural)]
pub struct KeyboardEvent {
    pub flags: u32,
    pub vk: u16,
    pub scan: u16,
}

/// The UTF-16 code units of a character: one unit below 0x10000, else a high and a low
/// surrogate.
pub open spec fn utf16_units(c: char) -> Seq<u16> {
    let v = c as u32 as int;
    if v < 0x10000 {
        seq![v as u16]
    } else {
        let w = v - 0x10000;
        seq![(0xD800 + w / 0x400) as u16, (0xDC00 + w % 0x400) as u16]
    }
}

/// Flags of a unicode key event: key down, or key up.
pub open spec fn unicode_flags(state: bool) -> u32 {
    if state {
        KEYEVENTF_UNICODE
    } else {
        KEYEVENTF_UNICODE | KEYEVENTF_KEYUP
    }
}

/// Encodes a character as UTF-16 code units.
pub fn encode_utf16(c: char) -> (r: Vec<u16>)
    ensures
        r@ == utf16_units(c),
{
    let v: u32 = c as u32;
    let mut r: Vec<u16> = Vec::new();
    if v < 0x10000 {
        r.push(v as u16);
    } else {
        let w: u32 = v - 0x10000;
        assert(w < 0x100000) by {
            assert(v <= 0x10FFFF);
        }
        r.push((0xD800 + w / 0x400) as u16);
        r.push((0xDC00 + w % 0x400) as u16);
    }
    assert(r@ == utf16_units(c));
    r
}

/// Keyboard delay in milliseconds for the registry level `level` (0 to 3: 250 ms to 1 s).
pub fn keyboard_delay_ms(level: u64) -> (r: u64)
    requires
        250 + level * 250 <= u64::MAX,
    ensures
        r == 250 + level * 250,
{
    250 + level * 250
}

/// Delay between repeated characters in microseconds for the registry speed level
/// `level` (0 to 31: 2 to 30 characters per second).
pub fn keyboard_speed_us(level: u64) -> (r: u64)
    requires
        level * 28 <= u64::MAX,
    ensures
        r == 1_000_000int / (2 + level * 28 / 31),
{
    let cps: u64 = 2 + level * 28 / 31;
    1_000_000 / cps
}

/// Unicode output state on Windows: bound symbols and held symbols
pub struct DisplayConnection {
    pub charmap: CharMap<u32>,
    pub held: Vec<char>,
}

impl DisplayConnection {
    /// Nothing bound, nothing held.
    pub fn new() -> (r: DisplayConnection)
        ensures
            r.charmap.wf(),
            r.charmap@ == Map::<char, u32>::empty(),
            r.held@ == Seq::<char>::empty(),
    {
        DisplayConnection { charmap: CharMap::new(), held: Vec::new() }
    }

    /// The input events that press (or release) a character: one unicode event per
    /// UTF-16 unit, surrogates in order.
    pub fn press_key(&self, c: char, state: bool) -> (r: Vec<KeyboardEvent>)
        ensures
            r@.len() == utf16_units(c).len(),
            forall|i: int| 0 <= i < r@.len() ==> #[trigger] r@[i] == (KeyboardEvent {
                flags: unicode_flags(state),
                vk: 0,
                scan: utf16_units(c)[i],
            }),
    {
        let flags: u32 = if state {
            KEYEVENTF_UNICODE
        } else {
            KEYEVENTF_UNICODE | KEYEVENTF_KEYUP
        };
        let units = encode_utf16(c);
        let mut r: Vec<KeyboardEvent> = Vec::new();
        let mut i: usize = 0;
        while i < units.len()
            invariant
                i <= units@.len(),
                units@ == utf16_units(c),
                flags == unicode_flags(state),
                r@.len() == i,
                forall|j: int| 0 <= j < i ==> #[trigger] r@[j] == (KeyboardEvent {
                    flags: unicode_flags(state),
                    vk: 0,
                    scan: utf16_units(c)[j],
                }),
            decreases units@.len() - i,
        {
            r.push(KeyboardEvent { flags, vk: 0, scan: units[i] });
            i = i + 1;
        }
        r
    }

    /// Records a press (held) or a release (its first held entry is dropped).
    pub fn record_symbol(&mut self, c: char, press: bool)
        ensures
            final(self).charmap == old(self).charmap,
            press ==> final(self).held@ == old(self).held@.push(c),
            !press ==> final(self).held@ == match first_index_of(old(self).held@, c) {
                Some(i) => old(self).held@.remove(i),
                None => old(self).held@,
            },
    {
        if press {
            self.held.push(c);
        } else {
            release_held(&mut self.held, c);
        }
    }
}

} // verus!
