use vstd::prelude::*;
use crate::module::charmap::CharMap;
use crate::module::displayserver::{release_held, first_index_of};
use crate::module::displayserver::x11::{find_keycode, find_keycode_spec};

verus! {

/// Unicode key output state of an Xorg connection: symbols bound to spare keycodes and
/// held symbols
pub struct XConnection {
    pub charmap: CharMap<u32>,
    pub held: Vec<char>,
}

impl XConnection {
    /// The symbol map is keyed uniquely.
    pub open spec fn wf(&self) -> bool {
        self.charmap.wf()
    }

    /// Nothing bound, nothing held.
    pub fn new() -> (r: XConnection)
        ensures
            r.wf(),
            r.charmap@ == Map::<char, u32>::empty(),
            r.held@ == Seq::<char>::empty(),
    {
        XConnection { charmap: CharMap::new(), held: Vec::new() }
    }

    /// Maps a symbol to a keycode, given its keysym and the keyboard mapping read from the
    /// server. Returns the keycode, if one was found, and whether the keysym must now be
    /// bound to it (an empty keycode was taken; the symbol is then remembered).
    pub fn map_sym(&mut self, c: char, rows: &Vec<Vec<u64>>, keycode_low: u32, keysym: u64) -> (r: (Option<u32>, bool))
        requires
            old(self).wf(),
            keycode_low + rows@.len() <= u32::MAX,
        ensures
            final(self).wf(),
            final(self).held@ == old(self).held@,
            ({
                let found = find_keycode_spec(rows@, keycode_low, keysym);
                &&& r.0 == found.1
                &&& r.1 == (found.0 && found.1 is Some)
                &&& final(self).charmap@ == (if r.1 {
                    old(self).charmap@.insert(c, r.0->0)
                } else {
                    old(self).charmap@
                })
            }),
    {
        let (unmapped, keycode) = find_keycode(rows, keycode_low, keysym);
        match keycode {
            Some(k) => {
                if unmapped {
                    self.charmap.insert(c, k);
                }
                (Some(k), unmapped)
            },
            None => (None, false),
        }
    }

    /// Forgets a symbol's keycode; returns the keycode to unbind, if it was bound.
    pub fn unmap_sym(&mut self, c: char) -> (r: Option<u32>)
        requires
            old(self).wf(),
        ensures
            final(self).wf(),
            r == (if old(self).charmap@.contains_key(c) {
                Some(old(self).charmap@[c])
            } else {
                None::<u32>
            }),
            final(self).charmap@ == old(self).charmap@.remove(c),
            final(self).held@ == old(self).held@,
    {
        self.charmap.remove(c)
    }

    /// The keycode of a symbol: the one it is bound to, or else the one that mapping it
    /// finds (see [`XConnection::map_sym`]), given its keysym and the keyboard mapping read
    /// from the server. The second result says whether the keysym must now be bound.
    pub fn get_sym(&mut self, c: char, rows: &Vec<Vec<u64>>, keycode_low: u32, keysym: u64) -> (r: (Option<u32>, bool))
        requires
            old(self).wf(),
            keycode_low + rows@.len() <= u32::MAX,
        ensures
            final(self).wf(),
            final(self).held@ == old(self).held@,
            old(self).charmap@.contains_key(c) ==> r == (Some(old(self).charmap@[c]), false)
                && final(self).charmap@ == old(self).charmap@,
            !old(self).charmap@.contains_key(c) ==> ({
                let found = find_keycode_spec(rows@, keycode_low, keysym);
                &&& r.0 == found.1
                &&& r.1 == (found.0 && found.1 is Some)
                &&& final(self).charmap@ == (if r.1 {
                    old(self).charmap@.insert(c, r.0->0)
                } else {
                    old(self).charmap@
                })
            }),
    {
        match self.charmap.get(c) {
            Some(k) => (Some(k), false),
            None => self.map_sym(c, rows, keycode_low, keysym),
        }
    }

    /// Records a press or release of a mapped symbol: a press is held, a release forgets
    /// the symbol's mapping (returning the keycode to unbind) and its first held entry.
    pub fn record_symbol(&mut self, c: char, press: bool) -> (r: Option<u32>)
        requires
            old(self).wf(),
        ensures
            final(self).wf(),
            press ==> r is None && final(self).charmap@ == old(self).charmap@
                && final(self).held@ == old(self).held@.push(c),
            !press ==> r == (if old(self).charmap@.contains_key(c) {
                Some(old(self).charmap@[c])
            } else {
                None::<u32>
            }) && final(self).charmap@ == old(self).charmap@.remove(c)
                && final(self).held@ == match first_index_of(old(self).held@, c) {
                    Some(i) => old(self).held@.remove(i),
                    None => old(self).held@,
                },
    {
        if press {
            self.held.push(c);
            None
        } else {
            let r = self.charmap.remove(c);
            release_held(&mut self.held, c);
            r
        }
    }
}

} // verus!
