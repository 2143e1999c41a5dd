use vstd::prelude::*;
use crate::module::charmap::CharMap;
use crate::module::displayserver::release_held;
use crate::module::displayserver::first_index_of;
use crate::text::{hex_digits, push_hex};

verus! {

/// X keysym of Return
pub const XK_RETURN: u64 = 0xFF0D;

/// X keysym of Tab
pub const XK_TAB: u64 = 0xFF09;

/// The keysym used for a character without a lookup: Return for '\n', Tab for '\t'.
pub fn special_keysym(c: char) -> (r: Option<u64>)
    ensures
        r == (if c == '\n' {
            Some(XK_RETURN)
        } else if c == '\t' {
            Some(XK_TAB)
        } else {
            None::<u64>
        }),
{
    if c == '\n' {
        Some(XK_RETURN)
    } else if c == '\t' {
        Some(XK_TAB)
    } else {
        None
    }
}

/// Keysym name of a character: `U` and its code point in lower-case hexadecimal.
pub fn keysym_name(c: char) -> (r: String)
    ensures
        r@ == seq!['U'] + hex_digits(c as nat),
{
    let mut s = String::new();
    crate::text::push_char(&mut s, 'U');
    push_hex(&mut s, c as u32 as u64);
    s
}

/// What a keycode's row of the keyboard mapping says about a keysym.
#[derive(Debug, PartialEq, Eq, Structural, Clone, Copy)]
pub enum RowState {
    /// The first symbol that is the keysym or non-zero is the keysym
    Found,
    /// The first symbol that is the keysym or non-zero is another symbol
    Taken,
    /// Every symbol is zero (and none is the keysym)
    Empty,
}

/// State of a row, looking from position `j` on.
pub open spec fn row_state_from(row: Seq<u64>, keysym: u64, j: int) -> RowState
    decreases row.len() - j,
{
    if j < 0 || j >= row.len() {
        RowState::Empty
    } else if row[j] == keysym {
        RowState::Found
    } else if row[j] != 0 {
        RowState::Taken
    } else {
        row_state_from(row, keysym, j + 1)
    }
}

/// State of a keycode's row for a keysym.
pub open spec fn row_state(row: Seq<u64>, keysym: u64) -> RowState {
    row_state_from(row, keysym, 0)
}

/// Classifies one row of the keyboard mapping.
pub fn classify_row(row: &Vec<u64>, keysym: u64) -> (r: RowState)
    ensures
        r == row_state(row@, keysym),
{
    let mut j: usize = 0;
    while j < row.len()
        invariant
            j <= row@.len(),
            row_state(row@, keysym) == row_state_from(row@, keysym, j as int),
        decreases row@.len() - j,
    {
        if row[j] == keysym {
            return RowState::Found;
        }
        if row[j] != 0 {
            return RowState::Taken;
        }
        j = j + 1;
    }
    RowState::Empty
}

/// Index of the first empty row at or after `i`.
pub open spec fn first_empty_row(rows: Seq<Vec<u64>>, keysym: u64, i: int) -> Option<int>
    decreases rows.len() - i,
{
    if i < 0 || i >= rows.len() {
        None
    } else if row_state(rows[i]@, keysym) == RowState::Empty {
        Some(i)
    } else {
        first_empty_row(rows, keysym, i + 1)
    }
}

/// Index of the last row among the first `n` whose symbol is the keysym.
pub open spec fn last_found_row(rows: Seq<Vec<u64>>, keysym: u64, n: int) -> Option<int>
    decreases n,
{
    if n <= 0 {
        None
    } else if row_state(rows[n - 1]@, keysym) == RowState::Found {
        Some(n - 1)
    } else {
        last_found_row(rows, keysym, n - 1)
    }
}

/// The keycode search result: the first empty row's keycode and `true`, or else `false`
/// and the keycode of the last row holding the keysym, if any.
pub open spec fn find_keycode_spec(rows: Seq<Vec<u64>>, keycode_low: u32, keysym: u64) -> (bool, Option<u32>) {
    match first_empty_row(rows, keysym, 0) {
        Some(i) => (true, Some((keycode_low + i) as u32)),
        None => match last_found_row(rows, keysym, rows.len() as int) {
            Some(i) => (false, Some((keycode_low + i) as u32)),
            None => (false, None),
        },
    }
}

/// Looks for a keycode for a keysym in the keyboard mapping `rows` (one row of
/// symbols per keycode, the first for `keycode_low`).
pub fn find_keycode(rows: &Vec<Vec<u64>>, keycode_low: u32, keysym: u64) -> (r: (bool, Option<u32>))
    requires
        keycode_low + rows@.len() <= u32::MAX,
    ensures
        r == find_keycode_spec(rows@, keycode_low, keysym),
{
    let mut keycode: Option<u32> = None;
    let mut i: usize = 0;
    while i < rows.len()
        invariant
            i <= rows@.len(),
            keycode_low + rows@.len() <= u32::MAX,
            first_empty_row(rows@, keysym, 0) == first_empty_row(rows@, keysym, i as int),
            keycode == match last_found_row(rows@, keysym, i as int) {
                Some(j) => Some((keycode_low + j) as u32),
                None => None::<u32>,
            },
        decreases rows@.len() - i,
    {
        let st = classify_row(&rows[i], keysym);
        let code: u32 = keycode_low + i as u32;
        match st {
            RowState::Empty => {
                return (true, Some(code));
            },
            RowState::Found => {
                keycode = Some(code);
            },
            RowState::Taken => {},
        }
        assert(last_found_row(rows@, keysym, i + 1) == if st == RowState::Found {
            Some(i as int)
        } else {
            last_found_row(rows@, keysym, i as int)
        });
        i = i + 1;
    }
    (false, keycode)
}

/// The sequences that a list of vectors holds.
pub open spec fn views_of<T>(v: Seq<Vec<T>>) -> Seq<Seq<T>> {
    v.map_values(|x: Vec<T>| x@)
}

/// Whether `v` holds `x`.
pub fn contains_keycode(v: &Vec<u32>, x: u32) -> (r: bool)
    ensures
        r == v@.contains(x),
{
    let mut i: usize = 0;
    while i < v.len()
        invariant
            i <= v@.len(),
            forall|j: int| 0 <= j < i ==> v@[j] != x,
        decreases v@.len() - i,
    {
        if v[i] == x {
            assert(v@[i as int] == x);
            return true;
        }
        i = i + 1;
    }
    false
}

/// A split of a keycode sequence into press/release rounds: in order, each round free
/// of repeats, and each round ends just before a keycode that it already holds.
pub open spec fn is_round_split(s: Seq<u32>, c: Seq<Seq<u32>>) -> bool {
    &&& c.flatten() == s
    &&& forall|k: int| 0 <= k < c.len() ==> (#[trigger] c[k]).len() > 0 && c[k].no_duplicates()
    &&& forall|k: int| 0 <= k < c.len() - 1 ==> (#[trigger] c[k]).contains(c[k + 1][0])
}

/// Splits the keycodes of a typed string into rounds of distinct keys, greedily: a
/// keycode that the current round already holds starts the next round.
pub fn keycode_rounds(keycodes: &Vec<u32>) -> (r: Vec<Vec<u32>>)
    ensures
        is_round_split(keycodes@, views_of(r@)),
{
    let mut out: Vec<Vec<u32>> = Vec::new();
    let mut queue: Vec<u32> = Vec::new();
    let mut i: usize = 0;
    while i < keycodes.len()
        invariant
            i <= keycodes@.len(),
            views_of(out@).flatten() + queue@ == keycodes@.take(i as int),
            forall|k: int| 0 <= k < out@.len() ==> (#[trigger] out@[k]@).len() > 0 && out@[k]@.no_duplicates(),
            forall|k: int| 0 <= k < out@.len() - 1 ==> (#[trigger] out@[k]@).contains(out@[k + 1]@[0]),
            queue@.no_duplicates(),
            i > 0 ==> queue@.len() > 0,
            out@.len() > 0 ==> queue@.len() > 0 && out@.last()@.contains(queue@[0]),
        decreases keycodes@.len() - i,
    {
        let k = keycodes[i];
        assert(keycodes@.take(i + 1) == keycodes@.take(i as int).push(k));
        if !contains_keycode(&queue, k) {
            queue.push(k);
        } else {
            let ghost prev = out@;
            let ghost q = queue@;
            out.push(queue);
            queue = Vec::new();
            queue.push(k);
            assert(views_of(out@) == views_of(prev).push(q));
            proof {
                views_of(prev).lemma_flatten_push(q);
            }
            assert(views_of(out@).flatten() + queue@ == keycodes@.take(i + 1));
            assert(out@.last()@ == q);
        }
        i = i + 1;
    }
    if queue.len() > 0 {
        let ghost prev = out@;
        let ghost q = queue@;
        out.push(queue);
        assert(views_of(out@) == views_of(prev).push(q));
        proof {
            views_of(prev).lemma_flatten_push(q);
        }
    } else {
        assert(queue@ == Seq::<u32>::empty());
        assert(views_of(out@).flatten() + queue@ == views_of(out@).flatten());
    }
    assert(keycodes@.take(keycodes@.len() as int) == keycodes@);
    out
}

/// The symbols of a string that are typed: every character but NUL, in order.
pub fn typed_symbols(s: &Vec<char>) -> (r: Vec<char>)
    ensures
        r@ == s@.filter(|c: char| c != '\0'),
{
    let ghost pred = |c: char| c != '\0';
    let mut out: Vec<char> = Vec::new();
    let mut i: usize = 0;
    assert(s@.take(0).filter(pred) =~= Seq::<char>::empty());
    while i < s.len()
        invariant
            i <= s@.len(),
            pred == (|c: char| c != '\0'),
            out@ == s@.take(i as int).filter(pred),
        decreases s@.len() - i,
    {
        let c = s[i];
        assert(s@.take(i + 1).drop_last() =~= s@.take(i as int));
        assert(s@.take(i + 1).last() == c);
        proof {
            reveal_with_fuel(Seq::<char>::filter, 1);
        }
        if c != '\0' {
            out.push(c);
        }
        i = i + 1;
    }
    assert(s@.take(s@.len() as int) =~= s@);
    out
}

/// Pending 1 ms delays after `elapsed_ms` milliseconds: none once more time has passed
/// than is pending, else one more than what is left.
pub open spec fn next_pending_delays(pending: int, elapsed_ms: int) -> int {
    if elapsed_ms > pending {
        0
    } else {
        pending - (elapsed_ms - 1)
    }
}

/// Key output state of an Xorg connection: the symbols bound to spare keycodes, the held
/// symbols and the pending 1 ms event delays
pub struct XConnection {
    pub charmap: CharMap<u32>,
    pub held: Vec<char>,
    pub pending_delays: i64,
}

impl XConnection {
    /// The symbol map is keyed uniquely and no delay is negative.
    pub open spec fn wf(&self) -> bool {
        self.charmap.wf() && self.pending_delays >= 0
    }

    /// No bound symbols, nothing held, no delays.
    pub fn new() -> (r: XConnection)
        ensures
            r.wf(),
            r.charmap@ == Map::<char, u32>::empty(),
            r.held@ == Seq::<char>::empty(),
            r.pending_delays == 0,
    {
        XConnection { charmap: CharMap::new(), held: Vec::new(), pending_delays: 0 }
    }

    /// Maps a symbol to a keycode, given its keysym and the keyboard mapping read from the
    /// server. Returns the keycode, if one was found, and whether the keysym must now be
    /// bound to it (an empty keycode was taken; the symbol is then remembered).
    pub fn map_sym(&mut self, c: char, rows: &Vec<Vec<u64>>, keycode_low: u32, keysym: u64) -> (r: (Option<u32>, bool))
        requires
            old(self).wf(),
            keycode_low + rows@.len() <= u32::MAX,
        ensures
            final(self).wf(),
            final(self).held@ == old(self).held@,
            final(self).pending_delays == old(self).pending_delays,
            ({
                let found = find_keycode_spec(rows@, keycode_low, keysym);
                &&& r.0 == found.1
                &&& r.1 == (found.0 && found.1 is Some)
                &&& final(self).charmap@ == (if r.1 {
                    old(self).charmap@.insert(c, r.0->0)
                } else {
                    old(self).charmap@
                })
            }),
    {
        let (unmapped, keycode) = find_keycode(rows, keycode_low, keysym);
        match keycode {
            Some(k) => {
                if unmapped {
                    self.charmap.insert(c, k);
                }
                (Some(k), unmapped)
            },
            None => (None, false),
        }
    }

    /// Forgets a symbol's keycode; returns the keycode to unbind, if it was bound.
    pub fn unmap_sym(&mut self, c: char) -> (r: Option<u32>)
        requires
            old(self).wf(),
        ensures
            final(self).wf(),
            r == (if old(self).charmap@.contains_key(c) {
                Some(old(self).charmap@[c])
            } else {
                None::<u32>
            }),
            final(self).charmap@ == old(self).charmap@.remove(c),
            final(self).held@ == old(self).held@,
            final(self).pending_delays == old(self).pending_delays,
    {
        self.charmap.remove(c)
    }

    /// The keycode of a symbol: the one it is bound to, or else the one that mapping it
    /// finds (see [`XConnection::map_sym`]), given its keysym and the keyboard mapping read
    /// from the server. The second result says whether the keysym must now be bound.
    pub fn get_sym(&mut self, c: char, rows: &Vec<Vec<u64>>, keycode_low: u32, keysym: u64) -> (r: (Option<u32>, bool))
        requires
            old(self).wf(),
            keycode_low + rows@.len() <= u32::MAX,
        ensures
            final(self).wf(),
            final(self).held@ == old(self).held@,
            final(self).pending_delays == old(self).pending_delays,
            old(self).charmap@.contains_key(c) ==> r == (Some(old(self).charmap@[c]), false)
                && final(self).charmap@ == old(self).charmap@,
            !old(self).charmap@.contains_key(c) ==> ({
                let found = find_keycode_spec(rows@, keycode_low, keysym);
                &&& r.0 == found.1
                &&& r.1 == (found.0 && found.1 is Some)
                &&& final(self).charmap@ == (if r.1 {
                    old(self).charmap@.insert(c, r.0->0)
                } else {
                    old(self).charmap@
                })
            }),
    {
        match self.charmap.get(c) {
            Some(k) => (Some(k), false),
            None => self.map_sym(c, rows, keycode_low, keysym),
        }
    }

    /// Records a press or release of a mapped symbol: a press is held, a release forgets
    /// the symbol's mapping (returning the keycode to unbind) and its first held entry.
    pub fn record_symbol(&mut self, c: char, press: bool) -> (r: Option<u32>)
        requires
            old(self).wf(),
        ensures
            final(self).wf(),
            final(self).pending_delays == old(self).pending_delays,
            press ==> r is None && final(self).charmap@ == old(self).charmap@
                && final(self).held@ == old(self).held@.push(c),
            !press ==> r == (if old(self).charmap@.contains_key(c) {
                Some(old(self).charmap@[c])
            } else {
                None::<u32>
            }) && final(self).charmap@ == old(self).charmap@.remove(c)
                && final(self).held@ == match first_index_of(old(self).held@, c) {
                    Some(i) => old(self).held@.remove(i),
                    None => old(self).held@,
                },
    {
        if press {
            self.held.push(c);
            None
        } else {
            let r = self.charmap.remove(c);
            release_held(&mut self.held, c);
            r
        }
    }

    /// Updates the pending 1 ms delays once `elapsed_ms` milliseconds have passed.
    pub fn update_pending_delays(&mut self, elapsed_ms: i64)
        requires
            old(self).wf(),
            elapsed_ms >= 0,
            elapsed_ms > 0 || old(self).pending_delays < i64::MAX,
        ensures
            final(self).wf(),
            final(self).pending_delays == next_pending_delays(old(self).pending_delays as int, elapsed_ms as int),
            final(self).charmap == old(self).charmap,
            final(self).held == old(self).held,
    {
        if elapsed_ms > self.pending_delays {
            self.pending_delays = 0;
        } else {
            self.pending_delays = self.pending_delays - (elapsed_ms - 1);
        }
    }
}

} // verus!
