use vstd::prelude::*;
use std::collections::VecDeque;
use crate::module::charmap::{CharMap, map_of, unique_chars};
use crate::module::displayserver::DisplayOutputError;
use crate::text::{dec_digits, upper_hex_digits, push_char, push_dec, push_upper_hex};

verus! {

/// Lowest keycode that the virtual keyboard can use
pub const MIN_KEYCODE: u32 = 8;

/// Highest keycode that the virtual keyboard can use
pub const MAX_KEYCODE: u32 = 255;

/// A symbol's keysym, the keycode allocated to it and how many users hold it
#[derive(Debug, Clone, Copy, PartialEq, Eq, Structural)]
pub struct Key {
    pub keysym: u32,
    pub keycode: u32,
    pub refcount: u32,
}

/// Display form of a key: `keysym:{keysym} keycode:{keycode} refcount:{refcount}`.
pub open spec fn key_text(k: Key) -> Seq<char> {
    "keysym:"@ + dec_digits(k.keysym as nat) + " keycode:"@ + dec_digits(k.keycode as nat) + " refcount:"@
        + dec_digits(k.refcount as nat)
}

impl Key {
    /// Display form of the key (see [`key_text`]).
    pub fn to_string(&self) -> (r: String)
        ensures
            r@ == key_text(*self),
    {
        let mut s = String::from_str("keysym:");
        push_dec(&mut s, self.keysym as u64);
        s.append(" keycode:");
        push_dec(&mut s, self.keycode as u64);
        s.append(" refcount:");
        push_dec(&mut s, self.refcount as u64);
        assert(s@ =~= key_text(*self));
        s
    }
}

/// Every keycode from 8 to 255 is either unused (listed once) or allocated to exactly
/// one symbol, which has at least one user.
pub open spec fn keycodes_conserved(m: Map<char, Key>, unused: Seq<u32>) -> bool {
    &&& forall|c: char| #[trigger] m.contains_key(c) ==> 1 <= m[c].refcount && MIN_KEYCODE <= m[c].keycode <= MAX_KEYCODE
        && !unused.contains(m[c].keycode)
    &&& forall|c: char, d: char| #[trigger] m.contains_key(c) && #[trigger] m.contains_key(d) && c != d ==> m[c].keycode != m[d].keycode
    &&& unused.no_duplicates()
    &&& forall|i: int| 0 <= i < unused.len() ==> MIN_KEYCODE <= #[trigger] unused[i] <= MAX_KEYCODE
    &&& forall|k: u32| MIN_KEYCODE <= k <= MAX_KEYCODE ==> #[trigger] unused.contains(k) || exists|c: char| #[trigger] m.contains_key(c) && m[c].keycode == k
}

/// The symbol map and unused keycodes after adding symbols, the keycodes handed out, whether
/// a new keycode was allocated, and the symbol for which no keycode was left, if any.
pub struct KeymapChange {
    pub m: Map<char, Key>,
    pub unused: Seq<u32>,
    pub codes: Seq<u32>,
    pub regen: bool,
    pub failed: Option<char>,
}

/// Adding the first `n` symbols one by one: a known symbol gains a user; a new one takes
/// the first unused keycode; with none left the addition stops at that symbol.
pub open spec fn add_fold(m: Map<char, Key>, unused: Seq<u32>, chars: Seq<char>, keysyms: Seq<u32>, n: int) -> KeymapChange
    decreases n,
{
    if n <= 0 {
        KeymapChange { m, unused, codes: Seq::empty(), regen: false, failed: None }
    } else {
        let p = add_fold(m, unused, chars, keysyms, n - 1);
        let c = chars[n - 1];
        if p.failed is Some {
            p
        } else if p.m.contains_key(c) {
            let k = p.m[c];
            KeymapChange {
                m: p.m.insert(c, Key { keysym: k.keysym, keycode: k.keycode, refcount: (k.refcount + 1) as u32 }),
                unused: p.unused,
                codes: p.codes.push(k.keycode),
                regen: p.regen,
                failed: None,
            }
        } else if p.unused.len() == 0 {
            KeymapChange { m: p.m, unused: p.unused, codes: p.codes, regen: p.regen, failed: Some(c) }
        } else {
            KeymapChange {
                m: p.m.insert(c, Key { keysym: keysyms[n - 1], keycode: p.unused[0], refcount: 1 }),
                unused: p.unused.drop_first(),
                codes: p.codes.push(p.unused[0]),
                regen: true,
                failed: None,
            }
        }
    }
}

/// Removing the first `n` symbols one by one: a known symbol loses a user, and when none
/// is left its keycode goes to the back of the unused keycodes. Gives the symbol map, the
/// unused keycodes and whether a keycode was released.
pub open spec fn remove_fold(m: Map<char, Key>, unused: Seq<u32>, chars: Seq<char>, n: int) -> (Map<char, Key>, Seq<u32>, bool)
    decreases n,
{
    if n <= 0 {
        (m, unused, false)
    } else {
        let p = remove_fold(m, unused, chars, n - 1);
        let c = chars[n - 1];
        if p.0.contains_key(c) {
            let k = p.0[c];
            if k.refcount == 1 {
                (p.0.remove(c), p.1.push(k.keycode), true)
            } else {
                (p.0.insert(c, Key { keysym: k.keysym, keycode: k.keycode, refcount: (k.refcount - 1) as u32 }), p.1, p.2)
            }
        } else {
            p
        }
    }
}

/// Position of the first symbol without a keysym at or after `i`.
pub open spec fn first_missing(keysyms: Seq<Option<u32>>, i: int) -> Option<int>
    decreases keysyms.len() - i,
{
    if i < 0 || i >= keysyms.len() {
        None
    } else if keysyms[i] is None {
        Some(i)
    } else {
        first_missing(keysyms, i + 1)
    }
}

/// The keysyms, where all are known.
pub open spec fn known_keysyms(keysyms: Seq<Option<u32>>) -> Seq<u32> {
    keysyms.map_values(|o: Option<u32>| match o {
        Some(v) => v,
        None => 0,
    })
}

proof fn lemma_gain_user(m: Map<char, Key>, unused: Seq<u32>, c: char)
    requires
        keycodes_conserved(m, unused),
        m.contains_key(c),
        m[c].refcount < u32::MAX,
    ensures
        keycodes_conserved(m.insert(c, Key { keysym: m[c].keysym, keycode: m[c].keycode, refcount: (m[c].refcount + 1) as u32 }), unused),
{
    let m2 = m.insert(c, Key { keysym: m[c].keysym, keycode: m[c].keycode, refcount: (m[c].refcount + 1) as u32 });
    assert forall|d: char| #[trigger] m2.contains_key(d) implies m.contains_key(d) && m2[d].keycode == m[d].keycode by {}
    assert forall|k: u32| MIN_KEYCODE <= k <= MAX_KEYCODE implies #[trigger] unused.contains(k) || exists|d: char| #[trigger] m2.contains_key(d) && m2[d].keycode == k by {
        if !unused.contains(k) {
            let d = choose|d: char| #[trigger] m.contains_key(d) && m[d].keycode == k;
            assert(m2.contains_key(d) && m2[d].keycode == k);
        }
    }
}

proof fn lemma_lose_user(m: Map<char, Key>, unused: Seq<u32>, c: char)
    requires
        keycodes_conserved(m, unused),
        m.contains_key(c),
        m[c].refcount > 1,
    ensures
        keycodes_conserved(m.insert(c, Key { keysym: m[c].keysym, keycode: m[c].keycode, refcount: (m[c].refcount - 1) as u32 }), unused),
{
    let m2 = m.insert(c, Key { keysym: m[c].keysym, keycode: m[c].keycode, refcount: (m[c].refcount - 1) as u32 });
    assert forall|d: char| #[trigger] m2.contains_key(d) implies m.contains_key(d) && m2[d].keycode == m[d].keycode by {}
    assert forall|k: u32| MIN_KEYCODE <= k <= MAX_KEYCODE implies #[trigger] unused.contains(k) || exists|d: char| #[trigger] m2.contains_key(d) && m2[d].keycode == k by {
        if !unused.contains(k) {
            let d = choose|d: char| #[trigger] m.contains_key(d) && m[d].keycode == k;
            assert(m2.contains_key(d) && m2[d].keycode == k);
        }
    }
}

proof fn lemma_allocate(m: Map<char, Key>, unused: Seq<u32>, c: char, keysym: u32)
    requires
        keycodes_conserved(m, unused),
        !m.contains_key(c),
        unused.len() > 0,
    ensures
        keycodes_conserved(m.insert(c, Key { keysym, keycode: unused[0], refcount: 1 }), unused.drop_first()),
{
    let k0 = unused[0];
    let m2 = m.insert(c, Key { keysym, keycode: k0, refcount: 1 });
    let u2 = unused.drop_first();
    assert forall|x: u32| #[trigger] u2.contains(x) implies unused.contains(x) && x != k0 by {
        let i = choose|i: int| 0 <= i < u2.len() && u2[i] == x;
        assert(unused[i + 1] == x);
    }
    assert forall|d: char| #[trigger] m2.contains_key(d) implies 1 <= m2[d].refcount && MIN_KEYCODE <= m2[d].keycode <= MAX_KEYCODE
        && !u2.contains(m2[d].keycode) by {
        if d == c {
            assert(unused[0] == k0);
        }
    }
    assert forall|d: char, e: char| #[trigger] m2.contains_key(d) && #[trigger] m2.contains_key(e) && d != e implies m2[d].keycode != m2[e].keycode by {
        if d == c {
            assert(unused.contains(k0));
            assert(m.contains_key(e));
        } else if e == c {
            assert(unused.contains(k0));
            assert(m.contains_key(d));
        }
    }
    assert forall|i: int| 0 <= i < u2.len() implies MIN_KEYCODE <= #[trigger] u2[i] <= MAX_KEYCODE by {
        assert(u2[i] == unused[i + 1]);
    }
    assert forall|k: u32| MIN_KEYCODE <= k <= MAX_KEYCODE implies #[trigger] u2.contains(k) || exists|d: char| #[trigger] m2.contains_key(d) && m2[d].keycode == k by {
        if unused.contains(k) {
            if k == k0 {
                assert(m2.contains_key(c) && m2[c].keycode == k);
            } else {
                let i = choose|i: int| 0 <= i < unused.len() && unused[i] == k;
                assert(i != 0);
                assert(u2[i - 1] == k);
            }
        } else {
            let d = choose|d: char| #[trigger] m.contains_key(d) && m[d].keycode == k;
            assert(m2.contains_key(d) && m2[d].keycode == k);
        }
    }
}

proof fn lemma_release(m: Map<char, Key>, unused: Seq<u32>, c: char)
    requires
        keycodes_conserved(m, unused),
        m.contains_key(c),
    ensures
        keycodes_conserved(m.remove(c), unused.push(m[c].keycode)),
{
    let k0 = m[c].keycode;
    let m2 = m.remove(c);
    let u2 = unused.push(k0);
    assert forall|x: u32| #[trigger] u2.contains(x) implies unused.contains(x) || x == k0 by {
        let i = choose|i: int| 0 <= i < u2.len() && u2[i] == x;
        if i < unused.len() {
            assert(unused[i] == x);
        }
    }
    assert forall|d: char| #[trigger] m2.contains_key(d) implies 1 <= m2[d].refcount && MIN_KEYCODE <= m2[d].keycode <= MAX_KEYCODE
        && !u2.contains(m2[d].keycode) by {
        assert(m.contains_key(d) && d != c);
    }
    assert forall|i: int, j: int| 0 <= i < u2.len() && 0 <= j < u2.len() && i != j implies u2[i] != u2[j] by {
        if i == unused.len() {
            assert(unused.contains(u2[j]) || j == unused.len());
        } else if j == unused.len() {
            assert(unused.contains(u2[i]));
        }
    }
    assert forall|i: int| 0 <= i < u2.len() implies MIN_KEYCODE <= #[trigger] u2[i] <= MAX_KEYCODE by {
        if i < unused.len() {
            assert(u2[i] == unused[i]);
        }
    }
    assert forall|k: u32| MIN_KEYCODE <= k <= MAX_KEYCODE implies #[trigger] u2.contains(k) || exists|d: char| #[trigger] m2.contains_key(d) && m2[d].keycode == k by {
        if k == k0 {
            assert(u2[unused.len() as int] == k);
        } else if unused.contains(k) {
            let i = choose|i: int| 0 <= i < unused.len() && unused[i] == k;
            assert(u2[i] == k);
        } else {
            let d = choose|d: char| #[trigger] m.contains_key(d) && m[d].keycode == k;
            assert(d != c);
            assert(m2.contains_key(d) && m2[d].keycode == k);
        }
    }
}

proof fn lemma_add_fold_stops(m: Map<char, Key>, unused: Seq<u32>, chars: Seq<char>, keysyms: Seq<u32>, i: int, n: int)
    requires
        0 <= i <= n,
        add_fold(m, unused, chars, keysyms, i).failed is Some,
    ensures
        add_fold(m, unused, chars, keysyms, n) == add_fold(m, unused, chars, keysyms, i),
    decreases n - i,
{
    if n > i {
        lemma_add_fold_stops(m, unused, chars, keysyms, i, n - 1);
    }
}

/// Start of a keymap, up to its keycode lines.
pub open spec fn keymap_head() -> Seq<char> {
    "xkb_keymap {\n\n        xkb_keycodes \"hidio\" {\n            minimum = 8;\n            maximum = 255;\n"@
}

/// Between the keycode lines and the symbol lines of a keymap.
pub open spec fn keymap_middle() -> Seq<char> {
    "\n            indicator 1 = \"Caps Lock\"; // Needed for Xwayland\n        };\n\n        xkb_symbols \"hidio\" {\n"@
}

/// End of a keymap, after its symbol lines.
pub open spec fn keymap_foot() -> Seq<char> {
    "\n        };\n\n        xkb_types \"hidio\" {\n            virtual_modifiers HidIo; // No modifiers, needed by Xorg.\n\n            // These names are needed for Xwayland.\n            type \"ONE_LEVEL\" {\n                modifiers= none;\n                level_name[Level1]= \"Any\";\n            };\n            type \"TWO_LEVEL\" {\n                level_name[Level1]= \"Base\";\n            };\n            type \"ALPHABETIC\" {\n                level_name[Level1]= \"Base\";\n            };\n            type \"KEYPAD\" {\n                level_name[Level1]= \"Base\";\n            };\n            type \"SHIFT+ALT\" {\n                level_name[Level1]= \"Base\";\n            };\n\n        };\n\n        xkb_compatibility \"hidio\" {\n            // Needed for Xwayland.\n            interpret Any+AnyOf(all) {\n                action= SetMods(modifiers=modMapMods,clearLocks);\n            };\n        };\n    };\n"@
}

/// The keycode line of a symbol: `<I{keycode}> = {keycode}; // {symbol}`.
pub open spec fn keycode_line(c: char, k: Key) -> Seq<char> {
    "\n            <I"@ + dec_digits(k.keycode as nat) + "> = "@ + dec_digits(k.keycode as nat) + "; // "@ + seq![c]
}

/// The symbol line of a symbol: Return and Tab by name, others as `U` and the upper-case
/// hexadecimal of the keysym's low 21 bits.
pub open spec fn symbol_line(c: char, k: Key) -> Seq<char> {
    "\n            key <I"@ + dec_digits(k.keycode as nat) + if c == '\n' {
        "> { [ Return ] }; // \\n"@
    } else if c == '\t' {
        "> { [ Tab ] }; // \\t"@
    } else {
        "> { [ U"@ + upper_hex_digits((k.keysym & 0x1F_FFFF) as nat) + " ] }; // "@ + seq![c]
    }
}

/// The keycode lines of the first `n` entries.
pub open spec fn keycode_lines(e: Seq<(char, Key)>, n: int) -> Seq<char>
    decreases n,
{
    if n <= 0 {
        Seq::empty()
    } else {
        keycode_lines(e, n - 1) + keycode_line(e[n - 1].0, e[n - 1].1)
    }
}

/// The symbol lines of the first `n` entries.
pub open spec fn symbol_lines(e: Seq<(char, Key)>, n: int) -> Seq<char>
    decreases n,
{
    if n <= 0 {
        Seq::empty()
    } else {
        symbol_lines(e, n - 1) + symbol_line(e[n - 1].0, e[n - 1].1)
    }
}

/// The single-level XKB keymap of the symbols, in entry order.
pub open spec fn keymap_text(e: Seq<(char, Key)>) -> Seq<char> {
    keymap_head() + keycode_lines(e, e.len() as int) + keymap_middle() + symbol_lines(e, e.len() as int) + keymap_foot()
}

/// Occurrences of `c` among the first `n` symbols.
pub open spec fn occurrences(s: Seq<char>, n: int, c: char) -> int
    decreases n,
{
    if n <= 0 {
        0
    } else {
        occurrences(s, n - 1, c) + if s[n - 1] == c {
            1int
        } else {
            0
        }
    }
}

proof fn lemma_occurrences_bound(s: Seq<char>, n: int, c: char)
    requires
        n >= 0,
    ensures
        0 <= occurrences(s, n, c) <= n,
    decreases n,
{
    if n > 0 {
        lemma_occurrences_bound(s, n - 1, c);
    }
}

/// Users of a symbol before an addition (none for an unknown symbol).
pub open spec fn users(m: Map<char, Key>, c: char) -> int {
    if m.contains_key(c) {
        m[c].refcount as int
    } else {
        0
    }
}

proof fn lemma_add_fold_counts(m: Map<char, Key>, unused: Seq<u32>, chars: Seq<char>, keysyms: Seq<u32>, n: int)
    requires
        0 <= n <= chars.len(),
        n <= u32::MAX,
        add_fold(m, unused, chars, keysyms, n).failed is None,
        forall|c: char| #[trigger] m.contains_key(c) ==> m[c].refcount + n <= u32::MAX,
    ensures
        ({
            let o = add_fold(m, unused, chars, keysyms, n);
            &&& forall|c: char| #[trigger] o.m.contains_key(c) <==> (m.contains_key(c) || occurrences(chars, n, c) > 0)
            &&& forall|c: char| #[trigger] o.m.contains_key(c) ==> o.m[c].refcount == users(m, c) + occurrences(chars, n, c)
            &&& forall|c: char| #[trigger] m.contains_key(c) ==> o.m[c].keycode == m[c].keycode && o.m[c].keysym == m[c].keysym
            &&& o.codes.len() == n
            &&& forall|i: int| 0 <= i < n ==> o.m.contains_key(#[trigger] chars[i]) && o.m[chars[i]].keycode == o.codes[i]
        }),
    decreases n,
{
    if n > 0 {
        if add_fold(m, unused, chars, keysyms, n - 1).failed is Some {
            lemma_add_fold_stops(m, unused, chars, keysyms, n - 1, n);
        }
        lemma_add_fold_counts(m, unused, chars, keysyms, n - 1);
        let p = add_fold(m, unused, chars, keysyms, n - 1);
        let o = add_fold(m, unused, chars, keysyms, n);
        let c0 = chars[n - 1];
        lemma_occurrences_bound(chars, n - 1, c0);
        assert forall|c: char| #[trigger] o.m.contains_key(c) <==> (m.contains_key(c) || occurrences(chars, n, c) > 0) by {
            lemma_occurrences_bound(chars, n - 1, c);
        }
        assert forall|c: char| #[trigger] o.m.contains_key(c) implies o.m[c].refcount == users(m, c) + occurrences(chars, n, c) by {
            lemma_occurrences_bound(chars, n - 1, c);
        }
        assert forall|i: int| 0 <= i < n implies o.m.contains_key(#[trigger] chars[i]) && o.m[chars[i]].keycode == o.codes[i] by {
            if i < n - 1 {
                assert(p.m.contains_key(chars[i]) && p.m[chars[i]].keycode == p.codes[i]);
            }
        }
    }
}

proof fn lemma_remove_fold_counts(m: Map<char, Key>, unused: Seq<u32>, chars: Seq<char>, n: int)
    requires
        0 <= n <= chars.len(),
        forall|c: char| #[trigger] m.contains_key(c) ==> m[c].refcount >= 1,
    ensures
        ({
            let p = remove_fold(m, unused, chars, n).0;
            &&& forall|c: char| #[trigger] p.contains_key(c) <==> (m.contains_key(c) && m[c].refcount > occurrences(chars, n, c))
            &&& forall|c: char| #[trigger] p.contains_key(c) ==> p[c] == (Key {
                keysym: m[c].keysym,
                keycode: m[c].keycode,
                refcount: (m[c].refcount - occurrences(chars, n, c)) as u32,
            })
        }),
    decreases n,
{
    if n > 0 {
        lemma_remove_fold_counts(m, unused, chars, n - 1);
        let p = remove_fold(m, unused, chars, n - 1).0;
        let q = remove_fold(m, unused, chars, n).0;
        let c0 = chars[n - 1];
        assert forall|c: char| #[trigger] q.contains_key(c) <==> (m.contains_key(c) && m[c].refcount > occurrences(chars, n, c)) by {
            lemma_occurrences_bound(chars, n - 1, c);
        }
        assert forall|c: char| #[trigger] q.contains_key(c) implies q[c] == (Key {
            keysym: m[c].keysym,
            keycode: m[c].keycode,
            refcount: (m[c].refcount - occurrences(chars, n, c)) as u32,
        }) by {
            lemma_occurrences_bound(chars, n - 1, c);
            assert(p.contains_key(c));
            if c == c0 {
                assert(p[c].refcount > 1);
                assert(q[c].refcount == p[c].refcount - 1);
            } else {
                assert(q[c] == p[c]);
            }
        }
    }
}

/// Removing the symbols of a successful addition gives the symbol map back as it was:
/// every symbol has its keysym, keycode and users of before, and the symbols that the
/// addition brought are gone again.
pub proof fn lemma_remove_undoes_add(m: Map<char, Key>, unused: Seq<u32>, chars: Seq<char>, keysyms: Seq<u32>)
    requires
        keycodes_conserved(m, unused),
        chars.len() <= u32::MAX,
        forall|c: char| #[trigger] m.contains_key(c) ==> m[c].refcount + chars.len() <= u32::MAX,
        add_fold(m, unused, chars, keysyms, chars.len() as int).failed is None,
    ensures
        ({
            let o = add_fold(m, unused, chars, keysyms, chars.len() as int);
            remove_fold(o.m, o.unused, chars, chars.len() as int).0 == m
        }),
{
    let n = chars.len() as int;
    lemma_add_fold_counts(m, unused, chars, keysyms, n);
    let o = add_fold(m, unused, chars, keysyms, n);
    assert forall|c: char| #[trigger] o.m.contains_key(c) implies o.m[c].refcount >= 1 by {
        lemma_occurrences_bound(chars, n, c);
    }
    lemma_remove_fold_counts(o.m, o.unused, chars, n);
    let p = remove_fold(o.m, o.unused, chars, n).0;
    assert forall|c: char| #[trigger] p.contains_key(c) <==> m.contains_key(c) by {
        lemma_occurrences_bound(chars, n, c);
    }
    assert forall|c: char| #[trigger] p.contains_key(c) implies p[c] == m[c] by {
        lemma_occurrences_bound(chars, n, c);
    }
    assert(p =~= m);
}

/// How to type a string on the virtual keyboard: the layout to apply before typing (when
/// it changed), the keycodes to press and release in order (as key events number them),
/// and the layout to apply afterwards (when it changed)
pub struct KeymapTyping {
    pub layout_before: Option<String>,
    pub keycodes: Vec<u32>,
    pub layout_after: Option<String>,
}

/// Keycode allocation state of the virtual keyboard: symbols with their keycodes and
/// users, and the unused keycodes in the order they will be handed out
pub struct Keymap {
    pub automatic_layout_regen: bool,
    pub keysym_lookup: CharMap<Key>,
    pub unused_keycodes: VecDeque<u32>,
}

impl Keymap {
    /// The symbol map is keyed uniquely and the keycodes are conserved.
    pub open spec fn wf(&self) -> bool {
        self.keysym_lookup.wf() && keycodes_conserved(self.keysym_lookup@, self.unused_keycodes@)
    }

    /// No symbols; keycodes 8 to 255 all unused, lowest first.
    pub fn new(automatic_layout_regen: bool) -> (r: Keymap)
        ensures
            r.wf(),
            r.automatic_layout_regen == automatic_layout_regen,
            r.keysym_lookup@ == Map::<char, Key>::empty(),
            r.unused_keycodes@.len() == 248,
            forall|i: int| 0 <= i < 248 ==> #[trigger] r.unused_keycodes@[i] == MIN_KEYCODE + i,
    {
        let mut unused_keycodes: VecDeque<u32> = VecDeque::new();
        let mut n: u32 = MIN_KEYCODE;
        while n <= MAX_KEYCODE
            invariant
                MIN_KEYCODE <= n <= MAX_KEYCODE + 1,
                unused_keycodes@.len() == n - MIN_KEYCODE,
                forall|i: int| 0 <= i < unused_keycodes@.len() ==> #[trigger] unused_keycodes@[i] == MIN_KEYCODE + i,
            decreases MAX_KEYCODE + 1 - n,
        {
            unused_keycodes.push_back(n);
            n = n + 1;
        }
        let r = Keymap { automatic_layout_regen, keysym_lookup: CharMap::new(), unused_keycodes };
        let ghost u = r.unused_keycodes@;
        assert forall|k: u32| MIN_KEYCODE <= k <= MAX_KEYCODE implies #[trigger] u.contains(k) by {
            assert(u[k - MIN_KEYCODE] == k);
        }
        r
    }

    /// The key of a symbol, if it has one.
    pub fn get(&self, c: char) -> (r: Option<Key>)
        requires
            self.wf(),
        ensures
            r == (if self.keysym_lookup@.contains_key(c) {
                Some(self.keysym_lookup@[c])
            } else {
                None::<Key>
            }),
    {
        self.keysym_lookup.get(c)
    }

    /// The keycode of a symbol as sent in key events (8 below its allocated keycode), or
    /// `NoKeycode` when the symbol has none.
    pub fn event_keycode(&self, c: char) -> (r: Result<u32, DisplayOutputError>)
        requires
            self.wf(),
        ensures
            self.keysym_lookup@.contains_key(c) ==> r == Ok::<u32, DisplayOutputError>((self.keysym_lookup@[c].keycode - 8) as u32),
            !self.keysym_lookup@.contains_key(c) ==> r matches Err(DisplayOutputError::NoKeycode),
    {
        match self.keysym_lookup.get(c) {
            Some(key) => Ok(key.keycode - 8),
            None => Err(DisplayOutputError::NoKeycode),
        }
    }

    /// Generates the single-level XKB keymap of the mapped symbols (see [`keymap_text`]).
    pub fn generate_keymap_string(&self) -> (r: Result<String, DisplayOutputError>)
        ensures
            r matches Ok(s) && s@ == keymap_text(self.keysym_lookup.entries@),
    {
        let ghost e = self.keysym_lookup.entries@;
        let mut s = String::new();
        s.append("xkb_keymap {\n\n        xkb_keycodes \"hidio\" {\n            minimum = 8;\n            maximum = 255;\n");
        let mut i: usize = 0;
        while i < self.keysym_lookup.entries.len()
            invariant
                i <= e.len(),
                e == self.keysym_lookup.entries@,
                s@ == keymap_head() + keycode_lines(e, i as int),
            decreases e.len() - i,
        {
            let (c, k) = self.keysym_lookup.entries[i];
            let ghost before = s@;
            s.append("\n            <I");
            push_dec(&mut s, k.keycode as u64);
            s.append("> = ");
            push_dec(&mut s, k.keycode as u64);
            s.append("; // ");
            push_char(&mut s, c);
            assert(s@ =~= before + keycode_line(c, k));
            i = i + 1;
        }
        s.append("\n            indicator 1 = \"Caps Lock\"; // Needed for Xwayland\n        };\n\n        xkb_symbols \"hidio\" {\n");
        let ghost with_codes = s@;
        i = 0;
        while i < self.keysym_lookup.entries.len()
            invariant
                i <= e.len(),
                e == self.keysym_lookup.entries@,
                s@ == with_codes + symbol_lines(e, i as int),
            decreases e.len() - i,
        {
            let (c, k) = self.keysym_lookup.entries[i];
            let ghost before = s@;
            s.append("\n            key <I");
            push_dec(&mut s, k.keycode as u64);
            if c == '\n' {
                s.append("> { [ Return ] }; // \\n");
            } else if c == '\t' {
                s.append("> { [ Tab ] }; // \\t");
            } else {
                s.append("> { [ U");
                push_upper_hex(&mut s, (k.keysym & 0x1F_FFFF) as u64);
                s.append(" ] }; // ");
                push_char(&mut s, c);
            }
            assert(s@ =~= before + symbol_line(c, k));
            i = i + 1;
        }
        s.append("\n        };\n\n        xkb_types \"hidio\" {\n            virtual_modifiers HidIo; // No modifiers, needed by Xorg.\n\n            // These names are needed for Xwayland.\n            type \"ONE_LEVEL\" {\n                modifiers= none;\n                level_name[Level1]= \"Any\";\n            };\n            type \"TWO_LEVEL\" {\n                level_name[Level1]= \"Base\";\n            };\n            type \"ALPHABETIC\" {\n                level_name[Level1]= \"Base\";\n            };\n            type \"KEYPAD\" {\n                level_name[Level1]= \"Base\";\n            };\n            type \"SHIFT+ALT\" {\n                level_name[Level1]= \"Base\";\n            };\n\n        };\n\n        xkb_compatibility \"hidio\" {\n            // Needed for Xwayland.\n            interpret Any+AnyOf(all) {\n                action= SetMods(modifiers=modMapMods,clearLocks);\n            };\n        };\n    };\n");
        assert(s@ =~= keymap_text(e));
        Ok(s)
    }

    /// Adds symbols, given the keysym found for each (`None` where the lookup failed).
    /// Returns their keycodes, one per symbol, and whether the layout must now be
    /// regenerated and applied (a keycode was allocated and regeneration is automatic).
    /// A known symbol gains a user; a new one takes the first unused keycode. If any symbol
    /// has no keysym or no keycode is left for it, nothing changes and that symbol is
    /// reported.
    pub fn add(&mut self, chars: &Vec<char>, keysyms: &Vec<Option<u32>>) -> (r: Result<(Vec<u32>, bool), DisplayOutputError>)
        requires
            old(self).wf(),
            chars@.len() == keysyms@.len(),
            chars@.len() <= u32::MAX,
            forall|c: char| #[trigger] old(self).keysym_lookup@.contains_key(c) ==> old(self).keysym_lookup@[c].refcount + chars@.len() <= u32::MAX,
        ensures
            final(self).wf(),
            final(self).automatic_layout_regen == old(self).automatic_layout_regen,
            match first_missing(keysyms@, 0) {
                Some(i) => r matches Err(DisplayOutputError::AllocationFailed(x)) && x == chars@[i]
                    && final(self).keysym_lookup@ == old(self).keysym_lookup@
                    && final(self).unused_keycodes@ == old(self).unused_keycodes@,
                None => {
                    let o = add_fold(old(self).keysym_lookup@, old(self).unused_keycodes@, chars@, known_keysyms(keysyms@), chars@.len() as int);
                    match o.failed {
                        Some(c) => r matches Err(DisplayOutputError::AllocationFailed(x)) && x == c
                            && final(self).keysym_lookup@ == old(self).keysym_lookup@
                            && final(self).unused_keycodes@ == old(self).unused_keycodes@,
                        None => r matches Ok((codes, regen)) && codes@ == o.codes
                            && regen == (o.regen && old(self).automatic_layout_regen)
                            && final(self).keysym_lookup@ == o.m
                            && final(self).unused_keycodes@ == o.unused,
                    }
                },
            },
            r matches Ok((codes, _)) ==> codes@.len() == chars@.len() && forall|i: int| 0 <= i < chars@.len()
                ==> final(self).keysym_lookup@.contains_key(#[trigger] chars@[i])
                && final(self).keysym_lookup@[chars@[i]].keycode == codes@[i],
            r is Ok ==> forall|c: char| #[trigger] final(self).keysym_lookup@.contains_key(c)
                ==> final(self).keysym_lookup@[c].refcount == users(old(self).keysym_lookup@, c) + occurrences(chars@, chars@.len() as int, c),
    {
        let ghost m0 = self.keysym_lookup@;
        let ghost u0 = self.unused_keycodes@;
        let ghost vals = known_keysyms(keysyms@);
        let n = chars.len();
        let mut i: usize = 0;
        while i < n
            invariant
                i <= n,
                n == keysyms@.len(),
                n == chars@.len(),
                self.wf(),
                self.keysym_lookup@ == m0,
                self.unused_keycodes@ == u0,
                first_missing(keysyms@, 0) == first_missing(keysyms@, i as int),
                forall|j: int| 0 <= j < i ==> #[trigger] keysyms@[j] is Some,
            decreases n - i,
        {
            if keysyms[i].is_none() {
                return Err(DisplayOutputError::AllocationFailed(chars[i]));
            }
            i = i + 1;
        }
        // Check that every new symbol gets a keycode before changing anything
        let mut fresh: Vec<char> = Vec::new();
        i = 0;
        while i < n
            invariant
                i <= n,
                n == chars@.len(),
                self.wf(),
                self.keysym_lookup@ == m0,
                self.unused_keycodes@ == u0,
                first_missing(keysyms@, 0) is None,
                vals == known_keysyms(keysyms@),
                add_fold(m0, u0, chars@, vals, i as int).failed is None,
                forall|c: char| #[trigger] add_fold(m0, u0, chars@, vals, i as int).m.contains_key(c) <==> (m0.contains_key(c) || fresh@.contains(c)),
                forall|c: char| #[trigger] fresh@.contains(c) ==> !m0.contains_key(c),
                fresh@.len() <= u0.len(),
                add_fold(m0, u0, chars@, vals, i as int).unused == u0.skip(fresh@.len() as int),
            decreases n - i,
        {
            let c = chars[i];
            let ghost p = add_fold(m0, u0, chars@, vals, i as int);
            if !self.keysym_lookup.contains_key(c) && !crate::module::displayserver::quartz::contains_char(&fresh, c) {
                if fresh.len() == self.unused_keycodes.len() {
                    proof {
                        assert(p.unused.len() == 0);
                        assert(!p.m.contains_key(c));
                        assert(add_fold(m0, u0, chars@, vals, i + 1).failed == Some(c));
                        lemma_add_fold_stops(m0, u0, chars@, vals, i + 1, n as int);
                    }
                    return Err(DisplayOutputError::AllocationFailed(c));
                }
                let ghost f0 = fresh@;
                fresh.push(c);
                proof {
                    assert(u0.skip(f0.len() as int).drop_first() == u0.skip(fresh@.len() as int));
                    assert forall|d: char| #[trigger] fresh@.contains(d) implies f0.contains(d) || d == c by {
                        let j = choose|j: int| 0 <= j < fresh@.len() && fresh@[j] == d;
                        if j < f0.len() {
                            assert(f0[j] == d);
                        }
                    }
                    assert(fresh@[f0.len() as int] == c);
                    assert forall|d: char| f0.contains(d) implies #[trigger] fresh@.contains(d) by {
                        let j = choose|j: int| 0 <= j < f0.len() && f0[j] == d;
                        assert(fresh@[j] == d);
                    }
                }
            }
            i = i + 1;
        }
        // Allocate
        let mut codes: Vec<u32> = Vec::new();
        let mut regen = false;
        i = 0;
        while i < n
            invariant
                i <= n,
                n == chars@.len(),
                n == keysyms@.len(),
                n <= u32::MAX,
                vals == known_keysyms(keysyms@),
                forall|j: int| 0 <= j < n ==> #[trigger] keysyms@[j] is Some,
                forall|c: char| #[trigger] m0.contains_key(c) ==> m0[c].refcount + n <= u32::MAX,
                self.wf(),
                self.automatic_layout_regen == old(self).automatic_layout_regen,
                first_missing(keysyms@, 0) is None,
                add_fold(m0, u0, chars@, vals, n as int).failed is None,
                add_fold(m0, u0, chars@, vals, i as int).failed is None,
                self.keysym_lookup@ == add_fold(m0, u0, chars@, vals, i as int).m,
                self.unused_keycodes@ == add_fold(m0, u0, chars@, vals, i as int).unused,
                codes@ == add_fold(m0, u0, chars@, vals, i as int).codes,
                regen == add_fold(m0, u0, chars@, vals, i as int).regen,
                forall|c: char| #[trigger] self.keysym_lookup@.contains_key(c) ==> self.keysym_lookup@[c].refcount <= (if m0.contains_key(c) {
                    m0[c].refcount as int
                } else {
                    0
                }) + i,
            decreases n - i,
        {
            let c = chars[i];
            let ks: u32 = match keysyms[i] {
                Some(v) => v,
                None => 0,
            };
            assert(ks == vals[i as int]);
            let ghost mp = self.keysym_lookup@;
            match self.keysym_lookup.get(c) {
                Some(k) => {
                    proof {
                        lemma_gain_user(mp, self.unused_keycodes@, c);
                    }
                    self.keysym_lookup.insert(c, Key { keysym: k.keysym, keycode: k.keycode, refcount: k.refcount + 1 });
                    codes.push(k.keycode);
                },
                None => {
                    let ghost up = self.unused_keycodes@;
                    match self.unused_keycodes.pop_front() {
                        Some(kc) => {
                            proof {
                                lemma_allocate(mp, up, c, ks);
                                assert(up.subrange(1, up.len() as int) == up.drop_first());
                            }
                            self.keysym_lookup.insert(c, Key { keysym: ks, keycode: kc, refcount: 1 });
                            codes.push(kc);
                            regen = true;
                        },
                        None => {
                            proof {
                                lemma_add_fold_stops(m0, u0, chars@, vals, i + 1, n as int);
                            }
                            return Err(DisplayOutputError::AllocationFailed(c));
                        },
                    }
                },
            }
            i = i + 1;
        }
        proof {
            lemma_add_fold_counts(m0, u0, chars@, vals, n as int);
        }
        let auto = self.automatic_layout_regen;
        Ok((codes, regen && auto))
    }

    /// Types a string: its symbols get keycodes (see [`Keymap::add`]), their key events
    /// are given in order, and the keycodes are released again (see [`Keymap::remove`]), so
    /// that the symbol map is as before. A symbol without keysym or keycode fails as in
    /// `add`, and nothing changes.
    pub fn type_string(&mut self, chars: &Vec<char>, keysyms: &Vec<Option<u32>>) -> (r: Result<KeymapTyping, DisplayOutputError>)
        requires
            old(self).wf(),
            chars@.len() == keysyms@.len(),
            chars@.len() <= u32::MAX,
            forall|c: char| #[trigger] old(self).keysym_lookup@.contains_key(c) ==> old(self).keysym_lookup@[c].refcount + chars@.len() <= u32::MAX,
        ensures
            final(self).wf(),
            final(self).automatic_layout_regen == old(self).automatic_layout_regen,
            final(self).keysym_lookup@ == old(self).keysym_lookup@,
            match first_missing(keysyms@, 0) {
                Some(i) => r matches Err(DisplayOutputError::AllocationFailed(x)) && x == chars@[i]
                    && final(self).unused_keycodes@ == old(self).unused_keycodes@,
                None => {
                    let o = add_fold(old(self).keysym_lookup@, old(self).unused_keycodes@, chars@, known_keysyms(keysyms@), chars@.len() as int);
                    let p = remove_fold(o.m, o.unused, chars@, chars@.len() as int);
                    match o.failed {
                        Some(c) => r matches Err(DisplayOutputError::AllocationFailed(x)) && x == c
                            && final(self).unused_keycodes@ == old(self).unused_keycodes@,
                        None => r matches Ok(t) && final(self).unused_keycodes@ == p.1
                            && t.keycodes@.len() == chars@.len()
                            && (forall|i: int| 0 <= i < chars@.len() ==> #[trigger] t.keycodes@[i] + 8 == o.m[chars@[i]].keycode)
                            && (t.layout_before is Some <==> o.regen && old(self).automatic_layout_regen)
                            && (t.layout_before matches Some(l) ==> exists|e: Seq<(char, Key)>|
                                unique_chars(e) && map_of(e) == o.m && l@ == keymap_text(e))
                            && (t.layout_after is Some <==> p.2 && old(self).automatic_layout_regen)
                            && (t.layout_after matches Some(l) ==> exists|e: Seq<(char, Key)>|
                                unique_chars(e) && map_of(e) == old(self).keysym_lookup@ && l@ == keymap_text(e)),
                    }
                },
            },
    {
        let ghost m0 = self.keysym_lookup@;
        let ghost u0 = self.unused_keycodes@;
        let (codes, regen) = match self.add(chars, keysyms) {
            Ok(x) => x,
            Err(e) => {
                return Err(e);
            },
        };
        let ghost mid = self.keysym_lookup@;
        let layout_before = if regen {
            let ghost e = self.keysym_lookup.entries@;
            match self.generate_keymap_string() {
                Ok(l) => {
                    assert(unique_chars(e) && map_of(e) == mid && l@ == keymap_text(e));
                    Some(l)
                },
                Err(_) => None,
            }
        } else {
            None
        };
        let mut keycodes: Vec<u32> = Vec::new();
        let mut i: usize = 0;
        while i < codes.len()
            invariant
                i <= codes@.len(),
                codes@.len() == chars@.len(),
                self.wf(),
                self.keysym_lookup@ == mid,
                forall|j: int| 0 <= j < chars@.len() ==> mid.contains_key(#[trigger] chars@[j]) && mid[chars@[j]].keycode == codes@[j],
                keycodes@.len() == i,
                forall|j: int| 0 <= j < i ==> #[trigger] keycodes@[j] + 8 == codes@[j],
            decreases codes@.len() - i,
        {
            assert(mid.contains_key(chars@[i as int]));
            keycodes.push(codes[i] - 8);
            i = i + 1;
        }
        proof {
            lemma_remove_undoes_add(m0, u0, chars@, known_keysyms(keysyms@));
        }
        let regen_after = self.remove(chars);
        let layout_after = if regen_after {
            let ghost e = self.keysym_lookup.entries@;
            match self.generate_keymap_string() {
                Ok(l) => {
                    assert(unique_chars(e) && map_of(e) == m0 && l@ == keymap_text(e));
                    Some(l)
                },
                Err(_) => None,
            }
        } else {
            None
        };
        Ok(KeymapTyping { layout_before, keycodes, layout_after })
    }

    /// Removes symbols: each loses a user, and a symbol without users gives its keycode
    /// back (to the end of the unused keycodes). Unknown symbols are skipped. Returns
    /// whether the layout must now be regenerated and applied (a keycode was released and
    /// regeneration is automatic).
    pub fn remove(&mut self, chars: &Vec<char>) -> (r: bool)
        requires
            old(self).wf(),
        ensures
            final(self).wf(),
            final(self).automatic_layout_regen == old(self).automatic_layout_regen,
            ({
                let p = remove_fold(old(self).keysym_lookup@, old(self).unused_keycodes@, chars@, chars@.len() as int);
                &&& final(self).keysym_lookup@ == p.0
                &&& final(self).unused_keycodes@ == p.1
                &&& r == (p.2 && old(self).automatic_layout_regen)
            }),
            forall|c: char| #[trigger] final(self).keysym_lookup@.contains_key(c) <==> (old(self).keysym_lookup@.contains_key(c)
                && old(self).keysym_lookup@[c].refcount > occurrences(chars@, chars@.len() as int, c)),
            forall|c: char| #[trigger] final(self).keysym_lookup@.contains_key(c) ==> final(self).keysym_lookup@[c] == (Key {
                keysym: old(self).keysym_lookup@[c].keysym,
                keycode: old(self).keysym_lookup@[c].keycode,
                refcount: (old(self).keysym_lookup@[c].refcount - occurrences(chars@, chars@.len() as int, c)) as u32,
            }),
    {
        let ghost m0 = self.keysym_lookup@;
        let ghost u0 = self.unused_keycodes@;
        let mut regen = false;
        let mut i: usize = 0;
        while i < chars.len()
            invariant
                i <= chars@.len(),
                self.wf(),
                self.automatic_layout_regen == old(self).automatic_layout_regen,
                self.keysym_lookup@ == remove_fold(m0, u0, chars@, i as int).0,
                self.unused_keycodes@ == remove_fold(m0, u0, chars@, i as int).1,
                regen == remove_fold(m0, u0, chars@, i as int).2,
            decreases chars@.len() - i,
        {
            let c = chars[i];
            let ghost mp = self.keysym_lookup@;
            let ghost up = self.unused_keycodes@;
            match self.keysym_lookup.get(c) {
                Some(k) => {
                    if k.refcount == 1 {
                        proof {
                            lemma_release(mp, up, c);
                        }
                        self.unused_keycodes.push_back(k.keycode);
                        self.keysym_lookup.remove(c);
                        regen = true;
                    } else {
                        proof {
                            lemma_lose_user(mp, up, c);
                        }
                        self.keysym_lookup.insert(c, Key { keysym: k.keysym, keycode: k.keycode, refcount: k.refcount - 1 });
                    }
                },
                None => {},
            }
            i = i + 1;
        }
        proof {
            lemma_remove_fold_counts(m0, u0, chars@, chars@.len() as int);
        }
        let auto = self.automatic_layout_regen;
        regen && auto
    }
}

} // verus!
