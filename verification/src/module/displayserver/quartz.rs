use vstd::prelude::*;
use crate::module::charmap::CharMap;

verus! {

/// macOS virtual keycode of Return
pub const KEYCODE_RETURN: u16 = 0x24;

/// macOS virtual keycode of Tab
pub const KEYCODE_TAB: u16 = 0x30;

/// Whether a character is typed as a key of its own ('\n' and '\t').
pub open spec fn is_special(c: char) -> bool {
    c == '\n' || c == '\t'
}

/// The keycode that types a special character.
pub open spec fn special_keycode(c: char) -> u16 {
    if c == '\n' {
        KEYCODE_RETURN
    } else {
        KEYCODE_TAB
    }
}

/// One step of typing a string: a run of text sent at once, or one special key pressed
/// and released.
#[derive(Debug, Clone)]
pub enum TypingStep {
    Text(Vec<char>),
    Key { c: char, keycode: u16 },
}

/// The characters a step types.
pub open spec fn step_chars(s: TypingStep) -> Seq<char> {
    match s {
        TypingStep::Text(v) => v@,
        TypingStep::Key { c, keycode } => seq![c],
    }
}

/// The characters a list of steps types, in order.
pub open spec fn steps_chars(s: Seq<TypingStep>) -> Seq<char>
    decreases s.len(),
{
    if s.len() == 0 {
        Seq::empty()
    } else {
        steps_chars(s.drop_last()) + step_chars(s.last())
    }
}

/// A typing plan for a string: its steps type the string in order; each text run is
/// non-empty, free of repeats and of special characters; each key step is a special
/// character with its keycode; and a text run directly followed by another one holds the
/// latter's first character (runs are cut only where a repeat forces it).
pub open spec fn is_typing_plan(s: Seq<char>, p: Seq<TypingStep>) -> bool {
    &&& steps_chars(p) == s
    &&& forall|k: int| 0 <= k < p.len() ==> match #[trigger] p[k] {
        TypingStep::Text(v) => v@.len() > 0 && v@.no_duplicates() && forall|j: int| 0 <= j < v@.len() ==> !is_special(#[trigger] v@[j]),
        TypingStep::Key { c, keycode } => is_special(c) && keycode == special_keycode(c),
    }
    &&& forall|k: int| 0 <= k < p.len() - 1 ==> match (#[trigger] p[k], p[k + 1]) {
        (TypingStep::Text(v), TypingStep::Text(w)) => v@.contains(w@[0]),
        _ => true,
    }
}

proof fn lemma_steps_chars_push(p: Seq<TypingStep>, s: TypingStep)
    ensures
        steps_chars(p.push(s)) == steps_chars(p) + step_chars(s),
{
    assert(p.push(s).drop_last() == p);
}

/// Whether `v` holds `x`.
pub fn contains_char(v: &Vec<char>, x: char) -> (r: bool)
    ensures
        r == v@.contains(x),
{
    let mut i: usize = 0;
    while i < v.len()
        invariant
            i <= v@.len(),
            forall|j: int| 0 <= j < i ==> v@[j] != x,
        decreases v@.len() - i,
    {
        if v[i] == x {
            assert(v@[i as int] == x);
            return true;
        }
        i = i + 1;
    }
    false
}

/// Plans how to type a string: '\n' and '\t' as Return and Tab keys, the other
/// characters in runs that are cut before a character the run already holds.
#[verifier::rlimit(60)]
pub fn typing_plan(s: &Vec<char>) -> (r: Vec<TypingStep>)
    ensures
        is_typing_plan(s@, r@),
{
    let mut out: Vec<TypingStep> = Vec::new();
    let mut queue: Vec<char> = Vec::new();
    let mut i: usize = 0;
    while i < s.len()
        invariant
            i <= s@.len(),
            steps_chars(out@) + queue@ == s@.take(i as int),
            forall|k: int| 0 <= k < out@.len() ==> match #[trigger] out@[k] {
                TypingStep::Text(v) => v@.len() > 0 && v@.no_duplicates() && forall|j: int| 0 <= j < v@.len() ==> !is_special(#[trigger] v@[j]),
                TypingStep::Key { c, keycode } => is_special(c) && keycode == special_keycode(c),
            },
            forall|k: int| 0 <= k < out@.len() - 1 ==> match (#[trigger] out@[k], out@[k + 1]) {
                (TypingStep::Text(v), TypingStep::Text(w)) => v@.contains(w@[0]),
                _ => true,
            },
            queue@.no_duplicates(),
            forall|j: int| 0 <= j < queue@.len() ==> !is_special(#[trigger] queue@[j]),
            queue@.len() > 0 && out@.len() > 0 ==> match out@.last() {
                TypingStep::Text(v) => v@.contains(queue@[0]),
                _ => true,
            },
            queue@.len() == 0 && out@.len() > 0 ==> out@.last() is Key,
        decreases s@.len() - i,
    {
        let c = s[i];
        assert(s@.take(i + 1) == s@.take(i as int).push(c));
        if c == '\n' || c == '\t' {
            if queue.len() > 0 {
                let ghost prev = out@;
                let ghost q = queue@;
                out.push(TypingStep::Text(queue));
                queue = Vec::new();
                assert(out@ == prev.push(out@.last()));
                proof {
                    lemma_steps_chars_push(prev, out@.last());
                }
                assert(steps_chars(out@) == steps_chars(prev) + q);
                assert(queue@ == Seq::<char>::empty());
                assert(steps_chars(out@) + queue@ == steps_chars(out@));
            }
            let keycode: u16 = if c == '\n' {
                KEYCODE_RETURN
            } else {
                KEYCODE_TAB
            };
            let ghost prev = out@;
            out.push(TypingStep::Key { c, keycode });
            proof {
                lemma_steps_chars_push(prev, TypingStep::Key { c, keycode });
            }
            assert(queue@ == Seq::<char>::empty());
            assert(steps_chars(out@) + queue@ == steps_chars(out@));
            assert(steps_chars(out@) == steps_chars(prev) + seq![c]);
        } else {
            if contains_char(&queue, c) {
                let ghost prev = out@;
                let ghost q = queue@;
                out.push(TypingStep::Text(queue));
                queue = Vec::new();
                assert(out@ == prev.push(out@.last()));
                proof {
                    lemma_steps_chars_push(prev, out@.last());
                }
                assert(steps_chars(out@) == steps_chars(prev) + q);
            }
            queue.push(c);
        }
        i = i + 1;
    }
    if queue.len() > 0 {
        let ghost prev = out@;
        let ghost q = queue@;
        out.push(TypingStep::Text(queue));
        assert(out@ == prev.push(out@.last()));
        proof {
            lemma_steps_chars_push(prev, out@.last());
        }
    } else {
        assert(steps_chars(out@) + queue@ == steps_chars(out@));
    }
    assert(s@.take(s@.len() as int) == s@);
    out
}

/// Unicode output state on macOS: bound symbols and held symbols
pub struct QuartzConnection {
    pub charmap: CharMap<u32>,
    pub held: Vec<char>,
}

impl QuartzConnection {
    /// Nothing bound, nothing held.
    pub fn new() -> (r: QuartzConnection)
        ensures
            r.charmap.wf(),
            r.charmap@ == Map::<char, u32>::empty(),
            r.held@ == Seq::<char>::empty(),
    {
        QuartzConnection { charmap: CharMap::new(), held: Vec::new() }
    }
}

} // verus!
