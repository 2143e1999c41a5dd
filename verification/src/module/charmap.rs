use vstd::prelude::*;

verus! {

/// Whether some entry has key `c`.
pub open spec fn has_char<V>(s: Seq<(char, V)>, c: char) -> bool {
    exists|i: int| 0 <= i < s.len() && #[trigger] s[i].0 == c
}

/// No two entries share a key.
pub open spec fn unique_chars<V>(s: Seq<(char, V)>) -> bool {
    forall|i: int, j: int| 0 <= i < s.len() && 0 <= j < s.len() && i != j ==> #[trigger] s[i].0 != #[trigger] s[j].0
}

/// The map an entry list stands for.
pub open spec fn map_of<V>(s: Seq<(char, V)>) -> Map<char, V> {
    Map::new(|c: char| has_char(s, c), |c: char| s[choose|i: int| 0 <= i < s.len() && #[trigger] s[i].0 == c].1)
}

proof fn lemma_map_of_at<V>(s: Seq<(char, V)>, i: int)
    requires
        unique_chars(s),
        0 <= i < s.len(),
    ensures
        map_of(s).contains_key(s[i].0),
        map_of(s)[s[i].0] == s[i].1,
{
    let c = s[i].0;
    assert(has_char(s, c));
    let j = choose|j: int| 0 <= j < s.len() && #[trigger] s[j].0 == c;
    assert(j == i);
}

/// A small map keyed by characters, kept as a list of entries in insertion order (the
/// standard hash map has no specification for character keys)
#[derive(Debug, Clone)]
pub struct CharMap<V> {
    pub entries: Vec<(char, V)>,
}

impl<V> View for CharMap<V> {
    type V = Map<char, V>;

    open spec fn view(&self) -> Map<char, V> {
        map_of(self.entries@)
    }
}

impl<V: Copy> CharMap<V> {
    /// Entries are keyed by distinct characters.
    pub open spec fn wf(&self) -> bool {
        unique_chars(self.entries@)
    }

    /// An empty map.
    pub fn new() -> (r: CharMap<V>)
        ensures
            r.wf(),
            r@ == Map::<char, V>::empty(),
            r.entries@.len() == 0,
    {
        let r = CharMap { entries: Vec::new() };
        assert(r@ =~= Map::<char, V>::empty());
        r
    }

    fn index_of(&self, c: char) -> (r: Option<usize>)
        ensures
            r matches Some(i) ==> i < self.entries@.len() && self.entries@[i as int].0 == c,
            r is None ==> !has_char(self.entries@, c),
    {
        let mut i: usize = 0;
        while i < self.entries.len()
            invariant
                i <= self.entries@.len(),
                forall|j: int| 0 <= j < i ==> self.entries@[j].0 != c,
            decreases self.entries@.len() - i,
        {
            if self.entries[i].0 == c {
                return Some(i);
            }
            i = i + 1;
        }
        None
    }

    /// The value of key `c`, if any.
    pub fn get(&self, c: char) -> (r: Option<V>)
        requires
            self.wf(),
        ensures
            r == (if self@.contains_key(c) {
                Some(self@[c])
            } else {
                None
            }),
    {
        match self.index_of(c) {
            Some(i) => {
                proof {
                    lemma_map_of_at(self.entries@, i as int);
                }
                Some(self.entries[i].1)
            },
            None => None,
        }
    }

    /// Whether key `c` is present.
    pub fn contains_key(&self, c: char) -> (r: bool)
        requires
            self.wf(),
        ensures
            r == self@.contains_key(c),
    {
        self.index_of(c).is_some()
    }

    /// Sets the value of key `c` (a new key goes after the existing ones).
    pub fn insert(&mut self, c: char, v: V)
        requires
            old(self).wf(),
        ensures
            final(self).wf(),
            final(self)@ == old(self)@.insert(c, v),
    {
        let ghost s = self.entries@;
        match self.index_of(c) {
            Some(i) => {
                self.entries.set(i, (c, v));
                let ghost t = self.entries@;
                assert(t == s.update(i as int, (c, v)));
                assert forall|k: int| 0 <= k < t.len() implies #[trigger] t[k].0 == s[k].0 by {}
                assert(unique_chars(t));
                assert forall|d: char| #[trigger] has_char(t, d) == has_char(s, d) by {
                    if has_char(s, d) {
                        let k = choose|k: int| 0 <= k < s.len() && #[trigger] s[k].0 == d;
                        assert(t[k].0 == d);
                    }
                }
                assert forall|d: char| has_char(t, d) implies map_of(t)[d] == old(self)@.insert(c, v)[d] by {
                    let k = choose|k: int| 0 <= k < t.len() && #[trigger] t[k].0 == d;
                    lemma_map_of_at(t, k);
                    if k != i {
                        lemma_map_of_at(s, k);
                    }
                }
                assert(self@ =~= old(self)@.insert(c, v));
            },
            None => {
                self.entries.push((c, v));
                let ghost t = self.entries@;
                assert(t == s.push((c, v)));
                assert(unique_chars(t));
                assert forall|d: char| #[trigger] has_char(t, d) == (has_char(s, d) || d == c) by {
                    if has_char(s, d) {
                        let k = choose|k: int| 0 <= k < s.len() && #[trigger] s[k].0 == d;
                        assert(t[k].0 == d);
                    }
                    if d == c {
                        assert(t[s.len() as int].0 == d);
                    }
                }
                assert forall|d: char| has_char(t, d) implies map_of(t)[d] == old(self)@.insert(c, v)[d] by {
                    let k = choose|k: int| 0 <= k < t.len() && #[trigger] t[k].0 == d;
                    lemma_map_of_at(t, k);
                    if k < s.len() {
                        lemma_map_of_at(s, k);
                    }
                }
                assert(self@ =~= old(self)@.insert(c, v));
            },
        }
    }

    /// Removes key `c`, returning its value (the other entries keep their order).
    pub fn remove(&mut self, c: char) -> (r: Option<V>)
        requires
            old(self).wf(),
        ensures
            final(self).wf(),
            final(self)@ == old(self)@.remove(c),
            r == (if old(self)@.contains_key(c) {
                Some(old(self)@[c])
            } else {
                None
            }),
    {
        let ghost s = self.entries@;
        match self.index_of(c) {
            Some(i) => {
                proof {
                    lemma_map_of_at(s, i as int);
                }
                let (_, v) = self.entries.remove(i);
                let ghost t = self.entries@;
                assert(t == s.remove(i as int));
                assert forall|a: int, b: int| 0 <= a < t.len() && 0 <= b < t.len() && a != b implies #[trigger] t[a].0 != #[trigger] t[b].0 by {
                    let a2 = if a < i { a } else { a + 1 };
                    let b2 = if b < i { b } else { b + 1 };
                    assert(t[a] == s[a2]);
                    assert(t[b] == s[b2]);
                }
                assert forall|d: char| #[trigger] has_char(t, d) == (has_char(s, d) && d != c) by {
                    if has_char(s, d) && d != c {
                        let k = choose|k: int| 0 <= k < s.len() && #[trigger] s[k].0 == d;
                        let k2 = if k < i { k } else { k - 1 };
                        assert(t[k2].0 == d);
                    }
                    if has_char(t, d) {
                        let k = choose|k: int| 0 <= k < t.len() && #[trigger] t[k].0 == d;
                        let k2 = if k < i { k } else { k + 1 };
                        assert(s[k2].0 == d);
                    }
                }
                assert forall|d: char| has_char(t, d) implies map_of(t)[d] == old(self)@.remove(c)[d] by {
                    let k = choose|k: int| 0 <= k < t.len() && #[trigger] t[k].0 == d;
                    lemma_map_of_at(t, k);
                    let k2 = if k < i { k } else { k + 1 };
                    assert(t[k] == s[k2]);
                    lemma_map_of_at(s, k2);
                }
                assert(self@ =~= old(self)@.remove(c));
                Some(v)
            },
            None => {
                assert(self@ =~= old(self)@.remove(c));
                None
            },
        }
    }
}

} // verus!
