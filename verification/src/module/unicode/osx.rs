use vstd::prelude::*;
use crate::module::charmap::CharMap;

verus! {

/// Unicode output state on macOS: bound symbols and held symbols
pub struct OSXConnection {
    pub charmap: CharMap<u32>,
    pub held: Vec<char>,
}

impl OSXConnection {
    /// Nothing bound, nothing held.
    pub fn new() -> (r: OSXConnection)
        ensures
            r.charmap.wf(),
            r.charmap@ == Map::<char, u32>::empty(),
            r.held@ == Seq::<char>::empty(),
    {
        OSXConnection { charmap: CharMap::new(), held: Vec::new() }
    }
}

} // verus!
