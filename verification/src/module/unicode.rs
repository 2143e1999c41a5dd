use vstd::prelude::*;

/// Xorg key mapping state for unicode output
pub mod x11;
/// macOS unicode output state
pub mod osx;

verus! {

/// Functions that can be called in a cross platform manner
pub trait UnicodeOutput {
    fn get_layout(&self) -> String;

    fn set_layout(&self, layout: &str);

    fn type_string(&mut self, string: &str);

    fn press_symbol(&mut self, c: char, state: bool);

    fn get_held(&mut self) -> Vec<char>;

    fn set_held(&mut self, string: &str);
}

/// Dummy implementation for unsupported platforms: nothing is typed or held
pub struct StubOutput {}

impl StubOutput {
    /// Creates the dummy output.
    pub fn new() -> StubOutput {
        StubOutput {  }
    }
}

impl UnicodeOutput for StubOutput {
    fn get_layout(&self) -> (r: String)
        ensures
            r@ == Seq::<char>::empty(),
    {
        String::new()
    }

    fn set_layout(&self, _layout: &str) {
    }

    fn type_string(&mut self, _string: &str) {
    }

    fn press_symbol(&mut self, _c: char, _state: bool) {
    }

    fn get_held(&mut self) -> (r: Vec<char>)
        ensures
            r@ == Seq::<char>::empty(),
    {
        Vec::new()
    }

    fn set_held(&mut self, _string: &str) {
    }
}

} // verus!
