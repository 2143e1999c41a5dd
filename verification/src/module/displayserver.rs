use vstd::prelude::*;
use crate::text::push_char;

/// Xorg key mapping logic
pub mod x11;
/// Windows key event logic
pub mod winapi;
/// macOS typing logic
pub mod quartz;
/// Wayland virtual keyboard keymap
pub mod wayland;

verus! {

/// An I/O error of the standard library.
#[verifier::external_type_specification]
#[verifier::external_body]
pub struct ExIoError(std::io::Error);

/// A UTF-8 decoding error of the standard library.
#[verifier::external_type_specification]
#[verifier::external_body]
pub struct ExFromUtf8Error(std::string::FromUtf8Error);

/// Errors of the display server outputs
#[derive(Debug)]
pub enum DisplayOutputError {
    AllocationFailed(char),
    Connection(String),
    Format(std::io::Error),
    General(String),
    LostConnection,
    NoKeycode,
    SetLayoutFailed(String),
    Unimplemented,
    Utf(std::string::FromUtf8Error),
}

/// Display text of an I/O error, by its `Display` implementation (`ToString::to_string`);
/// nothing is claimed about the text, which may come from the operating system.
#[verifier::external_body]
fn io_error_text(e: &std::io::Error) -> String {
    e.to_string()
}

/// Display text of a UTF-8 decoding error, by its `Display` implementation
/// (`ToString::to_string`); nothing is claimed about the text.
#[verifier::external_body]
fn utf8_error_text(e: &std::string::FromUtf8Error) -> String {
    e.to_string()
}

/// Display form of an error without an inner error of the standard library: its kind
/// and, where it has one, its detail.
pub open spec fn error_text(e: DisplayOutputError) -> Seq<char> {
    match e {
        DisplayOutputError::AllocationFailed(c) => "Allocation failed: "@ + seq![c],
        DisplayOutputError::Connection(s) => "Connection: "@ + s@,
        DisplayOutputError::General(s) => "General: "@ + s@,
        DisplayOutputError::LostConnection => "Lost connection"@,
        DisplayOutputError::NoKeycode => "No keycode mapped"@,
        DisplayOutputError::SetLayoutFailed(s) => "set_layout() failed: "@ + s@,
        DisplayOutputError::Unimplemented => "Unimplemented"@,
        DisplayOutputError::Format(_) => "Format: "@,
        DisplayOutputError::Utf(_) => "UTF: "@,
    }
}

impl DisplayOutputError {
    /// Display form of the error: its kind and detail. For an inner I/O or UTF-8 error
    /// the detail is that error's own text, which the contract leaves open.
    pub fn to_string(&self) -> (r: String)
        ensures
            self is Format || self is Utf ==> r@.len() >= error_text(*self).len()
                && r@.take(error_text(*self).len() as int) == error_text(*self),
            !(self is Format || self is Utf) ==> r@ == error_text(*self),
    {
        let mut s = String::new();
        match self {
            DisplayOutputError::AllocationFailed(c) => {
                s.append("Allocation failed: ");
                push_char(&mut s, *c);
            },
            DisplayOutputError::Connection(e) => {
                s.append("Connection: ");
                s.append(e.as_str());
            },
            DisplayOutputError::Format(e) => {
                s.append("Format: ");
                let t = io_error_text(e);
                s.append(t.as_str());
            },
            DisplayOutputError::General(e) => {
                s.append("General: ");
                s.append(e.as_str());
            },
            DisplayOutputError::LostConnection => {
                s.append("Lost connection");
            },
            DisplayOutputError::NoKeycode => {
                s.append("No keycode mapped");
            },
            DisplayOutputError::SetLayoutFailed(e) => {
                s.append("set_layout() failed: ");
                s.append(e.as_str());
            },
            DisplayOutputError::Unimplemented => {
                s.append("Unimplemented");
            },
            DisplayOutputError::Utf(e) => {
                s.append("UTF: ");
                let t = utf8_error_text(e);
                s.append(t.as_str());
            },
        }
        assert(s@.take(error_text(*self).len() as int) =~= error_text(*self) || !(self is Format || self is Utf));
        s
    }
}

/// Functions that can be called in a cross platform manner
pub trait DisplayOutput {
    fn get_layout(&self) -> Result<String, DisplayOutputError>;

    fn set_layout(&self, layout: &str) -> Result<(), DisplayOutputError>;

    fn type_string(&mut self, string: &str) -> Result<(), DisplayOutputError>;

    fn press_symbol(&mut self, c: char, state: bool) -> Result<(), DisplayOutputError>;

    fn get_held(&mut self) -> Result<Vec<char>, DisplayOutputError>;

    fn set_held(&mut self, string: &str) -> Result<(), DisplayOutputError>;
}

/// Dummy implementation for unsupported platforms: every call is unimplemented
pub struct StubOutput {}

impl StubOutput {
    /// Creates the dummy output.
    pub fn new() -> StubOutput {
        StubOutput {  }
    }
}

impl DisplayOutput for StubOutput {
    fn get_layout(&self) -> (r: Result<String, DisplayOutputError>)
        ensures
            r matches Err(DisplayOutputError::Unimplemented),
    {
        Err(DisplayOutputError::Unimplemented)
    }

    fn set_layout(&self, _layout: &str) -> (r: Result<(), DisplayOutputError>)
        ensures
            r matches Err(DisplayOutputError::Unimplemented),
    {
        Err(DisplayOutputError::Unimplemented)
    }

    fn type_string(&mut self, _string: &str) -> (r: Result<(), DisplayOutputError>)
        ensures
            r matches Err(DisplayOutputError::Unimplemented),
    {
        Err(DisplayOutputError::Unimplemented)
    }

    fn press_symbol(&mut self, _c: char, _state: bool) -> (r: Result<(), DisplayOutputError>)
        ensures
            r matches Err(DisplayOutputError::Unimplemented),
    {
        Err(DisplayOutputError::Unimplemented)
    }

    fn get_held(&mut self) -> (r: Result<Vec<char>, DisplayOutputError>)
        ensures
            r matches Err(DisplayOutputError::Unimplemented),
    {
        Err(DisplayOutputError::Unimplemented)
    }

    fn set_held(&mut self, _string: &str) -> (r: Result<(), DisplayOutputError>)
        ensures
            r matches Err(DisplayOutputError::Unimplemented),
    {
        Err(DisplayOutputError::Unimplemented)
    }
}

/// The held symbols that `set_held` releases: those not in the new set, in held order.
pub open spec fn released_symbols(held: Seq<char>, new_held: Seq<char>) -> Seq<char> {
    held.filter(|c: char| !new_held.contains(c))
}

/// Symbols to release when the held set becomes `new_held` (every held symbol that is
/// not in it, in held order); the symbols of `new_held` are then all pressed.
pub fn symbols_to_release(held: &Vec<char>, new_held: &Vec<char>) -> (r: Vec<char>)
    ensures
        r@ == released_symbols(held@, new_held@),
{
    let ghost pred = |c: char| !new_held@.contains(c);
    let mut out: Vec<char> = Vec::new();
    let mut i: usize = 0;
    assert(held@.take(0).filter(pred) =~= Seq::<char>::empty());
    while i < held.len()
        invariant
            i <= held@.len(),
            pred == (|c: char| !new_held@.contains(c)),
            out@ == held@.take(i as int).filter(pred),
        decreases held@.len() - i,
    {
        let c = held[i];
        let mut found = false;
        let mut j: usize = 0;
        while j < new_held.len()
            invariant
                j <= new_held@.len(),
                found == exists|k: int| 0 <= k < j && new_held@[k] == c,
            decreases new_held@.len() - j,
        {
            if new_held[j] == c {
                found = true;
            }
            j = j + 1;
        }
        assert(found == new_held@.contains(c));
        assert(held@.take(i + 1).drop_last() =~= held@.take(i as int));
        proof {
            reveal_with_fuel(Seq::<char>::filter, 1);
        }
        assert(held@.take(i + 1).last() == c);
        if !found {
            out.push(c);
        }
        i = i + 1;
    }
    assert(held@.take(held@.len() as int) =~= held@);
    out
}

/// Position of the first occurrence of `c`.
pub open spec fn first_index_of(s: Seq<char>, c: char) -> Option<int> {
    if s.contains(c) {
        Some(choose|i: int| 0 <= i < s.len() && s[i] == c && forall|j: int| 0 <= j < i ==> s[j] != c)
    } else {
        None
    }
}

/// Forgets a released symbol: removes its first occurrence from the held list.
pub fn release_held(held: &mut Vec<char>, c: char)
    ensures
        final(held)@ == match first_index_of(old(held)@, c) {
            Some(i) => old(held)@.remove(i),
            None => old(held)@,
        },
{
    let mut i: usize = 0;
    while i < held.len()
        invariant
            i <= held@.len(),
            held@ == old(held)@,
            forall|j: int| 0 <= j < i ==> held@[j] != c,
        decreases held@.len() - i,
    {
        if held[i] == c {
            let ghost s = held@;
            assert(s.contains(c));
            let ghost k = choose|k: int| 0 <= k < s.len() && s[k] == c && forall|j: int| 0 <= j < k ==> s[j] != c;
            assert(k == i) by {
                if k < i {
                } else if k > i {
                    assert(s[i as int] == c);
                }
            }
            held.remove(i);
            return;
        }
        i = i + 1;
    }
    assert(!held@.contains(c));
}

} // verus!
