//! Names of the items generated parsing code refers to, held as constant
//! `::`-separated paths.
use vstd::prelude::*;

verus! {

/// A path held as a constant string, such as `binread::io::Seek`, that can be
/// shared across threads and turned into tokens on demand.
#[derive(Clone, Copy, Debug)]
pub struct IdentStr(&'static str);

impl View for IdentStr {
    type V = Seq<char>;

    closed spec fn view(&self) -> Seq<char> {
        self.0@
    }
}

impl IdentStr {
    pub fn new(s: &'static str) -> (r: IdentStr)
        ensures
            r@ == s@,
    {
        IdentStr(s)
    }

    /// The path as written.
    pub fn as_str(&self) -> (r: &'static str)
        ensures
            r@ == self@,
    {
        self.0
    }
}

} // verus!
