//! The preprocessor as its host sees it: a name, the renderers it works
//! for, and the rewriting of one chapter.

use vstd::prelude::*;
use vstd::string::*;
use vstd::utf8::*;
use crate::document::{blocky, blocky_spec, BlockyError};

verus! {

/// Whether two strings hold the same text.
fn same_text(a: &str, b: &str) -> (same: bool)
    ensures
        same == (a@ == b@),
{
    let x = a.as_bytes();
    let y = b.as_bytes();
    proof {
        encode_utf8_decode_utf8(a@);
        encode_utf8_decode_utf8(b@);
    }
    if x.len() != y.len() {
        return false;
    }
    let mut i: usize = 0;
    while i < x.len()
        invariant
            x@ == a.spec_bytes(),
            y@ == b.spec_bytes(),
            x.len() == y.len(),
            i <= x.len(),
            forall|j: int| 0 <= j < i ==> x@[j] == y@[j],
        decreases x.len() - i,
    {
        if x[i] != y[i] {
            return false;
        }
        i += 1;
    }
    assert(x@ =~= y@);
    true
}

/// The preprocessor that rewrites block annotations.
#[derive(Debug, Clone, Copy, Default)]
pub struct Blocky;

impl Blocky {
    /// A preprocessor; it holds no state.
    pub fn new() -> (preprocessor: Blocky)
        ensures
            preprocessor == Blocky,
    {
        Blocky
    }

    /// The name under which the host knows the preprocessor.
    pub fn name(&self) -> (name: &'static str)
        ensures
            name@ == "blocky"@,
    {
        "blocky"
    }

    /// Whether the preprocessor works for `renderer`: it does for `html` and
    /// for no other.
    pub fn supports_renderer(&self, renderer: &str) -> (supported: bool)
        ensures
            supported == (renderer@ == "html"@),
    {
        same_text(renderer, "html")
    }

    /// Rewrites the text of one chapter, as [`blocky`] does.
    pub fn run(&self, content: &str) -> (result: Result<String, BlockyError>)
        ensures
            match blocky_spec(content@) {
                Ok(text) => result matches Ok(written) && written@ == text,
                Err(error) => result matches Err(e) && e == error,
            },
    {
        blocky(content)
    }
}

} // verus!
