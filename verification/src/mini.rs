//! A growing markup buffer that aggregate pages are assembled in
//! before the asset pipeline compacts and writes them.

use vstd::prelude::*;

verus! {

/// A growing markup buffer.
pub struct HtmlMinimizer {
    /// The collected markup.
    pub html: Vec<char>,
}

impl HtmlMinimizer {
    /// An empty buffer.
    pub fn new() -> (r: HtmlMinimizer)
        ensures
            r.html@ == Seq::<char>::empty(),
    {
        HtmlMinimizer { html: Vec::new() }
    }

    /// Appends rendered markup.
    pub fn append_string(&mut self, string: &str)
        ensures
            final(self).html@ == old(self).html@ + string@,
    {
        crate::text::push_str(&mut self.html, string);
    }

    /// The collected markup.
    pub fn into_inner(self) -> (r: Vec<char>)
        ensures
            r@ == self.html@,
    {
        self.html
    }
}

} // verus!
