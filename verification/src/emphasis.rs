//! The custom inline-emphasis extension.
//!
//! Three two-character delimiter markers extend the standard emphasis
//! grammar, each bound to its own semantic node: `++text++` renders as a
//! `strong` element with a red-color class, `==text==` as a `mark` element,
//! and `__text__` as a `u` element.  Delimiter pairing itself is grammar
//! work done by the parsing collaborator; this module supplies the node
//! payloads and registers the extension on the pipeline.
use vstd::prelude::*;

use crate::driver::Pipeline;

verus! {

/// The payload of a `==highlighted==` span.
pub struct Highlighted {
    pub marker: char,
}

/// The payload of a `++colored-strong++` span.
pub struct RedColored {
    pub marker: char,
}

/// The payload of an `__underlined__` span.
pub struct Underlined {
    pub marker: char,
}

/// Registers the three delimiter markers on the pipeline.
pub fn add(p: &mut Pipeline)
    ensures
        *final(p) == (Pipeline { emphasis: true, ..*old(p) }),
{
    p.emphasis = true;
}

} // verus!
