//! The text labels that separate one use of a primitive from another.

use vstd::prelude::*;
use vstd::string::*;
use vstd::utf8::*;

verus! {

/// The bytes of a label.
pub open spec fn label(text: &str) -> Seq<u8> {
    text.spec_bytes()
}

/// A label of plain ASCII has one byte for each character.
pub proof fn lemma_label(text: &str)
    requires
        is_ascii_chars(text@),
    ensures
        label(text) == Seq::new(text@.len(), |i: int| text@[i] as u8),
{
    is_ascii_spec_bytes(text);
}

/// The bytes of a label.
pub(crate) fn label_bytes(text: &'static str) -> (bytes: &'static [u8])
    ensures
        bytes@ == label(text),
{
    text.as_bytes()
}

} // verus!
