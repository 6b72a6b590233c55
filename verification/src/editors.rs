//! The executable basenames treated as code editors across the crate.

use vstd::prelude::*;

use crate::text::chars_of;

verus! {

/// Lower-cased executable basenames of known editors.
pub const EDITOR_BASENAMES: [&'static str; 5] = ["cursor", "code", "code-oss", "codium", "obsidian"];

pub open spec fn known_editor(b: Seq<char>) -> bool {
    exists|i: int| 0 <= i < 5 && EDITOR_BASENAMES@[i]@ == b
}

pub fn is_known_editor_basename(basename_lower: &str) -> (r: bool)
    ensures
        r == known_editor(basename_lower@),
{
    let b = chars_of(basename_lower);
    for i in 0..5
        invariant
            b@ == basename_lower@,
            forall|k: int| 0 <= k < i ==> EDITOR_BASENAMES@[k]@ != basename_lower@,
    {
        let e = chars_of(EDITOR_BASENAMES[i]);
        if crate::text::chars_eq(e.as_slice(), b.as_slice()) {
            return true;
        }
    }
    false
}

} // verus!
