//! What the library assumes of the standard string type.

use vstd::prelude::*;

verus! {

/// `String::push_str` appends the given slice to the end of the string:
/// afterwards the string holds what it held before, followed by the
/// characters of `other`.
pub assume_specification[ String::push_str ](text: &mut String, other: &str)
    ensures
        final(text)@ == old(text)@ + other@,
;

} // verus!
