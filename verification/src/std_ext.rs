//! Specifications of the few `std` string functions the library relies on

use vstd::prelude::*;

verus! {

/// `String::push` appends the character at the end of the string
pub assume_specification[ String::push ](s: &mut String, ch: char)
    ensures
        final(s)@ == old(s)@.push(ch),
;

/// `String::push_str` appends the given slice at the end of the string
pub assume_specification[ String::push_str ](s: &mut String, t: &str)
    ensures
        final(s)@ == old(s)@ + t@,
;

} // verus!
