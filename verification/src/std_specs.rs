//! What the library takes from the standard library on trust: the contracts
//! below are believed, not proved.

use vstd::prelude::*;

verus! {

/// Whether `c` has the Unicode property Alphabetic: what `char::is_alphabetic`
/// returns for it.
pub uninterp spec fn unicode_alphabetic(c: char) -> bool;

/// Whether `c` belongs to one of Unicode's general categories for numbers:
/// what `char::is_numeric` returns for it.
pub uninterp spec fn unicode_numeric(c: char) -> bool;

/// `char::is_alphabetic` of the standard library. Its answer is read from
/// Unicode's tables and depends on the character alone; the contract gives
/// that answer a name and claims nothing else of it.
pub assume_specification[ char::is_alphabetic ](c: char) -> (b: bool)
    ensures
        b == unicode_alphabetic(c),
;

/// `char::is_alphanumeric` of the standard library. It is documented to hold
/// of the characters of which `char::is_alphabetic` or `char::is_numeric`
/// holds, and the contract says so; what those two answer is read from
/// Unicode's tables, and is named only.
pub assume_specification[ char::is_alphanumeric ](c: char) -> (b: bool)
    ensures
        b == (unicode_alphabetic(c) || unicode_numeric(c)),
;

/// `String::push` of the standard library: the character is appended at the
/// end of the string, and what the string held before stays in front of it.
pub assume_specification[ String::push ](s: &mut String, c: char)
    ensures
        final(s)@ == old(s)@.push(c),
;

} // verus!
