//! What this crate takes on trust about the standard library: the few
//! items that it uses and that `vstd` leaves without a specification.

use vstd::prelude::*;

verus! {

/// `std::io::Error`, carried through and never looked into.
#[verifier::external_type_specification]
#[verifier::external_body]
pub struct ExIoError(std::io::Error);

/// `String::push` appends one character and leaves the rest of the string
/// as it was.
pub assume_specification[ String::push ](s: &mut String, c: char)
    ensures
        final(s)@ == old(s)@.push(c),
;

/// The characters of the lowercase form that `str::to_lowercase` gives to
/// the characters `s`. The mapping is Unicode's, too long to write out
/// here: all that is claimed is that it depends on the characters alone.
pub uninterp spec fn lowercase_of(s: Seq<char>) -> Seq<char>;

/// `str::to_lowercase` returns the lowercase form of its argument.
pub assume_specification[ str::to_lowercase ](s: &str) -> (lowered: String)
    ensures
        lowered@ == lowercase_of(s@),
;

} // verus!
