//! Borrowing without transferring ownership: reading through a shared
//! reference, mutating through an exclusive one, and borrowing a slice.

use vstd::prelude::*;
use vstd::string::StrSliceExecFns;
use vstd::string::StringSliceAdditionalSpecFns;

verus! {

/// The length in bytes of a borrowed string.
pub fn calculate_length(s: &str) -> (len: usize)
    ensures
        len == s.spec_bytes().len() as usize,
{
    s.len()
}

/// Extends a mutably borrowed string in place.
pub fn change(s: &mut String)
    ensures
        final(s)@ == old(s)@ + ", world!"@,
{
    s.append(", world!");
}

/// The prefix of `s` up to (not including) its first space, or all of `s`
/// when it has none.
pub fn first_word(s: &str) -> (w: &str)
    ensures
        w@.len() <= s@.len(),
        w@ == s@.take(w@.len() as int),
        forall|j: int| 0 <= j < w@.len() ==> s@[j] != ' ',
        w@.len() < s@.len() ==> s@[w@.len() as int] == ' ',
{
    let len = s.unicode_len();
    let mut i: usize = 0;
    while i < len
        invariant
            i <= len == s@.len(),
            forall|j: int| 0 <= j < i ==> s@[j] != ' ',
        decreases len - i,
    {
        if s.get_char(i) == ' ' {
            return s.substring_char(0, i);
        }
        i = i + 1;
    }
    proof {
        assert(s@.take(s@.len() as int) =~= s@);
    }
    s
}

} // verus!
