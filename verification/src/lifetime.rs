//! References that outlive a call: choosing between two borrowed strings, a
//! struct holding a borrowed excerpt, and lifetime elision on a slice helper.

use vstd::prelude::*;
use vstd::string::StrSliceExecFns;
use vstd::string::StringSliceAdditionalSpecFns;

verus! {

/// The longer of two borrowed strings, measured in bytes; ties go to the
/// second.
pub fn longest<'a>(x: &'a str, y: &'a str) -> (r: &'a str)
    ensures
        r@ == if x.spec_bytes().len() as usize > y.spec_bytes().len() as usize {
            x@
        } else {
            y@
        },
{
    if x.len() > y.len() {
        x
    } else {
        y
    }
}

/// A borrowed excerpt: the first sentence of a longer text.
pub struct ImportantExcerpt<'a> {
    /// The borrowed first sentence.
    pub part: &'a str,
}

impl<'a> ImportantExcerpt<'a> {
    /// Takes the prefix of `text` up to (not including) its first `。`, or all
    /// of `text` when it has none.
    pub fn new(text: &'a str) -> (e: ImportantExcerpt<'a>)
        ensures
            e.part@.len() <= text@.len(),
            e.part@ == text@.take(e.part@.len() as int),
            forall|j: int| 0 <= j < e.part@.len() ==> text@[j] != '。',
            e.part@.len() < text@.len() ==> text@[e.part@.len() as int] == '。',
    {
        let len = text.unicode_len();
        let mut i: usize = 0;
        while i < len
            invariant
                i <= len == text@.len(),
                forall|j: int| 0 <= j < i ==> text@[j] != '。',
            decreases len - i,
        {
            if text.get_char(i) == '。' {
                return ImportantExcerpt { part: text.substring_char(0, i) };
            }
            i = i + 1;
        }
        proof {
            assert(text@.take(text@.len() as int) =~= text@);
        }
        ImportantExcerpt { part: text }
    }
}

/// The prefix of `s` up to (not including) its first space, or all of `s`
/// when it has none; the elided lifetime ties the result to `s`.
pub fn first_word(s: &str) -> (w: &str)
    ensures
        w@.len() <= s@.len(),
        w@ == s@.take(w@.len() as int),
        forall|j: int| 0 <= j < w@.len() ==> s@[j] != ' ',
        w@.len() < s@.len() ==> s@[w@.len() as int] == ' ',
{
    let len = s.unicode_len();
    let mut i: usize = 0;
    while i < len
        invariant
            i <= len == s@.len(),
            forall|j: int| 0 <= j < i ==> s@[j] != ' ',
        decreases len - i,
    {
        if s.get_char(i) == ' ' {
            return s.substring_char(0, i);
        }
        i = i + 1;
    }
    proof {
        assert(s@.take(s@.len() as int) =~= s@);
    }
    s
}

} // verus!
