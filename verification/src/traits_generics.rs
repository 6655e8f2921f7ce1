//! A trait with a provided method, two types implementing it, and a generic
//! struct bounded by comparison.

use core::cmp::Ordering;
use vstd::prelude::*;
use vstd::std_specs::cmp::PartialOrdSpec;
use vstd::string::StrSliceExecFns;

verus! {

/// Things that can describe themselves in one line.
pub trait Summary {
    /// The full one-line summary.
    fn summarize(&self) -> String;

    /// The head of the summary — at most twenty characters — with a trailing
    /// ellipsis.
    fn preview(&self) -> String {
        let s = self.summarize();
        let len = s.as_str().unicode_len();
        let cut = if len < 20 {
            len
        } else {
            20
        };
        let mut r = s.as_str().substring_char(0, cut).to_owned();
        r.append("...");
        r
    }
}

/// A titled article with body text.
pub struct Article {
    /// The headline.
    pub title: String,
    /// The body text.
    pub content: String,
}

impl Summary for Article {
    fn summarize(&self) -> (r: String)
        ensures
            r@ == "《"@ + self.title@ + "》: "@ + self.content@,
    {
        let mut r = "《".to_owned();
        r.append(self.title.as_str());
        r.append("》: ");
        r.append(self.content.as_str());
        r
    }
}

/// A short post attributed to a user.
pub struct Tweet {
    /// Who wrote it.
    pub user: String,
    /// What it says.
    pub text: String,
}

impl Summary for Tweet {
    fn summarize(&self) -> (r: String)
        ensures
            r@ == "@"@ + self.user@ + ": "@ + self.text@,
    {
        let mut r = "@".to_owned();
        r.append(self.user.as_str());
        r.append(": ");
        r.append(self.text.as_str());
        r
    }
}

/// A ready-made summarizable value.
pub fn create_summarizable() -> (t: Tweet)
    ensures
        t.user@ == "rustlang"@,
        t.text@ == "Rust 1.93 released!"@,
{
    Tweet { user: "rustlang".to_owned(), text: "Rust 1.93 released!".to_owned() }
}

/// Two values of one comparable type.
pub struct Pair<T> {
    /// The first value.
    pub first: T,
    /// The second value.
    pub second: T,
}

impl<T: PartialOrd> Pair<T> {
    /// The larger of the two values, preferring the first on ties; for a type
    /// whose comparison obeys its specification, the choice follows
    /// `partial_cmp_spec`.
    pub fn larger(&self) -> (r: &T)
        ensures
            T::obeys_partial_cmp_spec() ==> ({
                let c = self.first.partial_cmp_spec(&self.second);
                if c matches Some(Ordering::Greater | Ordering::Equal) {
                    r == &self.first
                } else {
                    r == &self.second
                }
            }),
    {
        if self.first >= self.second {
            &self.first
        } else {
            &self.second
        }
    }
}

} // verus!
