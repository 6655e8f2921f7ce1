//! A small library of verified building blocks: greeting and text helpers at
//! the crate root, and a concurrency core — tasks, a FIFO channel, and
//! lock-guarded shared state — modelled as explicit state machines.

use vstd::prelude::*;
use vstd::string::StrSliceExecFns;
use vstd::string::StringSliceAdditionalSpecFns;

pub mod borrowing;
pub mod channel;
pub mod closures;
pub mod counter;
pub mod decimal;
pub mod error_handling;
pub mod errors;
pub mod lifetime;
pub mod ownership;
pub mod strings;
pub mod structs_enums;
pub mod task;
pub mod traits_generics;

use crate::decimal::dec_rep;
use crate::strings::lower_of;
use crate::strings::lowercase;
use crate::strings::push_char;

verus! {

/// Builds the greeting `Hello, <name>!`.
pub fn hello(name: &str) -> (r: String)
    ensures
        r@ == "Hello, "@ + name@ + "!"@,
{
    let mut r = "Hello, ".to_owned();
    r.append(name);
    r.append("!");
    r
}

/// Builds the welcome `Hey, <name>! Welcome!`.
pub fn greet(name: &str) -> (r: String)
    ensures
        r@ == "Hey, "@ + name@ + "! Welcome!"@,
{
    let mut r = "Hey, ".to_owned();
    r.append(name);
    r.append("! Welcome!");
    r
}

/// Builds the farewell `Goodbye, <name>! See you next time!`.
pub fn farewell(name: &str) -> (r: String)
    ensures
        r@ == "Goodbye, "@ + name@ + "! See you next time!"@,
{
    let mut r = "Goodbye, ".to_owned();
    r.append(name);
    r.append("! See you next time!");
    r
}

/// The sum of a byte sequence.
pub open spec fn byte_sum(s: Seq<u8>) -> int
    decreases s.len(),
{
    if s.len() == 0 {
        0
    } else {
        byte_sum(s.drop_last()) + s.last()
    }
}

/// A number between 0 and 99 derived from a name: the sum of its bytes,
/// modulo 100.
pub fn lucky_number(name: &str) -> (n: u32)
    ensures
        n == byte_sum(name.spec_bytes()) % 100,
        n < 100,
{
    let bytes = name.as_bytes_vec();
    let mut acc: u32 = 0;
    let mut i: usize = 0;
    while i < bytes.len()
        invariant
            i <= bytes@.len(),
            bytes@ == name.spec_bytes(),
            acc == byte_sum(bytes@.take(i as int)) % 100,
            acc < 100,
        decreases bytes@.len() - i,
    {
        proof {
            assert(bytes@.take(i + 1).drop_last() =~= bytes@.take(i as int));
            assert(bytes@.take(i + 1).last() == bytes@[i as int]);
            vstd::arithmetic::div_mod::lemma_add_mod_noop(
                byte_sum(bytes@.take(i as int)),
                bytes@[i as int] as int,
                100,
            );
            vstd::arithmetic::div_mod::lemma_mod_bound(bytes@[i as int] as int, 100);
            vstd::arithmetic::div_mod::lemma_mod_bound(
                byte_sum(bytes@.take(i as int)) + bytes@[i as int],
                100,
            );
        }
        acc = (acc + bytes[i] as u32) % 100;
        i = i + 1;
    }
    proof {
        assert(bytes@.take(bytes@.len() as int) =~= bytes@);
    }
    acc
}

/// A name with its characters in reverse order.
pub fn reverse_name(name: &str) -> (r: String)
    ensures
        r@ == name@.reverse(),
{
    let len = name.unicode_len();
    let mut r = String::new();
    let mut i: usize = 0;
    while i < len
        invariant
            i <= len == name@.len(),
            r@.len() == i,
            forall|j: int| 0 <= j < i ==> r@[j] == name@[name@.len() - 1 - j],
        decreases len - i,
    {
        let c = name.get_char(len - 1 - i);
        push_char(&mut r, c);
        i = i + 1;
    }
    proof {
        assert(r@ =~= name@.reverse());
    }
    r
}

/// Whether a character is a vowel, in either case.
pub open spec fn is_vowel(c: char) -> bool {
    c == 'a' || c == 'e' || c == 'i' || c == 'o' || c == 'u' || c == 'A' || c == 'E' || c == 'I'
        || c == 'O' || c == 'U'
}

/// How many characters of a sequence are vowels.
pub open spec fn vowel_count(s: Seq<char>) -> int
    decreases s.len(),
{
    if s.len() == 0 {
        0
    } else {
        vowel_count(s.drop_last()) + (if is_vowel(s.last()) {
            1int
        } else {
            0int
        })
    }
}

/// Counts the vowels of a string, upper or lower case.
pub fn count_vowels(s: &str) -> (n: usize)
    ensures
        n == vowel_count(s@),
{
    let len = s.unicode_len();
    let mut n: usize = 0;
    let mut i: usize = 0;
    while i < len
        invariant
            i <= len == s@.len(),
            n <= i,
            n == vowel_count(s@.take(i as int)),
        decreases len - i,
    {
        proof {
            assert(s@.take(i + 1).drop_last() =~= s@.take(i as int));
            assert(s@.take(i + 1).last() == s@[i as int]);
        }
        let c = s.get_char(i);
        if c == 'a' || c == 'e' || c == 'i' || c == 'o' || c == 'u' || c == 'A' || c == 'E' || c
            == 'I' || c == 'O' || c == 'U' {
            n = n + 1;
        }
        i = i + 1;
    }
    proof {
        assert(s@.take(s@.len() as int) =~= s@);
    }
    n
}

/// The classic counting game: multiples of three say `Fizz`, multiples of
/// five say `Buzz`, multiples of both say `FizzBuzz`, and anything else says
/// itself in decimal.
pub fn fizzbuzz(n: u32) -> (r: String)
    ensures
        n % 3 == 0 && n % 5 == 0 ==> r@ == "FizzBuzz"@,
        n % 3 == 0 && n % 5 != 0 ==> r@ == "Fizz"@,
        n % 3 != 0 && n % 5 == 0 ==> r@ == "Buzz"@,
        n % 3 != 0 && n % 5 != 0 ==> r@ == dec_rep(n as nat),
{
    if n % 3 == 0 && n % 5 == 0 {
        "FizzBuzz".to_owned()
    } else if n % 3 == 0 {
        "Fizz".to_owned()
    } else if n % 5 == 0 {
        "Buzz".to_owned()
    } else {
        crate::decimal::u32_to_string(n)
    }
}

/// Whether a character sequence reads the same forwards and backwards.
pub open spec fn palindromic(s: Seq<char>) -> bool {
    forall|i: int| 0 <= i < s.len() ==> #[trigger] s[i] == s[s.len() - 1 - i]
}

/// Whether a string is a palindrome, ignoring case.
pub fn is_palindrome(s: &str) -> (r: bool)
    ensures
        r == palindromic(lower_of(s@)),
{
    let lower = lowercase(s);
    let ls = lower.as_str();
    let len = ls.unicode_len();
    let mut i: usize = 0;
    while i < len / 2
        invariant
            i <= len == ls@.len(),
            ls@ == lower_of(s@),
            forall|j: int| 0 <= j < i ==> #[trigger] ls@[j] == ls@[ls@.len() - 1 - j],
        decreases len / 2 - i,
    {
        if ls.get_char(i) != ls.get_char(len - 1 - i) {
            proof {
                assert(!palindromic(lower_of(s@)));
            }
            return false;
        }
        i = i + 1;
    }
    proof {
        assert forall|k: int| 0 <= k < ls@.len() implies #[trigger] ls@[k] == ls@[ls@.len() - 1
            - k] by {
            if k >= len / 2 {
                let j = ls@.len() - 1 - k;
                if j < len / 2 {
                    assert(ls@[j] == ls@[ls@.len() - 1 - j]);
                }
            }
        }
    }
    true
}

} // verus!
