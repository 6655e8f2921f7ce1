use basics::count_vowels;
use basics::farewell;
use basics::fizzbuzz;
use basics::greet;
use basics::hello;
use basics::is_palindrome;
use basics::lucky_number;
use basics::reverse_name;

#[test]
fn test_hello_with_name() {
    assert_eq!(hello("World"), "Hello, World!");
}

#[test]
fn test_hello_with_empty_name() {
    assert_eq!(hello(""), "Hello, !");
}

#[test]
fn test_hello_with_chinese_name() {
    assert_eq!(hello("Rust学习者"), "Hello, Rust学习者!");
}

#[test]
fn test_greet_with_name() {
    assert_eq!(greet("World"), "Hey, World! Welcome!");
}

#[test]
fn test_greet_with_empty_name() {
    assert_eq!(greet(""), "Hey, ! Welcome!");
}

#[test]
fn test_greet_with_chinese_name() {
    assert_eq!(greet("Rust学习者"), "Hey, Rust学习者! Welcome!");
}

#[test]
fn test_farewell_with_name() {
    assert_eq!(farewell("World"), "Goodbye, World! See you next time!");
}

#[test]
fn test_farewell_with_empty_name() {
    assert_eq!(farewell(""), "Goodbye, ! See you next time!");
}

#[test]
fn test_farewell_with_chinese_name() {
    assert_eq!(farewell("Rust学习者"), "Goodbye, Rust学习者! See you next time!");
}

#[test]
fn test_lucky_number_with_name() {
    // R(82) + u(117) + s(115) + t(116) = 430, 430 % 100 = 30
    assert_eq!(lucky_number("Rust"), 30);
}

#[test]
fn test_lucky_number_with_empty_name() {
    assert_eq!(lucky_number(""), 0);
}

#[test]
fn test_lucky_number_range() {
    let n = lucky_number("anything");
    assert!(n < 100);
}

#[test]
fn test_lucky_number_single_char() {
    // 'A' = 65, 65 % 100 = 65
    assert_eq!(lucky_number("A"), 65);
}

#[test]
fn test_reverse_name() {
    assert_eq!(reverse_name("Rust"), "tsuR");
}

#[test]
fn test_reverse_name_empty() {
    assert_eq!(reverse_name(""), "");
}

#[test]
fn test_reverse_name_chinese() {
    assert_eq!(reverse_name("你好世界"), "界世好你");
}

#[test]
fn test_count_vowels_basic() {
    assert_eq!(count_vowels("hello"), 2);
}

#[test]
fn test_count_vowels_uppercase() {
    assert_eq!(count_vowels("AEIOU"), 5);
}

#[test]
fn test_count_vowels_mixed_case() {
    assert_eq!(count_vowels("Hello Rust"), 3);
}

#[test]
fn test_count_vowels_no_vowels() {
    assert_eq!(count_vowels("bcdfg"), 0);
}

#[test]
fn test_count_vowels_empty() {
    assert_eq!(count_vowels(""), 0);
}

#[test]
fn test_count_vowels_all_vowels() {
    assert_eq!(count_vowels("aEiOu"), 5);
}

#[test]
fn test_is_palindrome_basic() {
    assert!(is_palindrome("racecar"));
}

#[test]
fn test_is_palindrome_ignore_case() {
    assert!(is_palindrome("Racecar"));
}

#[test]
fn test_is_palindrome_single_char() {
    assert!(is_palindrome("a"));
}

#[test]
fn test_is_palindrome_empty() {
    assert!(is_palindrome(""));
}

#[test]
fn test_is_palindrome_not_palindrome() {
    assert!(!is_palindrome("hello"));
}

#[test]
fn test_is_palindrome_even_length() {
    assert!(is_palindrome("abba"));
}

#[test]
fn test_is_palindrome_mixed_case() {
    assert!(is_palindrome("MadAm"));
}

#[test]
fn test_fizzbuzz_fizz() {
    assert_eq!(fizzbuzz(3), "Fizz");
    assert_eq!(fizzbuzz(6), "Fizz");
    assert_eq!(fizzbuzz(9), "Fizz");
}

#[test]
fn test_fizzbuzz_buzz() {
    assert_eq!(fizzbuzz(5), "Buzz");
    assert_eq!(fizzbuzz(10), "Buzz");
    assert_eq!(fizzbuzz(20), "Buzz");
}

#[test]
fn test_fizzbuzz_fizzbuzz() {
    assert_eq!(fizzbuzz(15), "FizzBuzz");
    assert_eq!(fizzbuzz(30), "FizzBuzz");
    assert_eq!(fizzbuzz(45), "FizzBuzz");
}

#[test]
fn test_fizzbuzz_number() {
    assert_eq!(fizzbuzz(1), "1");
    assert_eq!(fizzbuzz(2), "2");
    assert_eq!(fizzbuzz(4), "4");
    assert_eq!(fizzbuzz(7), "7");
}

#[test]
fn fizzbuzz_large_number() {
    assert_eq!(fizzbuzz(98), "98");
    assert_eq!(fizzbuzz(1234567891), "1234567891");
}

#[test]
fn reverse_name_round_trip() {
    assert_eq!(reverse_name(&reverse_name("palindrome")), "palindrome");
}
