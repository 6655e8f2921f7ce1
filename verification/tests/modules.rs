use basics::borrowing::calculate_length;
use basics::borrowing::change;
use basics::borrowing::first_word;
use basics::closures::apply_filter;
use basics::closures::make_multiplier;
use basics::decimal::parse_u32;
use basics::decimal::u32_to_string;
use basics::error_handling::parse_age;
use basics::error_handling::process_user_input;
use basics::error_handling::AppError;
use basics::lifetime::longest;
use basics::lifetime::ImportantExcerpt;
use basics::ownership::gives_ownership;
use basics::strings::str_eq;
use basics::structs_enums::find_user;
use basics::structs_enums::User;
use basics::traits_generics::create_summarizable;
use basics::traits_generics::Article;
use basics::traits_generics::Pair;
use basics::traits_generics::Summary;
use basics::traits_generics::Tweet;

#[test]
fn calculate_length_counts_bytes() {
    assert_eq!(calculate_length("hello"), 5);
    assert_eq!(calculate_length(""), 0);
    assert_eq!(calculate_length("你好"), 6);
}

#[test]
fn change_appends_suffix() {
    let mut s = String::from("hello");
    change(&mut s);
    assert_eq!(s, "hello, world!");
}

#[test]
fn first_word_stops_at_first_space() {
    assert_eq!(first_word("hello world rust"), "hello");
    assert_eq!(first_word("single"), "single");
    assert_eq!(first_word(" leading"), "");
    assert_eq!(first_word(""), "");
}

#[test]
fn lifetime_first_word_matches() {
    assert_eq!(basics::lifetime::first_word("hello world"), "hello");
}

#[test]
fn longest_picks_longer_or_second() {
    assert_eq!(longest("长字符串", "短"), "长字符串");
    assert_eq!(longest("abc", "defgh"), "defgh");
    assert_eq!(longest("tie", "pie"), "pie");
}

#[test]
fn excerpt_takes_first_sentence() {
    let novel = String::from("在很久很久以前。有一个程序员...");
    let excerpt = ImportantExcerpt::new(&novel);
    assert_eq!(excerpt.part, "在很久很久以前");
    let no_separator = ImportantExcerpt::new("no separator here");
    assert_eq!(no_separator.part, "no separator here");
}

#[test]
fn gives_ownership_hands_out_a_string() {
    assert_eq!(gives_ownership(), "来自函数的字符串");
}

#[test]
fn user_new_info_deactivate() {
    let mut user = User::new("Dede", 25);
    assert_eq!(user.info(), "Dede, 25岁, 活跃");
    user.deactivate();
    assert_eq!(user.info(), "Dede, 25岁, 不活跃");
}

#[test]
fn find_user_knows_only_alice() {
    let found = find_user("alice").expect("alice should be found");
    assert_eq!(found.name, "Alice");
    assert_eq!(found.age, 30);
    assert!(found.active);
    assert!(find_user("bob").is_none());
}

#[test]
fn parse_age_accepts_and_rejects() {
    assert_eq!(parse_age("25"), Ok(25));
    assert_eq!(parse_age("+25"), Ok(25));
    assert_eq!(parse_age("150"), Ok(150));
    assert_eq!(
        parse_age("200"),
        Err(AppError::ValidationError(String::from("年龄不能超过150")))
    );
    assert_eq!(
        parse_age("abc"),
        Err(AppError::ParseError(String::from("不是有效的数字")))
    );
    assert_eq!(
        parse_age(""),
        Err(AppError::ParseError(String::from("不是有效的数字")))
    );
}

#[test]
fn process_user_input_combines_checks() {
    assert_eq!(process_user_input("Dede", "25"), Ok(String::from("Dede 今年 25 岁")));
    assert!(matches!(process_user_input("Dede", "abc"), Err(AppError::ParseError(_))));
    assert!(matches!(process_user_input("Dede", "200"), Err(AppError::ValidationError(_))));
    assert!(matches!(process_user_input("", "25"), Err(AppError::NotFound(_))));
}

#[test]
fn app_error_messages() {
    assert_eq!(
        AppError::NotFound(String::from("用户名为空")).message(),
        "未找到: 用户名为空"
    );
    assert_eq!(
        AppError::ParseError(String::from("x")).message(),
        "解析错误: x"
    );
    assert_eq!(
        AppError::ValidationError(String::from("y")).message(),
        "验证错误: y"
    );
}

#[test]
fn parse_u32_exact_values() {
    assert_eq!(parse_u32("0"), Some(0));
    assert_eq!(parse_u32("4294967295"), Some(u32::MAX));
    assert_eq!(parse_u32("4294967296"), None);
    assert_eq!(parse_u32("+7"), Some(7));
    assert_eq!(parse_u32("+"), None);
    assert_eq!(parse_u32("-1"), None);
    assert_eq!(parse_u32("12a"), None);
}

#[test]
fn u32_to_string_renders_decimal() {
    assert_eq!(u32_to_string(0), "0");
    assert_eq!(u32_to_string(7), "7");
    assert_eq!(u32_to_string(430), "430");
    assert_eq!(u32_to_string(u32::MAX), "4294967295");
}

#[test]
fn str_eq_compares_characters() {
    assert!(str_eq("same", "same"));
    assert!(!str_eq("same", "sane"));
    assert!(!str_eq("short", "shorter"));
    assert!(str_eq("", ""));
}

#[test]
fn apply_filter_keeps_approved_elements() {
    let numbers = vec![1, 2, 3, 4, 5, 6, 7, 8, 9, 10];
    let evens = apply_filter(&numbers, |x| x % 2 == 0);
    assert_eq!(evens, vec![2, 4, 6, 8, 10]);
    let big = apply_filter(&numbers, |x| x > 5);
    assert_eq!(big, vec![6, 7, 8, 9, 10]);
}

#[test]
fn make_multiplier_multiplies() {
    let doubler = make_multiplier(2);
    let tripler = make_multiplier(3);
    assert_eq!(doubler.apply(5), 10);
    assert_eq!(tripler.apply(5), 15);
}

#[test]
fn summaries_of_article_and_tweet() {
    let article = Article {
        title: String::from("Rust 入门"),
        content: String::from("Rust 是一门系统编程语言"),
    };
    assert_eq!(article.summarize(), "《Rust 入门》: Rust 是一门系统编程语言");
    let tweet = Tweet { user: String::from("dede"), text: String::from("学 Rust 真有意思！") };
    assert_eq!(tweet.summarize(), "@dede: 学 Rust 真有意思！");
}

#[test]
fn preview_truncates_to_twenty_characters() {
    let tweet = Tweet { user: String::from("a"), text: String::from("bb") };
    assert_eq!(tweet.preview(), "@a: bb...");
    let long = Tweet {
        user: String::from("someone"),
        text: String::from("a very long message that goes on and on"),
    };
    assert_eq!(long.preview(), "@someone: a very lon...");
}

#[test]
fn create_summarizable_is_a_tweet() {
    let item = create_summarizable();
    assert_eq!(item.summarize(), "@rustlang: Rust 1.93 released!");
}

#[test]
fn larger_prefers_the_first_on_ties() {
    let pair = Pair { first: 10, second: 25 };
    assert_eq!(*pair.larger(), 25);
    let tie = Pair { first: 4, second: 4 };
    assert_eq!(*tie.larger(), 4);
    let first = Pair { first: 9, second: 1 };
    assert_eq!(*first.larger(), 9);
}
