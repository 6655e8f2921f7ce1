//! Explicit error values: a small error type, a fallible parser with a
//! validation rule, and error propagation from one fallible step to the next.

use vstd::prelude::*;

use crate::decimal::dec_rep;
use crate::decimal::parse_u32;
use crate::decimal::parsed_u32;
use crate::decimal::parses_as_u32;

verus! {

/// What can go wrong while handling user input.
#[derive(Debug, PartialEq, Eq)]
pub enum AppError {
    /// The input is not a number.
    ParseError(String),
    /// The number is out of the accepted range.
    ValidationError(String),
    /// The named thing does not exist.
    NotFound(String),
}

impl AppError {
    /// A human-readable description of the error.
    pub fn message(&self) -> (r: String)
        ensures
            self matches AppError::ParseError(m) ==> r@ == "解析错误: "@ + m@,
            self matches AppError::ValidationError(m) ==> r@ == "验证错误: "@ + m@,
            self matches AppError::NotFound(m) ==> r@ == "未找到: "@ + m@,
    {
        match self {
            AppError::ParseError(m) => {
                let mut r = "解析错误: ".to_owned();
                r.append(m.as_str());
                r
            },
            AppError::ValidationError(m) => {
                let mut r = "验证错误: ".to_owned();
                r.append(m.as_str());
                r
            },
            AppError::NotFound(m) => {
                let mut r = "未找到: ".to_owned();
                r.append(m.as_str());
                r
            },
        }
    }
}

/// Reads an age from a decimal literal and validates it: ages above 150 are
/// rejected, anything unparseable is a parse error.
pub fn parse_age(input: &str) -> (r: Result<u32, AppError>)
    ensures
        parses_as_u32(input@) && parsed_u32(input@) <= 150 ==> (r matches Ok(age) && age
            == parsed_u32(input@)),
        parses_as_u32(input@) && parsed_u32(input@) > 150 ==> (r matches Err(
            AppError::ValidationError(m),
        ) && m@ == "年龄不能超过150"@),
        !parses_as_u32(input@) ==> (r matches Err(AppError::ParseError(m)) && m@
            == "不是有效的数字"@),
{
    match parse_u32(input) {
        Some(age) => {
            if age > 150 {
                Err(AppError::ValidationError("年龄不能超过150".to_owned()))
            } else {
                Ok(age)
            }
        },
        None => Err(AppError::ParseError("不是有效的数字".to_owned())),
    }
}

/// Validates a user name and an age literal in turn, propagating the first
/// error, and describes the user on success.
pub fn process_user_input(name: &str, age_str: &str) -> (r: Result<String, AppError>)
    ensures
        name@.len() == 0 ==> (r matches Err(AppError::NotFound(m)) && m@ == "用户名为空"@),
        name@.len() > 0 && parses_as_u32(age_str@) && parsed_u32(age_str@) <= 150 ==> (r matches Ok(
            msg,
        ) && msg@ == name@ + " 今年 "@ + dec_rep(parsed_u32(age_str@) as nat) + " 岁"@),
        name@.len() > 0 && parses_as_u32(age_str@) && parsed_u32(age_str@) > 150 ==> (r matches Err(
            AppError::ValidationError(m),
        ) && m@ == "年龄不能超过150"@),
        name@.len() > 0 && !parses_as_u32(age_str@) ==> (r matches Err(AppError::ParseError(m))
            && m@ == "不是有效的数字"@),
{
    if name.is_empty() {
        return Err(AppError::NotFound("用户名为空".to_owned()));
    }
    match parse_age(age_str) {
        Ok(age) => {
            let mut msg = name.to_owned();
            msg.append(" 今年 ");
            let age_text = crate::decimal::u32_to_string(age);
            msg.append(age_text.as_str());
            msg.append(" 岁");
            Ok(msg)
        },
        Err(e) => Err(e),
    }
}

} // verus!
