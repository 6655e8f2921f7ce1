//! A struct with a constructor, a reading method, and a mutating method, and
//! an `Option`-returning lookup.

use vstd::prelude::*;

use crate::decimal::dec_rep;
use crate::strings::str_eq;

verus! {

/// A user with a name, an age, and an activity flag.
pub struct User {
    /// The user's name.
    pub name: String,
    /// The user's age in years.
    pub age: u32,
    /// Whether the account is active.
    pub active: bool,
}

impl User {
    /// A fresh, active user.
    pub fn new(name: &str, age: u32) -> (u: User)
        ensures
            u.name@ == name@,
            u.age == age,
            u.active,
    {
        User { name: name.to_owned(), age, active: true }
    }

    /// A one-line description: name, age, and activity.
    pub fn info(&self) -> (r: String)
        ensures
            r@ == self.name@ + ", "@ + dec_rep(self.age as nat) + "岁, "@ + (if self.active {
                "活跃"@
            } else {
                "不活跃"@
            }),
    {
        let mut r = self.name.clone();
        r.append(", ");
        let age_text = crate::decimal::u32_to_string(self.age);
        r.append(age_text.as_str());
        r.append("岁, ");
        if self.active {
            r.append("活跃");
        } else {
            r.append("不活跃");
        }
        r
    }

    /// Marks the user inactive; nothing else changes.
    pub fn deactivate(&mut self)
        ensures
            final(self).name@ == old(self).name@,
            final(self).age == old(self).age,
            !final(self).active,
    {
        self.active = false;
    }
}

/// Looks a user up by name: only `alice` is known.
pub fn find_user(name: &str) -> (r: Option<User>)
    ensures
        name@ == "alice"@ ==> (r matches Some(u) && u.name@ == "Alice"@ && u.age == 30 && u.active),
        name@ != "alice"@ ==> r is None,
{
    if str_eq(name, "alice") {
        Some(User::new("Alice", 30))
    } else {
        None
    }
}

} // verus!
