//! Move semantics at a function boundary: a callee can hand a freshly owned
//! value back to its caller.

use vstd::prelude::*;

verus! {

/// Creates a string inside the callee and transfers its ownership out.
pub fn gives_ownership() -> (s: String)
    ensures
        s@ == "来自函数的字符串"@,
{
    "来自函数的字符串".to_owned()
}

} // verus!
