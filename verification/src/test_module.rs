//! A small group of message-producing operations with mixed visibility:
//! two public leaf operations, one private helper, and a public operation
//! that runs all three in a fixed order. Callers outside the module reach
//! the helper's message only through `run_tests`.
use vstd::prelude::*;

verus! {

/// The first public operation's message.
pub fn test1() -> (r: &'static str)
    ensures
        r@ == "Inside test_module::test1"@,
{
    "Inside test_module::test1"
}

/// The second public operation's message.
pub fn test2() -> (r: &'static str)
    ensures
        r@ == "Inside test_module::test2"@,
{
    "Inside test_module::test2"
}

/// The private helper's message; not reachable directly from outside.
fn helper() -> (r: &'static str)
    ensures
        r@ == "Inside test_module::helper"@,
{
    "Inside test_module::helper"
}

/// Runs the private helper and then the two public operations, in that
/// fixed order, and hands their three messages out in the same order.
pub fn run_tests() -> (r: Vec<&'static str>)
    ensures
        r@.len() == 3,
        r@[0]@ == "Inside test_module::helper"@,
        r@[1]@ == "Inside test_module::test1"@,
        r@[2]@ == "Inside test_module::test2"@,
{
    let mut lines: Vec<&'static str> = Vec::new();
    lines.push(helper());
    lines.push(test1());
    lines.push(test2());
    lines
}

} // verus!
