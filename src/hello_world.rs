//! Greeting addressed to a caller-supplied name.
//!
//! This unit exports its own `hello_world`, which takes a name; it never
//! shares a binding table with the argument-less greeting of `greeting`.
use vstd::prelude::*;

verus! {

/// The greeting for `name`: `Hello, ` then the name, then `!`.
pub open spec fn greeting_for(name: Seq<char>) -> Seq<char> {
    "Hello, "@ + name + "!"@
}

/// Greets `a` by name.
pub fn hello_world(a: String) -> (r: String)
    ensures
        r@ == greeting_for(a@),
{
    let head = String::from_str("Hello, ");
    let with_name = head.concat(a.as_str());
    with_name.concat("!")
}

} // verus!
