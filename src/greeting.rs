//! Constant greetings, exported under a native and a renamed name.
use vstd::prelude::*;

verus! {

/// The fixed greeting text.
pub open spec fn greeting_text() -> Seq<char> {
    "Hello, World!"@
}

/// Returns the fixed greeting.
pub fn hello_world() -> (r: String)
    ensures
        r@ == greeting_text(),
{
    String::from_str("Hello, World!")
}

/// Returns the fixed greeting; the same text as `hello_world`, exported under
/// a second name.
pub fn hello_world_rename() -> (r: String)
    ensures
        r@ == greeting_text(),
{
    String::from_str("Hello, World!")
}

} // verus!
