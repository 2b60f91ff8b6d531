//! Rendering the source of a `HelloMacro` implementation for a named type.
//! A derive front end parses the type's name out of its definition and
//! turns the text rendered here back into tokens.

use vstd::prelude::*;

verus! {

/// The source of the generated implementation for a type of the given
/// name: the name appears once after `for` and once inside the greeting.
pub open spec fn hello_macro_source(name: Seq<char>) -> Seq<char> {
    "impl HelloMacro for "@ + name
        + " { fn hello_macro() { println!(\"Hello, Macro! My name is {}!\", stringify!("@ + name
        + ")); } }"@
}

/// Renders the `HelloMacro` implementation for the type named `name`.
pub fn hello_macro_impl_source(name: &str) -> (r: String)
    ensures
        r@ == hello_macro_source(name@),
{
    let mut r = String::new();
    r.append("impl HelloMacro for ");
    r.append(name);
    r.append(" { fn hello_macro() { println!(\"Hello, Macro! My name is {}!\", stringify!(");
    r.append(name);
    r.append(")); } }");
    proof {
        assert(r@ =~= hello_macro_source(name@));
    }
    r
}

} // verus!
