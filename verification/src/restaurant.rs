//! The front of house of a small restaurant: a menu, drinks, and the
//! greetings the staff give. Callers that want the greeting printed take the
//! returned text to their own output.

use vstd::prelude::*;

verus! {

/// The text with which guests are greeted.
pub open spec fn greeting() -> Seq<char> {
    "hiya!"@
}

/// A menu; whether it is the dinner menu is public, the name of the server
/// carrying it is not.
pub struct Menu {
    pub is_dinner: bool,
    #[allow(dead_code)]
    server_name: String,
}

/// The drinks on offer.
#[allow(non_camel_case_types)]
#[derive(Clone, Copy, Debug, PartialEq, Eq, Structural)]
pub enum Drinks {
    WATER,
    SODA,
    WINE,
}

/// A trait for types that can introduce themselves; implementations are
/// ordinarily generated from the type's name.
pub trait HelloMacro {
    fn hello_macro();
}

/// Produces the greeting a guest hears on arrival.
pub fn greet() -> (r: String)
    ensures
        r@ == greeting(),
{
    String::from_str("hiya!")
}

/// Puts a party on the waitlist. The list itself lives with whoever runs the
/// restaurant, so there is nothing to record here.
pub fn add_to_waitlist() {
}

/// Seats a party at a table and returns the greeting they are given.
pub fn seat_at_table() -> (r: String)
    ensures
        r@ == greeting(),
{
    greet()
}

/// Takes a party's order.
pub fn take_order() {
}

/// Serves an order.
pub fn serve_order() {
}

/// A visit from the guest's side: join the waitlist, get seated, and return
/// the greeting heard on the way in.
pub fn eat_at_restaurant() -> (r: String)
    ensures
        r@ == greeting(),
{
    add_to_waitlist();
    seat_at_table()
}

/// The default drink is water.
pub fn new_drink() -> (d: Drinks)
    ensures
        d == Drinks::WATER,
{
    Drinks::WATER
}

/// Greets by seating: the same words reach the guest.
pub fn call_greet() -> (r: String)
    ensures
        r@ == greeting(),
{
    seat_at_table()
}

} // verus!
