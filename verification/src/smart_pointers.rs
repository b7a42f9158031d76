//! A box of one's own: a value behind a wrapper that hands it out by
//! reference.

use std::ops::Deref;
use vstd::prelude::*;
use vstd::string::StringExecFns;

verus! {

/// Holds one value.
pub struct MyBox<T>(pub T);

impl<T> MyBox<T> {
    pub fn new(x: T) -> (boxed: MyBox<T>)
        ensures
            boxed.0 == x,
    {
        MyBox(x)
    }
}

impl<T> Deref for MyBox<T> {
    type Target = T;

    fn deref(&self) -> (inner: &T)
        ensures
            *inner == self.0,
    {
        &self.0
    }
}

/// The greeting for `name`.
pub open spec fn greeting_of(name: Seq<char>) -> Seq<char> {
    "Hello, "@ + name + "!"@
}

/// Greets `name`.
pub fn hello(name: &str) -> (greeting: String)
    ensures
        greeting@ == greeting_of(name@),
{
    let mut greeting = String::from_str("Hello, ");
    greeting.append(name);
    greeting.append("!");
    greeting
}

} // verus!
