//! Exercises on traits: a function that a type and its trait both name, a
//! frame drawn around any text, and a wrapper that gives text to a list.

use vstd::prelude::*;
use vstd::string::StringExecFns;
use crate::text::{join, joined, repeat, repeated, signed_decimal, signed_digits};

verus! {

/// An animal knows what its young are called.
pub trait Animal {
    fn baby_name() -> String;
}

pub struct Dog;

impl Dog {
    /// What this dog's young are called by name.
    pub fn baby_name() -> (name: String)
        ensures
            name@ == "Spot"@,
    {
        String::from_str("Spot")
    }
}

impl Animal for Dog {
    /// What the young of any dog are called.
    fn baby_name() -> (name: String)
        ensures
            name@ == "puppy"@,
    {
        String::from_str("puppy")
    }
}

/// A point of the plane.
pub struct Point {
    pub x: i32,
    pub y: i32,
}

impl Point {
    /// The point as text: both coordinates in round brackets.
    pub open spec fn text_of(self) -> Seq<char> {
        "("@ + signed_digits(self.x as int) + ", "@ + signed_digits(self.y as int) + ")"@
    }

    pub fn text(&self) -> (text: String)
        ensures
            text@ == self.text_of(),
    {
        let mut text = String::from_str("(");
        text.append(signed_decimal(self.x).as_str());
        text.append(", ");
        text.append(signed_decimal(self.y).as_str());
        text.append(")");
        text
    }
}

/// The five lines of a frame of asterisks around a text that is `width`
/// columns wide.
pub open spec fn outline_of(text: Seq<char>, width: nat) -> Seq<Seq<char>> {
    seq![
        repeated("*"@, width + 4),
        "*"@ + repeated(" "@, width + 2) + "*"@,
        "* "@ + text + " *"@,
        "*"@ + repeated(" "@, width + 2) + "*"@,
        repeated("*"@, width + 4),
    ]
}

/// Draws a frame of asterisks around `text`, as wide as `text` has bytes.
pub fn outline(text: &str) -> (lines: Vec<String>)
    requires
        text.len() + 4 <= usize::MAX,
    ensures
        lines.deep_view() == outline_of(text@, text.len() as nat),
{
    let width = text.len();
    let mut blank = String::from_str("*");
    blank.append(repeat(" ", width + 2).as_str());
    blank.append("*");
    let mut middle = String::from_str("* ");
    middle.append(text);
    middle.append(" *");
    let mut lines: Vec<String> = Vec::new();
    lines.push(repeat("*", width + 4));
    lines.push(blank.clone());
    lines.push(middle);
    lines.push(blank);
    lines.push(repeat("*", width + 4));
    assert(lines.deep_view() =~= outline_of(text@, text.len() as nat));
    lines
}

/// A list of texts that can be written out as one.
pub struct Wrapper(pub Vec<String>);

impl Wrapper {
    /// The list as text: its items, separated by commas, in square brackets.
    pub open spec fn text_of(self) -> Seq<char> {
        "["@ + joined(self.0.deep_view(), ", "@) + "]"@
    }

    pub fn text(&self) -> (text: String)
        ensures
            text@ == self.text_of(),
    {
        let mut text = String::from_str("[");
        text.append(join(&self.0, ", ").as_str());
        text.append("]");
        text
    }
}

} // verus!
