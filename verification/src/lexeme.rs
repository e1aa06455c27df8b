//! Terminals handed over by the lexer.

use vstd::prelude::*;

verus! {

/// An identifier.
#[derive(Clone, Debug, PartialEq, Eq, Hash, PartialOrd, Ord)]
pub struct Name(pub String);

/// A numeric literal, kept as its lexeme.
#[derive(Clone, Debug, PartialEq, Eq, Hash, PartialOrd, Ord)]
pub struct Numeral(pub String);

/// A string literal, kept as its lexeme.
#[derive(Clone, Debug, PartialEq, Eq, Hash, PartialOrd, Ord)]
pub struct LiteralString(pub String);

/// The terminal `...`.
#[derive(Clone, Copy, Debug, PartialEq, Eq, Hash, PartialOrd, Ord)]
pub struct Ellipsis;

impl View for Name {
    type V = Seq<char>;

    open spec fn view(&self) -> Seq<char> {
        self.0@
    }
}

impl View for Numeral {
    type V = Seq<char>;

    open spec fn view(&self) -> Seq<char> {
        self.0@
    }
}

impl View for LiteralString {
    type V = Seq<char>;

    open spec fn view(&self) -> Seq<char> {
        self.0@
    }
}

/// The characters of the implicit receiver parameter of a method.
pub open spec fn receiver_chars() -> Seq<char> {
    "self"@
}

impl Name {
    /// The identifier spelled by `name`.
    pub fn new<'input>(name: &'input str) -> (r: Name)
        ensures
            r@ == name@,
    {
        Name(name.to_owned())
    }

    /// The name `self`, which a method declaration binds implicitly.
    pub fn receiver() -> (r: Name)
        ensures
            r@ == receiver_chars(),
    {
        Name("self".to_owned())
    }
}

impl Numeral {
    /// The numeral whose lexeme is `text`.
    pub fn new(text: &str) -> (r: Numeral)
        ensures
            r@ == text@,
    {
        Numeral(text.to_owned())
    }
}

impl LiteralString {
    /// The string literal whose lexeme is `text`.
    pub fn new(text: &str) -> (r: LiteralString)
        ensures
            r@ == text@,
    {
        LiteralString(text.to_owned())
    }
}

} // verus!
