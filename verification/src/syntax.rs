//! The shape of a syntax tree, as far as name binding is concerned.

use vstd::prelude::*;

verus! {

/// A node of the syntax tree.
#[derive(Debug, Hash)]
pub enum SyntaxNode {
    /// A use of a name.
    Ident(String),
    /// A code or content block: names bound in it end with it.
    Block(Vec<SyntaxNode>),
    /// A closure literal: its parameters and its body.
    Closure(Vec<Param>, Box<SyntaxNode>),
    /// A binding of a name, with an optional initializer.
    Let(String, Option<Box<SyntaxNode>>),
    /// A loop over `iter` that binds `value`, and `key` where there is one,
    /// in `body`.
    For { key: Option<String>, value: String, iter: Box<SyntaxNode>, body: Box<SyntaxNode> },
    /// An import of names from the module that `path` evaluates to.
    Import(Box<SyntaxNode>, Imports),
    /// Any other construct, with its children in source order.
    Other(Vec<SyntaxNode>),
}

/// A parameter of a closure literal.
#[derive(Debug, Hash)]
pub enum Param {
    /// A positional parameter.
    Pos(String),
    /// A named parameter with the expression of its default value.
    Named(String, SyntaxNode),
    /// A parameter that takes the arguments that no other takes.
    Sink(String),
}

/// What an import brings into scope.
#[derive(Debug, Hash)]
pub enum Imports {
    /// Everything the module exports; no name is known beforehand.
    Wildcard,
    /// The listed names.
    Items(Vec<String>),
}

impl Param {
    /// The name that the parameter binds.
    pub open spec fn spec_name(self) -> Seq<char> {
        match self {
            Param::Pos(n) => n@,
            Param::Named(n, _) => n@,
            Param::Sink(n) => n@,
        }
    }

    /// The name that the parameter binds.
    pub fn name(&self) -> (r: &String)
        ensures
            r@ == self.spec_name(),
    {
        match self {
            Param::Pos(n) => n,
            Param::Named(n, _) => n,
            Param::Sink(n) => n,
        }
    }
}

} // verus!
