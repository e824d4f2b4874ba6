use vstd::prelude::*;

verus! {

/// The generalized, recursive token shape used for building trees on top of
/// the combinator core: a token is an ordered list of child tokens, an
/// integer, a word, or empty.  Children are owned, so the tree's ownership
/// and lifetime stay explicit.
#[derive(Debug, PartialEq, Eq)]
pub enum Token {
    /// An inner node: an ordered list of child tokens.
    Node(Vec<Token>),
    /// An integer leaf.
    Number(i64),
    /// A word leaf.
    Word(String),
    /// A token with no content.
    Empty,
}

impl Token {
    /// A node holding exactly the given child.
    pub fn from_one(child: Token) -> (t: Token)
        ensures
            t matches Token::Node(cs) && cs@ =~= seq![child],
    {
        let mut children: Vec<Token> = Vec::new();
        children.push(child);
        Token::Node(children)
    }

    /// A node holding the given ordered children.
    pub fn from_many(children: Vec<Token>) -> (t: Token)
        ensures
            t == Token::Node(children),
    {
        Token::Node(children)
    }
}

} // verus!
