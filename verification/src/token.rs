//! The tokens of a layout description.
//!
//! A description reaches the library as a flat sequence of tokens: a group in
//! brackets is its opening token, its content and its closing token. Before
//! the grammar is applied each token is read: a literal for its value, an
//! identifier for whether it can be a name. That turns a [`Token`] into a
//! [`Lexeme`].

use crate::syntax::identifier;
use crate::syntax::int_literal_value;
use crate::syntax::is_identifier;
use crate::syntax::literal_value;
use vstd::prelude::*;

verus! {

/// The kind of bracket around a group of tokens.
#[derive(Clone, Copy, Debug, PartialEq, Eq, Structural)]
pub enum Delimiter {
    Parenthesis,
    Brace,
    Bracket,
}

/// A token as the lexer of Rust hands it out.
#[derive(Clone, Debug, PartialEq, Eq)]
pub enum Token {
    /// An identifier or a keyword, with its text.
    Ident(String),
    /// One punctuation character, and whether the next token follows it
    /// without anything in between.
    Punct(char, bool),
    /// A literal, with its text as it was written.
    Literal(String),
    /// The opening bracket of a group.
    Open(Delimiter),
    /// The closing bracket of a group.
    Close(Delimiter),
}

/// A token that has been read.
#[derive(Clone, Debug, PartialEq, Eq)]
pub enum Lexeme {
    /// An identifier that can be a name, with its text.
    Ident(String),
    /// An identifier that cannot be a name, with its text.
    Word(String),
    /// One punctuation character, and whether the next token follows it
    /// without anything in between.
    Punct(char, bool),
    /// An integer literal, with its value.
    Int(u128),
    /// A literal that is no integer, or one whose value is out of reach.
    Literal,
    /// The opening bracket of a group.
    Open(Delimiter),
    /// The closing bracket of a group.
    Close(Delimiter),
}

impl Token {
    /// The lexeme of a token of which two things are given: the integer
    /// value of its text, if it is a literal and has one, and whether its
    /// text can be a name, if it is an identifier.
    pub open spec fn classified(self, value: Option<u128>, name: bool) -> Lexeme {
        match self {
            Token::Ident(text) => if name {
                Lexeme::Ident(text)
            } else {
                Lexeme::Word(text)
            },
            Token::Punct(c, joint) => Lexeme::Punct(c, joint),
            Token::Literal(_) => match value {
                Some(v) => Lexeme::Int(v),
                None => Lexeme::Literal,
            },
            Token::Open(d) => Lexeme::Open(d),
            Token::Close(d) => Lexeme::Close(d),
        }
    }

    /// The integer value of the token: that of its text where it is a
    /// literal, none otherwise.
    pub open spec fn value(self) -> Option<u128> {
        match self {
            Token::Literal(text) => int_literal_value(text@),
            _ => None,
        }
    }

    /// Whether the token is an identifier that can be a name.
    pub open spec fn is_name(self) -> bool {
        match self {
            Token::Ident(text) => is_identifier(text@),
            _ => false,
        }
    }

    /// The lexeme of the token.
    pub open spec fn lexeme(self) -> Lexeme {
        self.classified(self.value(), self.is_name())
    }

    /// Computes [`Token::classified`].
    pub fn classify(&self, value: Option<u128>, name: bool) -> (lexeme: Lexeme)
        ensures
            lexeme == self.classified(value, name),
    {
        match self {
            Token::Ident(text) => if name {
                Lexeme::Ident(text.clone())
            } else {
                Lexeme::Word(text.clone())
            },
            Token::Punct(c, joint) => Lexeme::Punct(*c, *joint),
            Token::Literal(_) => match value {
                Some(v) => Lexeme::Int(v),
                None => Lexeme::Literal,
            },
            Token::Open(d) => Lexeme::Open(*d),
            Token::Close(d) => Lexeme::Close(*d),
        }
    }

    /// Reads the token and computes [`Token::lexeme`].
    pub fn read(&self) -> (lexeme: Lexeme)
        ensures
            lexeme == self.lexeme(),
    {
        let value = match self {
            Token::Literal(text) => match literal_value(text.as_str()) {
                Ok(value) => Some(value),
                Err(_) => None,
            },
            _ => None,
        };
        let name = match self {
            Token::Ident(text) => match identifier(text.as_str()) {
                Ok(_) => true,
                Err(_) => false,
            },
            _ => false,
        };
        self.classify(value, name)
    }
}

/// The lexemes of a token sequence, token by token.
pub open spec fn lexemes_of(tokens: Seq<Token>) -> Seq<Lexeme> {
    Seq::new(tokens.len(), |i: int| tokens[i].lexeme())
}

/// Reads every token of a sequence.
pub fn resolve(tokens: &Vec<Token>) -> (lexemes: Vec<Lexeme>)
    ensures
        lexemes@ == lexemes_of(tokens@),
{
    let mut lexemes: Vec<Lexeme> = Vec::new();
    let mut i: usize = 0;
    while i < tokens.len()
        invariant
            i <= tokens.len(),
            lexemes@.len() == i,
            forall|k: int| 0 <= k < i ==> lexemes@[k] == tokens@[k].lexeme(),
        decreases tokens.len() - i,
    {
        let lexeme = tokens[i].read();
        lexemes.push(lexeme);
        i = i + 1;
    }
    assert(lexemes@ =~= lexemes_of(tokens@));
    lexemes
}

} // verus!
