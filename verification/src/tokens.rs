//! The lexical tokens that the parsers read.

use vstd::prelude::*;
use vstd::string::*;

verus! {

/// The brackets around a group of tokens.
#[derive(Clone, Copy, PartialEq, Eq, Structural, Debug)]
pub enum Delimiter {
    Parenthesis,
    Brace,
    Bracket,
    Invisible,
}

/// One lexical token of a configuration or of a declaration.
#[derive(Debug)]
pub enum Token {
    /// An identifier or a keyword.
    Ident(String),
    /// A single punctuation character.
    Punct(char),
    /// A literal, as it is written in the source.
    Literal(String),
    /// A bracketed group: its brackets, its text with the brackets, and the
    /// tokens between them.
    Group { delimiter: Delimiter, text: String, stream: Vec<Token> },
}

/// The text of a token as it is written in the source.
pub open spec fn token_text(token: Token) -> Seq<char> {
    match token {
        Token::Ident(name) => name@,
        Token::Punct(ch) => seq![ch],
        Token::Literal(text) => text@,
        Token::Group { text, .. } => text@,
    }
}

/// `String::from` on a character: the result is the string made of that one
/// character.
#[verifier::external_body]
fn char_to_string(ch: char) -> (text: String)
    ensures
        text@ == seq![ch],
{
    String::from(ch)
}

impl Token {
    /// The text of the token as it is written in the source.
    pub fn text(&self) -> (text: String)
        ensures
            text@ == token_text(*self),
    {
        match self {
            Token::Ident(name) => name.clone(),
            Token::Punct(ch) => char_to_string(*ch),
            Token::Literal(text) => text.clone(),
            Token::Group { text, .. } => text.clone(),
        }
    }
}

} // verus!
