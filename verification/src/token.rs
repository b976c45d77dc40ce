//! Tokens: the lexical units that the lexer produces and the parser consumes.

use vstd::prelude::*;

verus! {

/// The lexical category of a token.
#[derive(Clone, Copy, Debug, PartialEq, Eq, Structural)]
pub enum TokenType {
    Keyword,
    Identifier,
    ArithmeticOperator,
    RelationalOperator,
    LogicalOperator,
    AssignOperator,
    Number,
    CharLiteral,
    StringLiteral,
    Semicolon,
    Comma,
    Colon,
    Dot,
    LParenthesis,
    RParenthesis,
    LBracket,
    RBracket,
    RangeOperator,
}

/// A token as the contracts see it: its category and its text, character by
/// character.
pub struct TokenView {
    pub kind: TokenType,
    pub text: Seq<char>,
}

/// A lexical unit: a category and the literal text it was read from.
#[derive(Debug)]
pub struct Token {
    pub token_type: TokenType,
    pub value: String,
}

impl View for Token {
    type V = TokenView;

    open spec fn view(&self) -> TokenView {
        TokenView { kind: self.token_type, text: self.value@ }
    }
}

impl Clone for Token {
    fn clone(&self) -> (r: Token)
        ensures
            r@ == self@,
    {
        Token { token_type: self.token_type, value: self.value.clone() }
    }
}

/// The view of a token that may be absent.
pub open spec fn token_option_view(token: Option<Token>) -> Option<TokenView> {
    match token {
        Some(t) => Some(t@),
        None => None,
    }
}

/// The views of a run of tokens, in order.
pub open spec fn token_views(tokens: Seq<Token>) -> Seq<TokenView> {
    Seq::new(tokens.len(), |i: int| tokens[i]@)
}

impl Token {
    /// Whether the token has the given category and exactly the given text.
    pub fn is(&self, token_type: TokenType, value: &str) -> (r: bool)
        ensures
            r == (self@.kind == token_type && self@.text == value@),
    {
        self.token_type == token_type && crate::text::same_text(self.value.as_str(), value)
    }
}

} // verus!
