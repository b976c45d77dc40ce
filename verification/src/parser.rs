//! The parser: recursive descent over the tokens, one function for each
//! rule of the grammar. It gives the parse tree of a whole program or the
//! first syntax error, and never goes on after an error.

use crate::grammar;
use crate::grammar::{Parsed, Partial, SyntaxError};
use crate::node::{leaves, Label, NodeType, ParseNode, Tree};
use crate::round_trip::law_a_program_covers_its_tokens;
use crate::token::{token_option_view, token_views, Token, TokenType, TokenView};
use vstd::prelude::*;

mod declarations;
mod expressions;
mod statements;

verus! {

/// A syntax error: what was expected, and the token that stood there
/// instead. There is no token where the input ended too early.
#[derive(Debug)]
pub struct ParseError {
    pub message: String,
    pub token: Option<Token>,
}

impl View for ParseError {
    type V = SyntaxError;

    open spec fn view(&self) -> SyntaxError {
        SyntaxError { message: self.message@, token: token_option_view(self.token) }
    }
}

/// What every rule returns.
pub type ParseResult = Result<ParseNode, ParseError>;

/// A cursor over the tokens of one input.
pub struct Parser {
    tokens: Vec<Token>,
    current: usize,
}

impl Parser {
    #[verifier::type_invariant]
    spec fn cursor_in_range(self) -> bool {
        self.current <= self.tokens.len()
    }

    /// The tokens of the input.
    pub closed spec fn input(&self) -> Seq<TokenView> {
        token_views(self.tokens@)
    }

    /// How many tokens have been taken.
    pub closed spec fn cursor(&self) -> int {
        self.current as int
    }

    /// What a rule has gathered once `node` holds its parts and the cursor
    /// stands where it does.
    spec fn gathered(&self, node: ParseNode) -> Partial {
        Partial { children: node@.children, next: self.current as int, error: None }
    }

    /// A rule is under way: the tokens are untouched, and the cursor has not
    /// moved backwards.
    spec fn in_progress(&self, pre: &Parser, node: ParseNode, label: Label) -> bool {
        &&& self.tokens == pre.tokens
        &&& pre.current <= self.current <= self.tokens.len()
        &&& node@.label == label
    }

    /// A rule is done as the grammar says: the tokens are untouched, and
    /// the result is the grammar's, with the cursor behind the tree.
    spec fn yields(&self, pre: &Parser, r: ParseResult, expected: Parsed) -> bool {
        &&& self.tokens == pre.tokens
        &&& match r {
            Ok(node) => {
                &&& expected == Ok::<(Tree, int), SyntaxError>((node@, self.current as int))
                &&& pre.current <= self.current <= self.tokens.len()
            },
            Err(e) => expected == Err::<(Tree, int), SyntaxError>(e@),
        }
    }

    /// A parser at the start of the given tokens.
    pub fn new(tokens: Vec<Token>) -> (r: Parser)
        ensures
            r.input() == token_views(tokens@),
            r.cursor() == 0,
    {
        Parser { tokens, current: 0 }
    }

    /// Parses the input from the cursor on as one whole program. The result
    /// is what the grammar gives for these tokens; and the leaves of a tree
    /// that comes back are, read in order, exactly the tokens that were
    /// parsed.
    pub fn parse(&mut self) -> (r: ParseResult)
        ensures
            final(self).input() == old(self).input(),
            match r {
                Ok(node) => {
                    &&& grammar::parse(old(self).input(), old(self).cursor()) == Ok::<
                        Tree,
                        SyntaxError,
                    >(node@)
                    &&& leaves(node@) == old(self).input().skip(old(self).cursor())
                    &&& final(self).cursor() == old(self).input().len()
                },
                Err(e) => grammar::parse(old(self).input(), old(self).cursor()) == Err::<
                    Tree,
                    SyntaxError,
                >(e@),
            },
    {
        proof {
            use_type_invariant(&*self);
            law_a_program_covers_its_tokens(self.input(), self.current as int);
        }
        let program_node = self.parse_program()?;
        if !self.is_at_end() {
            return Err(self.fail("Unexpected token after end of program."));
        }
        assert(old(self).input().subrange(old(self).cursor(), self.current as int)
            =~= old(self).input().skip(old(self).cursor()));
        Ok(program_node)
    }

    fn is_at_end(&self) -> (r: bool)
        ensures
            r == (self.current >= self.tokens.len()),
    {
        self.current >= self.tokens.len()
    }

    fn peek(&self) -> (r: &Token)
        requires
            self.current < self.tokens.len(),
        ensures
            r@ == self.input()[self.current as int],
    {
        &self.tokens[self.current]
    }

    fn advance(&mut self) -> (r: Token)
        requires
            old(self).current < old(self).tokens.len(),
        ensures
            final(self).tokens == old(self).tokens,
            final(self).current == old(self).current + 1,
            r@ == old(self).input()[old(self).current as int],
    {
        self.current = self.current + 1;
        self.tokens[self.current - 1].clone()
    }

    fn check(&self, token_type: &TokenType) -> (r: bool)
        ensures
            r == grammar::is_kind(self.input(), self.current as int, *token_type),
    {
        if self.is_at_end() {
            return false;
        }
        self.peek().token_type == *token_type
    }

    fn check_value(&self, token_type: &TokenType, value: &str) -> (r: bool)
        ensures
            r == grammar::is_word(self.input(), self.current as int, *token_type, value@),
    {
        if self.is_at_end() {
            return false;
        }
        self.peek().is(*token_type, value)
    }

    fn match_token(&mut self, token_type: &TokenType) -> (r: bool)
        ensures
            final(self).tokens == old(self).tokens,
            r == grammar::is_kind(old(self).input(), old(self).current as int, *token_type),
            final(self).current == if r {
                old(self).current + 1
            } else {
                old(self).current as int
            },
    {
        if self.check(token_type) {
            self.advance();
            true
        } else {
            false
        }
    }

    fn match_keyword(&mut self, value: &str) -> (r: bool)
        ensures
            final(self).tokens == old(self).tokens,
            r == grammar::is_keyword(old(self).input(), old(self).current as int, value@),
            final(self).current == if r {
                old(self).current + 1
            } else {
                old(self).current as int
            },
    {
        if self.check_value(&TokenType::Keyword, value) {
            self.advance();
            true
        } else {
            false
        }
    }

    /// The error that names what was expected where the cursor stands.
    fn fail(&self, message: &str) -> (e: ParseError)
        ensures
            Err::<(Tree, int), SyntaxError>(e@) == grammar::failure(
                self.input(),
                self.current as int,
                message@,
            ),
    {
        let token = if self.is_at_end() {
            None
        } else {
            Some(self.peek().clone())
        };
        ParseError { message: message.to_string(), token }
    }

    /// The token under the cursor as a leaf; the cursor moves behind it.
    fn take(&mut self) -> (r: ParseNode)
        requires
            old(self).current < old(self).tokens.len(),
        ensures
            final(self).yields(
                old(self),
                Ok(r),
                grammar::any_token(old(self).input(), old(self).current as int),
            ),
    {
        ParseNode::new_terminal(self.advance())
    }

    fn consume(&mut self, token_type: TokenType, error_message: &str) -> (r: ParseResult)
        ensures
            final(self).yields(
                old(self),
                r,
                grammar::token(
                    old(self).input(),
                    old(self).current as int,
                    token_type,
                    error_message@,
                ),
            ),
    {
        if self.check(&token_type) {
            Ok(self.take())
        } else {
            Err(self.fail(error_message))
        }
    }

    fn consume_keyword(&mut self, value: &str, error_message: &str) -> (r: ParseResult)
        ensures
            final(self).yields(
                old(self),
                r,
                grammar::keyword(
                    old(self).input(),
                    old(self).current as int,
                    value@,
                    error_message@,
                ),
            ),
    {
        if self.check_value(&TokenType::Keyword, value) {
            Ok(self.take())
        } else {
            Err(self.fail(error_message))
        }
    }

    fn previous(&self) -> (r: Token)
        requires
            0 < self.current <= self.tokens.len(),
        ensures
            r@ == self.input()[self.current - 1],
    {
        self.tokens[self.current - 1].clone()
    }

    fn parse_program(&mut self) -> (r: ParseResult)
        ensures
            final(self).yields(
                old(self),
                r,
                grammar::program(old(self).input(), old(self).current as int),
            ),
    {
        proof {
            use_type_invariant(&*self);
            reveal(grammar::program);
        }
        let mut node = ParseNode::new(NodeType::Program);
        node.add(self.parse_program_header()?);
        node.add(self.parse_declaration_part()?);
        node.add(self.parse_compound_statement()?);
        node.add(self.consume(TokenType::Dot, "Expected '.' at the end of the program.")?);
        Ok(node)
    }

    fn parse_program_header(&mut self) -> (r: ParseResult)
        ensures
            final(self).yields(
                old(self),
                r,
                grammar::program_header(old(self).input(), old(self).current as int),
            ),
    {
        proof {
            use_type_invariant(&*self);
            reveal(grammar::program_header);
        }
        let mut node = ParseNode::new(NodeType::ProgramHeader);
        node.add(self.consume_keyword("program", "Expected 'program' keyword.")?);
        node.add(self.consume(TokenType::Identifier, "Expected program name.")?);
        node.add(self.consume(TokenType::Semicolon, "Expected ';' after program name.")?);
        Ok(node)
    }

}

} // verus!
