//! The grammar of the language, as a function from a run of tokens to the
//! parse tree or the one syntax error that parsing it gives.
//!
//! Every rule takes the tokens and a position and says what stands there:
//! the tree of the rule and the position behind it, or the error met first.
//! A rule is written as a row of steps. Each step attaches one part to what
//! the rule has gathered so far (a `Partial`), and once a step has failed,
//! the steps after it change nothing. Nothing here runs: the parser is
//! proved to return exactly what these functions say.

use crate::node::{leaf, Label, Tree};
use crate::token::{TokenType, TokenView};
use vstd::prelude::*;

verus! {

/// A syntax error: what was expected, and the token that stood there
/// instead, if the input had not ended.
pub struct SyntaxError {
    pub message: Seq<char>,
    pub token: Option<TokenView>,
}

/// What a rule gives at a position: its tree and the position behind it, or
/// an error.
pub type Parsed = Result<(Tree, int), SyntaxError>;

/// The parts that a rule has gathered, the position it has reached, and the
/// error that stopped it, if one did.
pub struct Partial {
    pub children: Seq<Tree>,
    pub next: int,
    pub error: Option<SyntaxError>,
}

/// How many tokens are left at a position.
pub open spec fn remaining(ts: Seq<TokenView>, pos: int) -> nat {
    if pos < ts.len() {
        (ts.len() - pos) as nat
    } else {
        0
    }
}

/// The token at a position, if the input has not ended there.
pub open spec fn token_at(ts: Seq<TokenView>, pos: int) -> Option<TokenView> {
    if 0 <= pos < ts.len() {
        Some(ts[pos])
    } else {
        None
    }
}

/// Whether a token of the given category stands at the position.
pub open spec fn is_kind(ts: Seq<TokenView>, pos: int, kind: TokenType) -> bool {
    0 <= pos < ts.len() && ts[pos].kind == kind
}

/// Whether a token of the given category and text stands at the position.
pub open spec fn is_word(ts: Seq<TokenView>, pos: int, kind: TokenType, text: Seq<char>) -> bool {
    0 <= pos < ts.len() && ts[pos].kind == kind && ts[pos].text == text
}

/// Whether the given keyword stands at the position.
pub open spec fn is_keyword(ts: Seq<TokenView>, pos: int, word: Seq<char>) -> bool {
    is_word(ts, pos, TokenType::Keyword, word)
}

/// The error that names what was expected at a position.
pub open spec fn failure(ts: Seq<TokenView>, pos: int, message: Seq<char>) -> Parsed {
    Err(SyntaxError { message, token: token_at(ts, pos) })
}

/// Stands where a step is not reached because an earlier one failed.
pub open spec fn skipped() -> Parsed {
    Err(SyntaxError { message: Seq::empty(), token: None })
}

/// The token at the position, whatever it is, as a leaf.
pub open spec fn any_token(ts: Seq<TokenView>, pos: int) -> Parsed {
    if 0 <= pos < ts.len() {
        Ok((leaf(ts[pos]), pos + 1))
    } else {
        skipped()
    }
}

/// A token of the given category as a leaf, or the error with the given
/// message.
pub open spec fn token(ts: Seq<TokenView>, pos: int, kind: TokenType, message: Seq<char>) -> Parsed {
    if is_kind(ts, pos, kind) {
        any_token(ts, pos)
    } else {
        failure(ts, pos, message)
    }
}

/// The given keyword as a leaf, or the error with the given message.
pub open spec fn keyword(ts: Seq<TokenView>, pos: int, word: Seq<char>, message: Seq<char>) -> Parsed {
    if is_keyword(ts, pos, word) {
        any_token(ts, pos)
    } else {
        failure(ts, pos, message)
    }
}

/// A rule that has gathered nothing yet.
pub open spec fn begin(pos: int) -> Partial {
    Partial { children: Seq::empty(), next: pos, error: None }
}

impl Partial {
    /// Whether no step has failed.
    pub open spec fn ok(self) -> bool {
        self.error is None
    }

    /// The rule after one more part. A part never ends before it began, so
    /// the position does not move backwards.
    pub open spec fn attach(self, part: Parsed) -> Partial {
        if self.ok() {
            match part {
                Ok((tree, next)) => Partial {
                    children: self.children.push(tree),
                    next: if next >= self.next {
                        next
                    } else {
                        self.next
                    },
                    error: None,
                },
                Err(e) => Partial { error: Some(e), ..self },
            }
        } else {
            self
        }
    }

    /// The rule after the token at its position was taken as a part.
    pub open spec fn take(self, ts: Seq<TokenView>) -> Partial {
        self.attach(any_token(ts, self.next))
    }

    /// The rule after a token of the given category was taken, if one stands
    /// there.
    pub open spec fn take_if_kind(self, ts: Seq<TokenView>, kind: TokenType) -> Partial {
        if self.ok() && is_kind(ts, self.next, kind) {
            self.take(ts)
        } else {
            self
        }
    }

    /// The rule after the given keyword was taken, if it stands there.
    pub open spec fn take_if_keyword(self, ts: Seq<TokenView>, word: Seq<char>) -> Partial {
        if self.ok() && is_keyword(ts, self.next, word) {
            self.take(ts)
        } else {
            self
        }
    }

    /// The rule after a token of the given category, which must stand there.
    pub open spec fn expect(self, ts: Seq<TokenView>, kind: TokenType, message: Seq<char>) -> Partial {
        self.attach(token(ts, self.next, kind, message))
    }

    /// The rule after the given keyword, which must stand there.
    pub open spec fn expect_keyword(self, ts: Seq<TokenView>, word: Seq<char>, message: Seq<char>) -> Partial {
        self.attach(keyword(ts, self.next, word, message))
    }

    /// The tree of the rule, or the error that stopped it.
    pub open spec fn finish(self, label: Label) -> Parsed {
        match self.error {
            Some(e) => Err(e),
            None => Ok((Tree { label, children: self.children }, self.next)),
        }
    }
}

/// program-header: `program` identifier `;`
#[verifier::opaque]
pub open spec fn program_header(ts: Seq<TokenView>, pos: int) -> Parsed {
    let p = begin(pos);
    let p = p.expect_keyword(ts, "program"@, "Expected 'program' keyword."@);
    let p = p.expect(ts, TokenType::Identifier, "Expected program name."@);
    let p = p.expect(ts, TokenType::Semicolon, "Expected ';' after program name."@);
    p.finish(Label::ProgramHeader)
}

/// program: program-header declaration-part compound-statement `.`
#[verifier::opaque]
pub open spec fn program(ts: Seq<TokenView>, pos: int) -> Parsed {
    let p = begin(pos);
    let p = p.attach(program_header(ts, p.next));
    let p = p.attach(declaration_part(ts, p.next));
    let p = p.attach(compound_statement(ts, p.next));
    let p = p.expect(ts, TokenType::Dot, "Expected '.' at the end of the program."@);
    p.finish(Label::Program)
}

/// What parsing a whole input gives, from the given position on: the tree of
/// the program where the input is one program and nothing more, and else the
/// first error.
pub open spec fn parse(ts: Seq<TokenView>, pos: int) -> Result<Tree, SyntaxError> {
    match program(ts, pos) {
        Ok((tree, next)) => if next >= ts.len() {
            Ok(tree)
        } else {
            Err(
                SyntaxError {
                    message: "Unexpected token after end of program."@,
                    token: token_at(ts, next),
                },
            )
        },
        Err(e) => Err(e),
    }
}

/// declaration-part: constant declarations, then type declarations, then
/// variable declarations, then subprogram declarations. These are four runs
/// in this order, each of any length, and be it none. A keyword of an earlier
/// run that stands behind a later one does not belong to the declaration
/// part: the part ends in front of it.
#[verifier::opaque]
pub open spec fn declaration_part(ts: Seq<TokenView>, pos: int) -> Parsed
    decreases remaining(ts, pos), 4nat,
{
    let p = const_sections(ts, begin(pos));
    let p = type_sections(ts, p);
    let p = var_sections(ts, p);
    let p = if p.ok() && p.next >= pos {
        subprogram_sections(ts, p)
    } else {
        p
    };
    p.finish(Label::DeclarationPart)
}

/// The run of constant declarations: one for every `konstanta` that stands
/// next.
#[verifier::opaque]
pub open spec fn const_sections(ts: Seq<TokenView>, p: Partial) -> Partial
    decreases remaining(ts, p.next),
{
    if p.ok() && is_keyword(ts, p.next, "konstanta"@) {
        let q = p.attach(const_declaration(ts, p.next));
        if q.ok() && q.next > p.next {
            const_sections(ts, q)
        } else {
            q
        }
    } else {
        p
    }
}

/// The run of type declarations: one for every `tipe` that stands next.
#[verifier::opaque]
pub open spec fn type_sections(ts: Seq<TokenView>, p: Partial) -> Partial
    decreases remaining(ts, p.next),
{
    if p.ok() && is_keyword(ts, p.next, "tipe"@) {
        let q = p.attach(type_declaration(ts, p.next));
        if q.ok() && q.next > p.next {
            type_sections(ts, q)
        } else {
            q
        }
    } else {
        p
    }
}

/// The run of variable declarations: one for every `variabel` that stands
/// next.
#[verifier::opaque]
pub open spec fn var_sections(ts: Seq<TokenView>, p: Partial) -> Partial
    decreases remaining(ts, p.next),
{
    if p.ok() && is_keyword(ts, p.next, "variabel"@) {
        let q = p.attach(var_declaration(ts, p.next));
        if q.ok() && q.next > p.next {
            var_sections(ts, q)
        } else {
            q
        }
    } else {
        p
    }
}

/// The run of subprogram declarations: one for every `prosedur` or `fungsi`
/// that stands next.
#[verifier::opaque]
pub open spec fn subprogram_sections(ts: Seq<TokenView>, p: Partial) -> Partial
    decreases remaining(ts, p.next), 3nat,
{
    if p.ok() && (is_keyword(ts, p.next, "prosedur"@) || is_keyword(ts, p.next, "fungsi"@)) {
        let q = p.attach(subprogram_declaration(ts, p.next));
        if q.ok() && q.next > p.next {
            subprogram_sections(ts, q)
        } else {
            q
        }
    } else {
        p
    }
}

/// const-declaration: `konstanta` then one or more of: identifier `=`
/// expression `;`
#[verifier::opaque]
pub open spec fn const_declaration(ts: Seq<TokenView>, pos: int) -> Parsed {
    let p = begin(pos).expect_keyword(ts, "konstanta"@, "Expected 'konstanta' keyword."@);
    const_items(ts, p).finish(Label::ConstDeclaration)
}

/// One constant and those that follow it: another follows wherever an
/// identifier stands behind the `;`.
#[verifier::opaque]
pub open spec fn const_items(ts: Seq<TokenView>, p: Partial) -> Partial
    decreases remaining(ts, p.next),
{
    let q = p.expect(ts, TokenType::Identifier, "Expected constant identifier."@);
    let q = q.expect(ts, TokenType::RelationalOperator, "Expected '=' in constant declaration."@);
    let q = q.attach(expression(ts, q.next));
    let q = q.expect(ts, TokenType::Semicolon, "Expected ';' after constant declaration."@);
    if q.ok() && is_kind(ts, q.next, TokenType::Identifier) {
        const_items(ts, q)
    } else {
        q
    }
}

/// type-declaration: `tipe` then one or more of: identifier `=` type `;`
#[verifier::opaque]
pub open spec fn type_declaration(ts: Seq<TokenView>, pos: int) -> Parsed {
    let p = begin(pos).expect_keyword(ts, "tipe"@, "Expected 'tipe' keyword."@);
    type_items(ts, p).finish(Label::TypeDeclaration)
}

/// One type definition and those that follow it.
#[verifier::opaque]
pub open spec fn type_items(ts: Seq<TokenView>, p: Partial) -> Partial
    decreases remaining(ts, p.next),
{
    let q = p.expect(ts, TokenType::Identifier, "Expected type identifier."@);
    let q = q.expect(ts, TokenType::RelationalOperator, "Expected '=' in type declaration."@);
    let q = q.attach(type_(ts, q.next));
    let q = q.expect(ts, TokenType::Semicolon, "Expected ';' after type declaration."@);
    if q.ok() && is_kind(ts, q.next, TokenType::Identifier) {
        type_items(ts, q)
    } else {
        q
    }
}

/// var-declaration: `variabel` then one or more of: identifier-list `:`
/// type `;`
#[verifier::opaque]
pub open spec fn var_declaration(ts: Seq<TokenView>, pos: int) -> Parsed {
    let p = begin(pos).expect_keyword(ts, "variabel"@, "Expected 'variabel' keyword."@);
    var_items(ts, p).finish(Label::VarDeclaration)
}

/// One group of variables and those that follow it.
#[verifier::opaque]
pub open spec fn var_items(ts: Seq<TokenView>, p: Partial) -> Partial
    decreases remaining(ts, p.next),
{
    let q = p.attach(identifier_list(ts, p.next));
    let q = q.expect(ts, TokenType::Colon, "Expected ':' after identifier list."@);
    let q = q.attach(type_(ts, q.next));
    let q = q.expect(ts, TokenType::Semicolon, "Expected ';' after variable declaration."@);
    if q.ok() && is_kind(ts, q.next, TokenType::Identifier) {
        var_items(ts, q)
    } else {
        q
    }
}

/// identifier-list: identifier, then any number of: `,` identifier
#[verifier::opaque]
pub open spec fn identifier_list(ts: Seq<TokenView>, pos: int) -> Parsed {
    let p = begin(pos).expect(ts, TokenType::Identifier, "Expected identifier."@);
    more_identifiers(ts, p).finish(Label::IdentifierList)
}

/// The identifiers that follow, each behind a comma.
#[verifier::opaque]
pub open spec fn more_identifiers(ts: Seq<TokenView>, p: Partial) -> Partial
    decreases remaining(ts, p.next),
{
    if p.ok() && is_kind(ts, p.next, TokenType::Comma) {
        let q = p.take(ts).expect(ts, TokenType::Identifier, "Expected identifier after ','."@);
        if q.ok() {
            more_identifiers(ts, q)
        } else {
            q
        }
    } else {
        p
    }
}

/// Whether one of the four predefined type names stands at the position.
pub open spec fn is_scalar_keyword(ts: Seq<TokenView>, pos: int) -> bool {
    is_keyword(ts, pos, "integer"@) || is_keyword(ts, pos, "real"@) || is_keyword(
        ts,
        pos,
        "boolean"@,
    ) || is_keyword(ts, pos, "char"@)
}

/// type: an array type, a record type, a predefined type name or the name
/// of a declared type.
#[verifier::opaque]
pub open spec fn type_(ts: Seq<TokenView>, pos: int) -> Parsed
    decreases remaining(ts, pos), 2nat,
{
    let p = begin(pos);
    if is_keyword(ts, pos, "larik"@) {
        p.attach(array_type(ts, pos)).finish(Label::Type)
    } else if is_keyword(ts, pos, "rekaman"@) {
        p.attach(record_type(ts, pos)).finish(Label::Type)
    } else if is_scalar_keyword(ts, pos) || is_kind(ts, pos, TokenType::Identifier) {
        p.take(ts).finish(Label::Type)
    } else {
        failure(ts, pos, "Expected type name."@)
    }
}

/// array-type: `larik` `[` range, any number of `,` range, `]` `dari` type
#[verifier::opaque]
pub open spec fn array_type(ts: Seq<TokenView>, pos: int) -> Parsed
    decreases remaining(ts, pos), 1nat,
{
    let p = begin(pos).expect_keyword(ts, "larik"@, "Expected 'larik' keyword."@);
    let p = p.expect(ts, TokenType::LBracket, "Expected '[' after 'larik'."@);
    let p = p.attach(range(ts, p.next));
    let p = more_ranges(ts, p);
    let p = p.expect(ts, TokenType::RBracket, "Expected ']' after range."@);
    let p = p.expect_keyword(ts, "dari"@, "Expected 'dari' keyword."@);
    let p = p.attach(
        if p.ok() && p.next > pos {
            type_(ts, p.next)
        } else {
            skipped()
        },
    );
    p.finish(Label::ArrayType)
}

/// The ranges that follow, each behind a comma.
#[verifier::opaque]
pub open spec fn more_ranges(ts: Seq<TokenView>, p: Partial) -> Partial
    decreases remaining(ts, p.next),
{
    if p.ok() && is_kind(ts, p.next, TokenType::Comma) {
        let q = p.take(ts);
        let q = q.attach(range(ts, q.next));
        if q.ok() {
            more_ranges(ts, q)
        } else {
            q
        }
    } else {
        p
    }
}

/// range: expression `..` expression
#[verifier::opaque]
pub open spec fn range(ts: Seq<TokenView>, pos: int) -> Parsed {
    let p = begin(pos).attach(expression(ts, pos));
    let p = p.expect(ts, TokenType::RangeOperator, "Expected '..' in range."@);
    let p = p.attach(expression(ts, p.next));
    p.finish(Label::Range)
}

/// record-type: `rekaman`, fields, `selesai`
#[verifier::opaque]
pub open spec fn record_type(ts: Seq<TokenView>, pos: int) -> Parsed
    decreases remaining(ts, pos), 1nat,
{
    let p = begin(pos).expect_keyword(ts, "rekaman"@, "Expected 'rekaman' keyword."@);
    let p = if p.ok() {
        record_fields(ts, p)
    } else {
        p
    };
    let p = p.expect_keyword(ts, "selesai"@, "Expected 'selesai' keyword."@);
    p.finish(Label::RecordType)
}

/// The fields of a record up to its `selesai`: groups of identifier-list
/// `:` type, with a `;` between two groups where one is written.
#[verifier::opaque]
pub open spec fn record_fields(ts: Seq<TokenView>, p: Partial) -> Partial
    decreases remaining(ts, p.next), 0nat,
{
    if !p.ok() || is_keyword(ts, p.next, "selesai"@) {
        p
    } else {
        let q = p.attach(identifier_list(ts, p.next));
        let q = q.expect(ts, TokenType::Colon, "Expected ':' after field identifiers."@);
        let q = q.attach(
            if q.ok() {
                type_(ts, q.next)
            } else {
                skipped()
            },
        );
        if !q.ok() || is_keyword(ts, q.next, "selesai"@) {
            q
        } else {
            record_fields(ts, q.take_if_kind(ts, TokenType::Semicolon))
        }
    }
}

/// subprogram-declaration: a procedure or a function.
#[verifier::opaque]
pub open spec fn subprogram_declaration(ts: Seq<TokenView>, pos: int) -> Parsed
    decreases remaining(ts, pos), 2nat,
{
    if is_keyword(ts, pos, "prosedur"@) {
        begin(pos).attach(procedure_declaration(ts, pos)).finish(Label::SubprogramDeclaration)
    } else if is_keyword(ts, pos, "fungsi"@) {
        begin(pos).attach(function_declaration(ts, pos)).finish(Label::SubprogramDeclaration)
    } else {
        failure(ts, pos, "Expected 'prosedur' or 'fungsi' keyword."@)
    }
}

/// procedure-declaration: `prosedur` identifier, parameters where a `(`
/// follows, `;` declaration-part compound-statement `;`
#[verifier::opaque]
pub open spec fn procedure_declaration(ts: Seq<TokenView>, pos: int) -> Parsed
    decreases remaining(ts, pos), 1nat,
{
    let p = begin(pos).expect_keyword(ts, "prosedur"@, "Expected 'prosedur' keyword."@);
    let p = p.expect(ts, TokenType::Identifier, "Expected procedure name."@);
    let p = if p.ok() && is_kind(ts, p.next, TokenType::LParenthesis) {
        p.attach(formal_parameter_list(ts, p.next))
    } else {
        p
    };
    let p = p.expect(ts, TokenType::Semicolon, "Expected ';' after procedure header."@);
    let p = p.attach(
        if p.ok() {
            declaration_part(ts, p.next)
        } else {
            skipped()
        },
    );
    let p = p.attach(compound_statement(ts, p.next));
    let p = p.expect(ts, TokenType::Semicolon, "Expected ';' after procedure body."@);
    p.finish(Label::ProcedureDeclaration)
}

/// function-declaration: `fungsi` identifier, parameters where a `(`
/// follows, `:` type `;` declaration-part compound-statement `;`
#[verifier::opaque]
pub open spec fn function_declaration(ts: Seq<TokenView>, pos: int) -> Parsed
    decreases remaining(ts, pos), 1nat,
{
    let p = begin(pos).expect_keyword(ts, "fungsi"@, "Expected 'fungsi' keyword."@);
    let p = p.expect(ts, TokenType::Identifier, "Expected function name."@);
    let p = if p.ok() && is_kind(ts, p.next, TokenType::LParenthesis) {
        p.attach(formal_parameter_list(ts, p.next))
    } else {
        p
    };
    let p = p.expect(ts, TokenType::Colon, "Expected ':' after function parameters."@);
    let p = p.attach(type_(ts, p.next));
    let p = p.expect(ts, TokenType::Semicolon, "Expected ';' after function header."@);
    let p = p.attach(
        if p.ok() {
            declaration_part(ts, p.next)
        } else {
            skipped()
        },
    );
    let p = p.attach(compound_statement(ts, p.next));
    let p = p.expect(ts, TokenType::Semicolon, "Expected ';' after function body."@);
    p.finish(Label::FunctionDeclaration)
}

/// One group of formal parameters: `variabel` where it is written, then
/// identifier-list `:` type
pub open spec fn parameter_group(ts: Seq<TokenView>, p: Partial) -> Partial {
    let q = p.take_if_keyword(ts, "variabel"@);
    let q = q.attach(identifier_list(ts, q.next));
    let q = q.expect(ts, TokenType::Colon, "Expected ':' after parameter identifiers."@);
    q.attach(type_(ts, q.next))
}

/// formal-parameter-list: `(` group, any number of `;` group, `)`
#[verifier::opaque]
pub open spec fn formal_parameter_list(ts: Seq<TokenView>, pos: int) -> Parsed {
    let p = begin(pos).expect(ts, TokenType::LParenthesis, "Expected '(' to start parameter list."@);
    let p = parameter_group(ts, p);
    let p = more_parameter_groups(ts, p);
    let p = p.expect(ts, TokenType::RParenthesis, "Expected ')' to end parameter list."@);
    p.finish(Label::FormalParameterList)
}

/// The groups of formal parameters that follow, each behind a `;`.
#[verifier::opaque]
pub open spec fn more_parameter_groups(ts: Seq<TokenView>, p: Partial) -> Partial
    decreases remaining(ts, p.next),
{
    if p.ok() && is_kind(ts, p.next, TokenType::Semicolon) {
        let q = parameter_group(ts, p.take(ts));
        if q.ok() {
            more_parameter_groups(ts, q)
        } else {
            q
        }
    } else {
        p
    }
}

/// compound-statement: `mulai` statement-list `selesai`
#[verifier::opaque]
pub open spec fn compound_statement(ts: Seq<TokenView>, pos: int) -> Parsed
    decreases remaining(ts, pos), 1nat,
{
    let p = begin(pos).expect_keyword(ts, "mulai"@, "Expected 'mulai' keyword."@);
    let p = p.attach(
        if p.ok() {
            statement_list(ts, p.next)
        } else {
            skipped()
        },
    );
    let p = p.expect_keyword(ts, "selesai"@, "Expected 'selesai' keyword."@);
    p.finish(Label::CompoundStatement)
}

/// statement-list: nothing before a `selesai`, and else a statement and any
/// number of: `;` statement. A `;` just before the `selesai` is taken too.
#[verifier::opaque]
pub open spec fn statement_list(ts: Seq<TokenView>, pos: int) -> Parsed
    decreases remaining(ts, pos), 3nat,
{
    let p = begin(pos);
    if is_keyword(ts, pos, "selesai"@) {
        p.finish(Label::StatementList)
    } else {
        let p = p.attach(statement(ts, pos));
        let p = if p.ok() {
            more_statements(ts, p)
        } else {
            p
        };
        p.finish(Label::StatementList)
    }
}

/// The statements that follow, each behind a `;`.
#[verifier::opaque]
pub open spec fn more_statements(ts: Seq<TokenView>, p: Partial) -> Partial
    decreases remaining(ts, p.next), 0nat,
{
    if p.ok() && is_kind(ts, p.next, TokenType::Semicolon) {
        let q = p.take(ts);
        if is_keyword(ts, q.next, "selesai"@) {
            q
        } else {
            let q = q.attach(statement(ts, q.next));
            if q.ok() {
                more_statements(ts, q)
            } else {
                q
            }
        }
    } else {
        p
    }
}

/// statement: chosen by the token it starts with. An identifier starts an
/// assignment where `:=` follows it, and a call otherwise. Any other token
/// starts the empty statement, which takes nothing.
#[verifier::opaque]
pub open spec fn statement(ts: Seq<TokenView>, pos: int) -> Parsed
    decreases remaining(ts, pos), 2nat,
{
    if is_keyword(ts, pos, "jika"@) {
        if_statement(ts, pos)
    } else if is_keyword(ts, pos, "selama"@) {
        while_statement(ts, pos)
    } else if is_keyword(ts, pos, "untuk"@) {
        for_statement(ts, pos)
    } else if is_keyword(ts, pos, "ulangi"@) {
        repeat_statement(ts, pos)
    } else if is_keyword(ts, pos, "mulai"@) {
        compound_statement(ts, pos)
    } else if is_kind(ts, pos, TokenType::Identifier) {
        if is_kind(ts, pos + 1, TokenType::AssignOperator) {
            assignment_statement(ts, pos)
        } else {
            procedure_or_function_call(ts, pos)
        }
    } else {
        begin(pos).finish(Label::StatementList)
    }
}

/// assignment-statement: identifier `:=` expression
#[verifier::opaque]
pub open spec fn assignment_statement(ts: Seq<TokenView>, pos: int) -> Parsed {
    let p = begin(pos).expect(ts, TokenType::Identifier, "Expected identifier."@);
    let p = p.expect(ts, TokenType::AssignOperator, "Expected ':=' operator."@);
    let p = p.attach(expression(ts, p.next));
    p.finish(Label::AssignmentStatement)
}

/// if-statement: `jika` expression `maka` statement, and `selain_itu`
/// statement where it is written.
#[verifier::opaque]
pub open spec fn if_statement(ts: Seq<TokenView>, pos: int) -> Parsed
    decreases remaining(ts, pos), 1nat,
{
    let p = begin(pos).expect_keyword(ts, "jika"@, "Expected 'jika' keyword."@);
    let p = p.attach(expression(ts, p.next));
    let p = p.expect_keyword(ts, "maka"@, "Expected 'maka' keyword."@);
    let p = p.attach(
        if p.ok() {
            statement(ts, p.next)
        } else {
            skipped()
        },
    );
    let p = if p.ok() && is_keyword(ts, p.next, "selain_itu"@) {
        let q = p.take(ts);
        q.attach(statement(ts, q.next))
    } else {
        p
    };
    p.finish(Label::IfStatement)
}

/// while-statement: `selama` expression `lakukan` statement
#[verifier::opaque]
pub open spec fn while_statement(ts: Seq<TokenView>, pos: int) -> Parsed
    decreases remaining(ts, pos), 1nat,
{
    let p = begin(pos).expect_keyword(ts, "selama"@, "Expected 'selama' keyword."@);
    let p = p.attach(expression(ts, p.next));
    let p = p.expect_keyword(ts, "lakukan"@, "Expected 'lakukan' keyword."@);
    let p = p.attach(
        if p.ok() {
            statement(ts, p.next)
        } else {
            skipped()
        },
    );
    p.finish(Label::WhileStatement)
}

/// for-statement: `untuk` identifier `:=` expression, `ke` or `turun_ke`,
/// expression `lakukan` statement
#[verifier::opaque]
pub open spec fn for_statement(ts: Seq<TokenView>, pos: int) -> Parsed
    decreases remaining(ts, pos), 1nat,
{
    let p = begin(pos).expect_keyword(ts, "untuk"@, "Expected 'untuk' keyword."@);
    let p = p.expect(ts, TokenType::Identifier, "Expected loop variable."@);
    let p = p.expect(ts, TokenType::AssignOperator, "Expected ':=' operator."@);
    let p = p.attach(expression(ts, p.next));
    let p = p.attach(
        if is_keyword(ts, p.next, "ke"@) || is_keyword(ts, p.next, "turun_ke"@) {
            any_token(ts, p.next)
        } else {
            failure(ts, p.next, "Expected 'ke' or 'turun_ke' keyword."@)
        },
    );
    let p = p.attach(expression(ts, p.next));
    let p = p.expect_keyword(ts, "lakukan"@, "Expected 'lakukan' keyword."@);
    let p = p.attach(
        if p.ok() {
            statement(ts, p.next)
        } else {
            skipped()
        },
    );
    p.finish(Label::ForStatement)
}

/// repeat-statement: `ulangi`, statements, `sampai` expression
#[verifier::opaque]
pub open spec fn repeat_statement(ts: Seq<TokenView>, pos: int) -> Parsed
    decreases remaining(ts, pos), 1nat,
{
    let p = begin(pos).expect_keyword(ts, "ulangi"@, "Expected 'ulangi' keyword."@);
    let p = if p.ok() {
        repeat_body(ts, p)
    } else {
        p
    };
    let p = p.expect_keyword(ts, "sampai"@, "Expected 'sampai' keyword."@);
    let p = p.attach(expression(ts, p.next));
    p.finish(Label::RepeatStatement)
}

/// The statements of a repeat loop up to its `sampai`, with a `;` between
/// two of them where one is written. The row also ends where a statement
/// and the `;` behind it took no token at all: what stands there is no
/// statement, and the `sampai` that is then asked for reports it.
#[verifier::opaque]
pub open spec fn repeat_body(ts: Seq<TokenView>, p: Partial) -> Partial
    decreases remaining(ts, p.next), 4nat,
{
    if !p.ok() || is_keyword(ts, p.next, "sampai"@) {
        p
    } else {
        let q = p.attach(statement(ts, p.next));
        if !q.ok() || is_keyword(ts, q.next, "sampai"@) {
            q
        } else {
            let q = q.take_if_kind(ts, TokenType::Semicolon);
            if p.next < q.next <= ts.len() {
                repeat_body(ts, q)
            } else {
                q
            }
        }
    }
}

/// The rest of a call behind its `(`: arguments unless a `)` follows at
/// once, then the `)`.
pub open spec fn call_arguments(ts: Seq<TokenView>, p: Partial, message: Seq<char>) -> Partial {
    let q = if p.ok() && !is_kind(ts, p.next, TokenType::RParenthesis) {
        p.attach(parameter_list(ts, p.next))
    } else {
        p
    };
    q.expect(ts, TokenType::RParenthesis, message)
}

/// procedure/function-call as a statement: identifier, and where a `(`
/// follows: `(`, arguments unless a `)` follows at once, `)`
#[verifier::opaque]
pub open spec fn procedure_or_function_call(ts: Seq<TokenView>, pos: int) -> Parsed {
    let p = begin(pos).expect(
        ts,
        TokenType::Identifier,
        "Expected procedure or function name."@,
    );
    let p = if p.ok() && is_kind(ts, p.next, TokenType::LParenthesis) {
        call_arguments(ts, p.take(ts), "Expected ')' after parameter list."@)
    } else {
        p
    };
    p.finish(Label::ProcedureOrFunctionCall)
}

/// parameter-list: expression, then any number of: `,` expression
#[verifier::opaque]
pub open spec fn parameter_list(ts: Seq<TokenView>, pos: int) -> Parsed
    decreases remaining(ts, pos), 5nat,
{
    let p = begin(pos).attach(expression(ts, pos));
    let p = if p.ok() {
        more_arguments(ts, p)
    } else {
        p
    };
    p.finish(Label::ParameterList)
}

/// The arguments that follow, each behind a comma.
#[verifier::opaque]
pub open spec fn more_arguments(ts: Seq<TokenView>, p: Partial) -> Partial
    decreases remaining(ts, p.next), 0nat,
{
    if p.ok() && is_kind(ts, p.next, TokenType::Comma) {
        let q = p.take(ts);
        let q = q.attach(expression(ts, q.next));
        if q.ok() {
            more_arguments(ts, q)
        } else {
            q
        }
    } else {
        p
    }
}

/// expression: simple-expression, and where a relational operator follows:
/// the operator and a second simple-expression.
#[verifier::opaque]
pub open spec fn expression(ts: Seq<TokenView>, pos: int) -> Parsed
    decreases remaining(ts, pos), 4nat,
{
    let p = begin(pos).attach(simple_expression(ts, pos));
    let p = if p.ok() && is_kind(ts, p.next, TokenType::RelationalOperator) {
        let q = p.take(ts);
        q.attach(simple_expression(ts, q.next))
    } else {
        p
    };
    p.finish(Label::Expression)
}

/// Whether a sign, `+` or `-`, stands at the position.
pub open spec fn is_sign(ts: Seq<TokenView>, pos: int) -> bool {
    is_word(ts, pos, TokenType::ArithmeticOperator, "+"@) || is_word(
        ts,
        pos,
        TokenType::ArithmeticOperator,
        "-"@,
    )
}

/// Whether an additive operator stands at the position: `+`, `-` or `atau`.
pub open spec fn is_additive(ts: Seq<TokenView>, pos: int) -> bool {
    is_sign(ts, pos) || is_word(ts, pos, TokenType::LogicalOperator, "atau"@)
}

/// Whether a multiplicative operator stands at the position: `*`, `/`,
/// `bagi`, `mod` or `dan`.
pub open spec fn is_multiplicative(ts: Seq<TokenView>, pos: int) -> bool {
    is_word(ts, pos, TokenType::ArithmeticOperator, "*"@) || is_word(
        ts,
        pos,
        TokenType::ArithmeticOperator,
        "/"@,
    ) || is_keyword(ts, pos, "bagi"@) || is_keyword(ts, pos, "mod"@) || is_word(
        ts,
        pos,
        TokenType::LogicalOperator,
        "dan"@,
    )
}

/// simple-expression: a sign where one is written, a term, then any number
/// of: additive operator, term.
#[verifier::opaque]
pub open spec fn simple_expression(ts: Seq<TokenView>, pos: int) -> Parsed
    decreases remaining(ts, pos), 3nat,
{
    let p = begin(pos);
    let p = if is_sign(ts, pos) {
        p.take(ts)
    } else {
        p
    };
    let p = p.attach(term(ts, p.next));
    let p = if p.ok() {
        more_terms(ts, p)
    } else {
        p
    };
    p.finish(Label::SimpleExpression)
}

/// The terms that follow, each behind an additive operator.
#[verifier::opaque]
pub open spec fn more_terms(ts: Seq<TokenView>, p: Partial) -> Partial
    decreases remaining(ts, p.next), 0nat,
{
    if p.ok() && is_additive(ts, p.next) {
        let q = p.take(ts);
        let q = q.attach(term(ts, q.next));
        if q.ok() {
            more_terms(ts, q)
        } else {
            q
        }
    } else {
        p
    }
}

/// term: a factor, then any number of: multiplicative operator, factor.
#[verifier::opaque]
pub open spec fn term(ts: Seq<TokenView>, pos: int) -> Parsed
    decreases remaining(ts, pos), 2nat,
{
    let p = begin(pos).attach(factor(ts, pos));
    let p = if p.ok() {
        more_factors(ts, p)
    } else {
        p
    };
    p.finish(Label::Term)
}

/// The factors that follow, each behind a multiplicative operator.
#[verifier::opaque]
pub open spec fn more_factors(ts: Seq<TokenView>, p: Partial) -> Partial
    decreases remaining(ts, p.next), 0nat,
{
    if p.ok() && is_multiplicative(ts, p.next) {
        let q = p.take(ts);
        let q = q.attach(factor(ts, q.next));
        if q.ok() {
            more_factors(ts, q)
        } else {
            q
        }
    } else {
        p
    }
}

/// A call inside an expression: identifier `(`, arguments unless a `)`
/// follows at once, `)`
#[verifier::opaque]
pub open spec fn factor_call(ts: Seq<TokenView>, pos: int) -> Parsed
    decreases remaining(ts, pos), 0nat,
{
    let p = begin(pos).take(ts);
    let p = p.expect(ts, TokenType::LParenthesis, "Expected '('."@);
    let p = if p.ok() && !is_kind(ts, p.next, TokenType::RParenthesis) {
        p.attach(parameter_list(ts, p.next))
    } else {
        p
    };
    let p = p.expect(ts, TokenType::RParenthesis, "Expected ')' after parameters."@);
    p.finish(Label::ProcedureOrFunctionCall)
}

/// The field names that follow an identifier, each behind a `.`.
#[verifier::opaque]
pub open spec fn more_fields(ts: Seq<TokenView>, p: Partial) -> Partial
    decreases remaining(ts, p.next),
{
    if p.ok() && is_kind(ts, p.next, TokenType::Dot) {
        let q = p.take(ts).expect(ts, TokenType::Identifier, "Expected field name after '.'."@);
        if q.ok() {
            more_fields(ts, q)
        } else {
            q
        }
    } else {
        p
    }
}

/// factor: a number, a character or a string; an expression in
/// parentheses; `true` or `false`; `tidak` and a factor; a call; or an
/// identifier with the fields selected from it.
#[verifier::opaque]
pub open spec fn factor(ts: Seq<TokenView>, pos: int) -> Parsed
    decreases remaining(ts, pos), 1nat,
{
    let p = begin(pos);
    if is_kind(ts, pos, TokenType::Number) || is_kind(ts, pos, TokenType::CharLiteral) || is_kind(
        ts,
        pos,
        TokenType::StringLiteral,
    ) {
        p.take(ts).finish(Label::Factor)
    } else if is_kind(ts, pos, TokenType::LParenthesis) {
        let p = p.take(ts);
        let p = p.attach(expression(ts, p.next));
        let p = p.expect(ts, TokenType::RParenthesis, "Expected ')' after expression."@);
        p.finish(Label::Factor)
    } else if is_keyword(ts, pos, "true"@) || is_keyword(ts, pos, "false"@) {
        p.take(ts).finish(Label::Factor)
    } else if is_word(ts, pos, TokenType::LogicalOperator, "tidak"@) {
        let p = p.take(ts);
        p.attach(factor(ts, p.next)).finish(Label::Factor)
    } else if is_kind(ts, pos, TokenType::Identifier) {
        if is_kind(ts, pos + 1, TokenType::LParenthesis) {
            p.attach(factor_call(ts, pos)).finish(Label::Factor)
        } else {
            more_fields(ts, p.take(ts)).finish(Label::Factor)
        }
    } else {
        failure(ts, pos, "Expected a factor (e.g., number, identifier, or '(expression)')."@)
    }
}

} // verus!
