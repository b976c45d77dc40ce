//! The leaves of a parse tree are the tokens it was made from. Whatever a
//! rule of the grammar gives at a position, the leaves of its tree, read from
//! left to right, are exactly the tokens from that position to the one
//! behind the tree: a rule drops no token, invents none and changes no
//! order.

use crate::grammar::{
    any_token, array_type, assignment_statement, begin, call_arguments, compound_statement,
    const_declaration, const_items, const_sections, declaration_part, expression, factor,
    failure,
    factor_call, for_statement, formal_parameter_list, function_declaration, identifier_list,
    if_statement, is_additive, is_keyword, is_kind, is_multiplicative, is_scalar_keyword,
    is_sign, is_word, keyword, more_arguments, more_factors, more_fields, more_identifiers,
    more_parameter_groups, more_ranges, more_statements, more_terms, parameter_group,
    parameter_list, parse, procedure_declaration, procedure_or_function_call, program,
    program_header, range, record_fields, record_type, remaining, repeat_body,
    repeat_statement, simple_expression, skipped, statement, statement_list,
    subprogram_declaration, subprogram_sections, term, token, type_, type_declaration,
    type_items, type_sections, var_declaration, var_items, var_sections, while_statement, Parsed,
    Partial,
};
use crate::node::{forest_leaves, leaves, Label};
use crate::token::{TokenType, TokenView};
use vstd::prelude::*;

verus! {

/// Whether what a rule gave at `pos` covers the tokens from `pos` to the
/// position behind its tree, and nothing else.
pub open spec fn covers(ts: Seq<TokenView>, pos: int, r: Parsed) -> bool {
    r matches Ok((tree, next)) ==> pos <= next <= ts.len() && leaves(tree) == ts.subrange(
        pos,
        next,
    )
}

/// Whether the parts that a rule has gathered cover the tokens from `from`
/// to the position it has reached.
pub open spec fn spans(ts: Seq<TokenView>, from: int, p: Partial) -> bool {
    p.ok() ==> 0 <= from <= p.next <= ts.len() && forest_leaves(p.children) == ts.subrange(
        from,
        p.next,
    )
}

proof fn start(ts: Seq<TokenView>, pos: int) -> (p: Partial)
    requires
        0 <= pos <= ts.len(),
    ensures
        p == begin(pos),
        spans(ts, pos, p),
{
    assert(ts.subrange(pos, pos) =~= Seq::<TokenView>::empty());
    begin(pos)
}

proof fn attach_step(ts: Seq<TokenView>, from: int, p: Partial, r: Parsed) -> (q: Partial)
    requires
        spans(ts, from, p),
        p.ok() ==> covers(ts, p.next, r),
    ensures
        q == p.attach(r),
        spans(ts, from, q),
{
    let q = p.attach(r);
    if p.ok() {
        match r {
            Ok((tree, next)) => {
                assert(q.children.drop_last() =~= p.children);
                assert(ts.subrange(from, p.next) + ts.subrange(p.next, next) =~= ts.subrange(
                    from,
                    next,
                ));
            },
            Err(_) => {},
        }
    }
    q
}

proof fn lemma_any_token(ts: Seq<TokenView>, pos: int)
    ensures
        covers(ts, pos, any_token(ts, pos)),
        covers(ts, pos, skipped()),
{
    if 0 <= pos < ts.len() {
        assert(ts.subrange(pos, pos + 1) =~= seq![ts[pos]]);
    }
}

proof fn take_step(ts: Seq<TokenView>, from: int, p: Partial) -> (q: Partial)
    requires
        spans(ts, from, p),
    ensures
        q == p.take(ts),
        spans(ts, from, q),
{
    lemma_any_token(ts, p.next);
    attach_step(ts, from, p, any_token(ts, p.next))
}

proof fn take_if_kind_step(ts: Seq<TokenView>, from: int, p: Partial, kind: TokenType) -> (q:
    Partial)
    requires
        spans(ts, from, p),
    ensures
        q == p.take_if_kind(ts, kind),
        spans(ts, from, q),
{
    if p.ok() && is_kind(ts, p.next, kind) {
        take_step(ts, from, p)
    } else {
        p
    }
}

proof fn take_if_keyword_step(ts: Seq<TokenView>, from: int, p: Partial, word: Seq<char>) -> (q:
    Partial)
    requires
        spans(ts, from, p),
    ensures
        q == p.take_if_keyword(ts, word),
        spans(ts, from, q),
{
    if p.ok() && is_keyword(ts, p.next, word) {
        take_step(ts, from, p)
    } else {
        p
    }
}

proof fn token_step(
    ts: Seq<TokenView>,
    from: int,
    p: Partial,
    kind: TokenType,
    message: Seq<char>,
) -> (q: Partial)
    requires
        spans(ts, from, p),
    ensures
        q == p.expect(ts, kind, message),
        spans(ts, from, q),
{
    lemma_any_token(ts, p.next);
    attach_step(ts, from, p, token(ts, p.next, kind, message))
}

proof fn keyword_step(
    ts: Seq<TokenView>,
    from: int,
    p: Partial,
    word: Seq<char>,
    message: Seq<char>,
) -> (q: Partial)
    requires
        spans(ts, from, p),
    ensures
        q == p.expect_keyword(ts, word, message),
        spans(ts, from, q),
{
    lemma_any_token(ts, p.next);
    attach_step(ts, from, p, keyword(ts, p.next, word, message))
}

proof fn finish_step(ts: Seq<TokenView>, pos: int, p: Partial, label: Label)
    requires
        spans(ts, pos, p),
        !(label is Terminal),
    ensures
        covers(ts, pos, p.finish(label)),
{
}

proof fn lemma_program_header(ts: Seq<TokenView>, pos: int)
    requires
        0 <= pos <= ts.len(),
    ensures
        covers(ts, pos, program_header(ts, pos)),
{
    reveal(program_header);
    let p = start(ts, pos);
    let p = keyword_step(ts, pos, p, "program"@, "Expected 'program' keyword."@);
    let p = token_step(ts, pos, p, TokenType::Identifier, "Expected program name."@);
    let p = token_step(ts, pos, p, TokenType::Semicolon, "Expected ';' after program name."@);
    finish_step(ts, pos, p, Label::ProgramHeader);
}

proof fn lemma_program(ts: Seq<TokenView>, pos: int)
    requires
        0 <= pos <= ts.len(),
    ensures
        covers(ts, pos, program(ts, pos)),
{
    reveal(program);
    let p = start(ts, pos);
    if p.ok() {
        lemma_program_header(ts, p.next);
    }
    let p = attach_step(ts, pos, p, program_header(ts, p.next));
    if p.ok() {
        lemma_declaration_part(ts, p.next);
    }
    let p = attach_step(ts, pos, p, declaration_part(ts, p.next));
    if p.ok() {
        lemma_compound_statement(ts, p.next);
    }
    let p = attach_step(ts, pos, p, compound_statement(ts, p.next));
    let p = token_step(ts, pos, p, TokenType::Dot, "Expected '.' at the end of the program."@);
    finish_step(ts, pos, p, Label::Program);
}

proof fn lemma_declaration_part(ts: Seq<TokenView>, pos: int)
    requires
        0 <= pos <= ts.len(),
    ensures
        covers(ts, pos, declaration_part(ts, pos)),
    decreases remaining(ts, pos), 4nat,
{
    reveal(declaration_part);
    reveal(subprogram_sections);
    let p = start(ts, pos);
    lemma_const_sections(ts, pos, p);
    let p = const_sections(ts, p);
    lemma_type_sections(ts, pos, p);
    let p = type_sections(ts, p);
    lemma_var_sections(ts, pos, p);
    let p = var_sections(ts, p);
    let p = if p.ok() && p.next >= pos {
        lemma_subprogram_sections(ts, pos, p);
        subprogram_sections(ts, p)
    } else {
        p
    };
    finish_step(ts, pos, p, Label::DeclarationPart);
}

proof fn lemma_const_sections(ts: Seq<TokenView>, from: int, p: Partial)
    requires
        spans(ts, from, p),
    ensures
        spans(ts, from, const_sections(ts, p)),
    decreases remaining(ts, p.next),
{
    reveal(const_sections);
    if p.ok() && is_keyword(ts, p.next, "konstanta"@) {
        lemma_const_declaration(ts, p.next);
        let q = attach_step(ts, from, p, const_declaration(ts, p.next));
        if q.ok() && q.next > p.next {
            lemma_const_sections(ts, from, q);
        }
    }
}

proof fn lemma_type_sections(ts: Seq<TokenView>, from: int, p: Partial)
    requires
        spans(ts, from, p),
    ensures
        spans(ts, from, type_sections(ts, p)),
    decreases remaining(ts, p.next),
{
    reveal(type_sections);
    if p.ok() && is_keyword(ts, p.next, "tipe"@) {
        lemma_type_declaration(ts, p.next);
        let q = attach_step(ts, from, p, type_declaration(ts, p.next));
        if q.ok() && q.next > p.next {
            lemma_type_sections(ts, from, q);
        }
    }
}

proof fn lemma_var_sections(ts: Seq<TokenView>, from: int, p: Partial)
    requires
        spans(ts, from, p),
    ensures
        spans(ts, from, var_sections(ts, p)),
    decreases remaining(ts, p.next),
{
    reveal(var_sections);
    if p.ok() && is_keyword(ts, p.next, "variabel"@) {
        lemma_var_declaration(ts, p.next);
        let q = attach_step(ts, from, p, var_declaration(ts, p.next));
        if q.ok() && q.next > p.next {
            lemma_var_sections(ts, from, q);
        }
    }
}

proof fn lemma_subprogram_sections(ts: Seq<TokenView>, from: int, p: Partial)
    requires
        spans(ts, from, p),
    ensures
        spans(ts, from, subprogram_sections(ts, p)),
    decreases remaining(ts, p.next), 3nat,
{
    reveal(subprogram_sections);
    reveal(subprogram_declaration);
    if p.ok() && (is_keyword(ts, p.next, "prosedur"@) || is_keyword(
        ts,
        p.next,
        "fungsi"@,
    )) {
        lemma_subprogram_declaration(ts, p.next);
        let q = attach_step(ts, from, p, subprogram_declaration(ts, p.next));
        if q.ok() && q.next > p.next {
            lemma_subprogram_sections(ts, from, q);
        }
    }
}

proof fn lemma_const_declaration(ts: Seq<TokenView>, pos: int)
    requires
        0 <= pos <= ts.len(),
    ensures
        covers(ts, pos, const_declaration(ts, pos)),
{
    reveal(const_declaration);
    let p = start(ts, pos);
    let p = keyword_step(ts, pos, p, "konstanta"@, "Expected 'konstanta' keyword."@);
    lemma_const_items(ts, pos, p);
    finish_step(ts, pos, const_items(ts, p), Label::ConstDeclaration);
}

proof fn lemma_const_items(ts: Seq<TokenView>, from: int, p: Partial)
    requires
        spans(ts, from, p),
    ensures
        spans(ts, from, const_items(ts, p)),
    decreases remaining(ts, p.next),
{
    reveal(const_items);
    let q = p;
    let q = token_step(ts, from, q, TokenType::Identifier, "Expected constant identifier."@);
    let q = token_step(ts, from, q, TokenType::RelationalOperator, "Expected '=' in constant declaration."@);
    if q.ok() {
        lemma_expression(ts, q.next);
    }
    let q = attach_step(ts, from, q, expression(ts, q.next));
    let q = token_step(ts, from, q, TokenType::Semicolon, "Expected ';' after constant declaration."@);
    if q.ok() && is_kind(ts, q.next, TokenType::Identifier) {
        lemma_const_items(ts, from, q);
    }
}

proof fn lemma_type_declaration(ts: Seq<TokenView>, pos: int)
    requires
        0 <= pos <= ts.len(),
    ensures
        covers(ts, pos, type_declaration(ts, pos)),
{
    reveal(type_declaration);
    let p = start(ts, pos);
    let p = keyword_step(ts, pos, p, "tipe"@, "Expected 'tipe' keyword."@);
    lemma_type_items(ts, pos, p);
    finish_step(ts, pos, type_items(ts, p), Label::TypeDeclaration);
}

proof fn lemma_type_items(ts: Seq<TokenView>, from: int, p: Partial)
    requires
        spans(ts, from, p),
    ensures
        spans(ts, from, type_items(ts, p)),
    decreases remaining(ts, p.next),
{
    reveal(type_items);
    let q = p;
    let q = token_step(ts, from, q, TokenType::Identifier, "Expected type identifier."@);
    let q = token_step(ts, from, q, TokenType::RelationalOperator, "Expected '=' in type declaration."@);
    if q.ok() {
        lemma_type_(ts, q.next);
    }
    let q = attach_step(ts, from, q, type_(ts, q.next));
    let q = token_step(ts, from, q, TokenType::Semicolon, "Expected ';' after type declaration."@);
    if q.ok() && is_kind(ts, q.next, TokenType::Identifier) {
        lemma_type_items(ts, from, q);
    }
}

proof fn lemma_var_declaration(ts: Seq<TokenView>, pos: int)
    requires
        0 <= pos <= ts.len(),
    ensures
        covers(ts, pos, var_declaration(ts, pos)),
{
    reveal(var_declaration);
    let p = start(ts, pos);
    let p = keyword_step(ts, pos, p, "variabel"@, "Expected 'variabel' keyword."@);
    lemma_var_items(ts, pos, p);
    finish_step(ts, pos, var_items(ts, p), Label::VarDeclaration);
}

proof fn lemma_var_items(ts: Seq<TokenView>, from: int, p: Partial)
    requires
        spans(ts, from, p),
    ensures
        spans(ts, from, var_items(ts, p)),
    decreases remaining(ts, p.next),
{
    reveal(var_items);
    let q = p;
    if q.ok() {
        lemma_identifier_list(ts, q.next);
    }
    let q = attach_step(ts, from, q, identifier_list(ts, q.next));
    let q = token_step(ts, from, q, TokenType::Colon, "Expected ':' after identifier list."@);
    if q.ok() {
        lemma_type_(ts, q.next);
    }
    let q = attach_step(ts, from, q, type_(ts, q.next));
    let q = token_step(ts, from, q, TokenType::Semicolon, "Expected ';' after variable declaration."@);
    if q.ok() && is_kind(ts, q.next, TokenType::Identifier) {
        lemma_var_items(ts, from, q);
    }
}

proof fn lemma_identifier_list(ts: Seq<TokenView>, pos: int)
    requires
        0 <= pos <= ts.len(),
    ensures
        covers(ts, pos, identifier_list(ts, pos)),
{
    reveal(identifier_list);
    let p = start(ts, pos);
    let p = token_step(ts, pos, p, TokenType::Identifier, "Expected identifier."@);
    lemma_more_identifiers(ts, pos, p);
    finish_step(ts, pos, more_identifiers(ts, p), Label::IdentifierList);
}

proof fn lemma_more_identifiers(ts: Seq<TokenView>, from: int, p: Partial)
    requires
        spans(ts, from, p),
    ensures
        spans(ts, from, more_identifiers(ts, p)),
    decreases remaining(ts, p.next),
{
    reveal(more_identifiers);
    if p.ok() && is_kind(ts, p.next, TokenType::Comma) {
        let q = take_step(ts, from, p);
        let q = token_step(ts, from, q, TokenType::Identifier, "Expected identifier after ','."@);
        if q.ok() {
            lemma_more_identifiers(ts, from, q);
        }
    }
}

proof fn lemma_type_(ts: Seq<TokenView>, pos: int)
    requires
        0 <= pos <= ts.len(),
    ensures
        covers(ts, pos, type_(ts, pos)),
    decreases remaining(ts, pos), 2nat,
{
    reveal(type_);
    reveal(array_type);
    reveal(record_type);
    let p = start(ts, pos);
    if is_keyword(ts, pos, "larik"@) {
        lemma_array_type(ts, pos);
        let q = attach_step(ts, pos, p, array_type(ts, pos));
        finish_step(ts, pos, q, Label::Type);
    } else if is_keyword(ts, pos, "rekaman"@) {
        lemma_record_type(ts, pos);
        let q = attach_step(ts, pos, p, record_type(ts, pos));
        finish_step(ts, pos, q, Label::Type);
    } else if is_scalar_keyword(ts, pos) || is_kind(ts, pos, TokenType::Identifier) {
        let q = take_step(ts, pos, p);
        finish_step(ts, pos, q, Label::Type);
    }
}

proof fn lemma_array_type(ts: Seq<TokenView>, pos: int)
    requires
        0 <= pos <= ts.len(),
    ensures
        covers(ts, pos, array_type(ts, pos)),
    decreases remaining(ts, pos), 1nat,
{
    reveal(array_type);
    reveal(type_);
    let p = start(ts, pos);
    let p = keyword_step(ts, pos, p, "larik"@, "Expected 'larik' keyword."@);
    let p = token_step(ts, pos, p, TokenType::LBracket, "Expected '[' after 'larik'."@);
    if p.ok() {
        lemma_range(ts, p.next);
    }
    let p = attach_step(ts, pos, p, range(ts, p.next));
    lemma_more_ranges(ts, pos, p);
    let p = more_ranges(ts, p);
    let p = token_step(ts, pos, p, TokenType::RBracket, "Expected ']' after range."@);
    let p = keyword_step(ts, pos, p, "dari"@, "Expected 'dari' keyword."@);
    if p.ok() && p.next > pos {
        lemma_type_(ts, p.next);
    }
    let p = attach_step(
        ts,
        pos,
        p,
        if p.ok() && p.next > pos {
            type_(ts, p.next)
        } else {
            skipped()
        },
    );
    finish_step(ts, pos, p, Label::ArrayType);
}

proof fn lemma_more_ranges(ts: Seq<TokenView>, from: int, p: Partial)
    requires
        spans(ts, from, p),
    ensures
        spans(ts, from, more_ranges(ts, p)),
    decreases remaining(ts, p.next),
{
    reveal(more_ranges);
    if p.ok() && is_kind(ts, p.next, TokenType::Comma) {
        let q = take_step(ts, from, p);
        if q.ok() {
            lemma_range(ts, q.next);
        }
        let q = attach_step(ts, from, q, range(ts, q.next));
        if q.ok() {
            lemma_more_ranges(ts, from, q);
        }
    }
}

proof fn lemma_range(ts: Seq<TokenView>, pos: int)
    requires
        0 <= pos <= ts.len(),
    ensures
        covers(ts, pos, range(ts, pos)),
{
    reveal(range);
    let p = start(ts, pos);
    if p.ok() {
        lemma_expression(ts, p.next);
    }
    let p = attach_step(ts, pos, p, expression(ts, p.next));
    let p = token_step(ts, pos, p, TokenType::RangeOperator, "Expected '..' in range."@);
    if p.ok() {
        lemma_expression(ts, p.next);
    }
    let p = attach_step(ts, pos, p, expression(ts, p.next));
    finish_step(ts, pos, p, Label::Range);
}

proof fn lemma_record_type(ts: Seq<TokenView>, pos: int)
    requires
        0 <= pos <= ts.len(),
    ensures
        covers(ts, pos, record_type(ts, pos)),
    decreases remaining(ts, pos), 1nat,
{
    reveal(record_type);
    reveal(record_fields);
    let p = start(ts, pos);
    let p = keyword_step(ts, pos, p, "rekaman"@, "Expected 'rekaman' keyword."@);
    if p.ok() {
        lemma_record_fields(ts, pos, p);
    }
    let p = if p.ok() {
        record_fields(ts, p)
    } else {
        p
    };
    let p = keyword_step(ts, pos, p, "selesai"@, "Expected 'selesai' keyword."@);
    finish_step(ts, pos, p, Label::RecordType);
}

proof fn lemma_record_fields(ts: Seq<TokenView>, from: int, p: Partial)
    requires
        spans(ts, from, p),
    ensures
        spans(ts, from, record_fields(ts, p)),
    decreases remaining(ts, p.next), 0nat,
{
    reveal(record_fields);
    reveal(type_);
    if !p.ok() || is_keyword(ts, p.next, "selesai"@) {
    } else {
        lemma_identifier_list(ts, p.next);
        let q = attach_step(ts, from, p, identifier_list(ts, p.next));
        let q = token_step(ts, from, q, TokenType::Colon, "Expected ':' after field identifiers."@);
        if q.ok() {
            lemma_type_(ts, q.next);
        }
        let q = attach_step(
            ts,
            from,
            q,
            if q.ok() {
                type_(ts, q.next)
            } else {
                skipped()
            },
        );
        if !q.ok() || is_keyword(ts, q.next, "selesai"@) {
        } else {
            let q = take_if_kind_step(ts, from, q, TokenType::Semicolon);
            lemma_record_fields(ts, from, q);
        }
    }
}

proof fn lemma_subprogram_declaration(ts: Seq<TokenView>, pos: int)
    requires
        0 <= pos <= ts.len(),
    ensures
        covers(ts, pos, subprogram_declaration(ts, pos)),
    decreases remaining(ts, pos), 2nat,
{
    reveal(subprogram_declaration);
    reveal(procedure_declaration);
    reveal(function_declaration);
    let p = start(ts, pos);
    if is_keyword(ts, pos, "prosedur"@) {
        lemma_procedure_declaration(ts, pos);
        let q = attach_step(ts, pos, p, procedure_declaration(ts, pos));
        finish_step(ts, pos, q, Label::SubprogramDeclaration);
    } else if is_keyword(ts, pos, "fungsi"@) {
        lemma_function_declaration(ts, pos);
        let q = attach_step(ts, pos, p, function_declaration(ts, pos));
        finish_step(ts, pos, q, Label::SubprogramDeclaration);
    }
}

proof fn lemma_procedure_declaration(ts: Seq<TokenView>, pos: int)
    requires
        0 <= pos <= ts.len(),
    ensures
        covers(ts, pos, procedure_declaration(ts, pos)),
    decreases remaining(ts, pos), 1nat,
{
    reveal(procedure_declaration);
    reveal(declaration_part);
    let p = start(ts, pos);
    let p = keyword_step(ts, pos, p, "prosedur"@, "Expected 'prosedur' keyword."@);
    let p = token_step(ts, pos, p, TokenType::Identifier, "Expected procedure name."@);
    let p = if p.ok() && is_kind(ts, p.next, TokenType::LParenthesis) {
        lemma_formal_parameter_list(ts, p.next);
        attach_step(ts, pos, p, formal_parameter_list(ts, p.next))
    } else {
        p
    };
    let p = token_step(ts, pos, p, TokenType::Semicolon, "Expected ';' after procedure header."@);
    if p.ok() {
        lemma_declaration_part(ts, p.next);
    }
    let p = attach_step(
        ts,
        pos,
        p,
        if p.ok() {
            declaration_part(ts, p.next)
        } else {
            skipped()
        },
    );
    if p.ok() {
        lemma_compound_statement(ts, p.next);
    }
    let p = attach_step(ts, pos, p, compound_statement(ts, p.next));
    let p = token_step(ts, pos, p, TokenType::Semicolon, "Expected ';' after procedure body."@);
    finish_step(ts, pos, p, Label::ProcedureDeclaration);
}

proof fn lemma_function_declaration(ts: Seq<TokenView>, pos: int)
    requires
        0 <= pos <= ts.len(),
    ensures
        covers(ts, pos, function_declaration(ts, pos)),
    decreases remaining(ts, pos), 1nat,
{
    reveal(function_declaration);
    reveal(declaration_part);
    let p = start(ts, pos);
    let p = keyword_step(ts, pos, p, "fungsi"@, "Expected 'fungsi' keyword."@);
    let p = token_step(ts, pos, p, TokenType::Identifier, "Expected function name."@);
    let p = if p.ok() && is_kind(ts, p.next, TokenType::LParenthesis) {
        lemma_formal_parameter_list(ts, p.next);
        attach_step(ts, pos, p, formal_parameter_list(ts, p.next))
    } else {
        p
    };
    let p = token_step(ts, pos, p, TokenType::Colon, "Expected ':' after function parameters."@);
    if p.ok() {
        lemma_type_(ts, p.next);
    }
    let p = attach_step(ts, pos, p, type_(ts, p.next));
    let p = token_step(ts, pos, p, TokenType::Semicolon, "Expected ';' after function header."@);
    if p.ok() {
        lemma_declaration_part(ts, p.next);
    }
    let p = attach_step(
        ts,
        pos,
        p,
        if p.ok() {
            declaration_part(ts, p.next)
        } else {
            skipped()
        },
    );
    if p.ok() {
        lemma_compound_statement(ts, p.next);
    }
    let p = attach_step(ts, pos, p, compound_statement(ts, p.next));
    let p = token_step(ts, pos, p, TokenType::Semicolon, "Expected ';' after function body."@);
    finish_step(ts, pos, p, Label::FunctionDeclaration);
}

proof fn lemma_parameter_group(ts: Seq<TokenView>, from: int, p: Partial)
    requires
        spans(ts, from, p),
    ensures
        spans(ts, from, parameter_group(ts, p)),
{
    let q = take_if_keyword_step(ts, from, p, "variabel"@);
    if q.ok() {
        lemma_identifier_list(ts, q.next);
    }
    let q = attach_step(ts, from, q, identifier_list(ts, q.next));
    let q = token_step(ts, from, q, TokenType::Colon, "Expected ':' after parameter identifiers."@);
    if q.ok() {
        lemma_type_(ts, q.next);
    }
    attach_step(ts, from, q, type_(ts, q.next));
}

proof fn lemma_formal_parameter_list(ts: Seq<TokenView>, pos: int)
    requires
        0 <= pos <= ts.len(),
    ensures
        covers(ts, pos, formal_parameter_list(ts, pos)),
{
    reveal(formal_parameter_list);
    let p = start(ts, pos);
    let p = token_step(ts, pos, p, TokenType::LParenthesis, "Expected '(' to start parameter list."@);
    lemma_parameter_group(ts, pos, p);
    let p = parameter_group(ts, p);
    lemma_more_parameter_groups(ts, pos, p);
    let p = more_parameter_groups(ts, p);
    let p = token_step(ts, pos, p, TokenType::RParenthesis, "Expected ')' to end parameter list."@);
    finish_step(ts, pos, p, Label::FormalParameterList);
}

proof fn lemma_more_parameter_groups(ts: Seq<TokenView>, from: int, p: Partial)
    requires
        spans(ts, from, p),
    ensures
        spans(ts, from, more_parameter_groups(ts, p)),
    decreases remaining(ts, p.next),
{
    reveal(more_parameter_groups);
    if p.ok() && is_kind(ts, p.next, TokenType::Semicolon) {
        let q = take_step(ts, from, p);
        lemma_parameter_group(ts, from, q);
        let q = parameter_group(ts, q);
        if q.ok() {
            lemma_more_parameter_groups(ts, from, q);
        }
    }
}

proof fn lemma_compound_statement(ts: Seq<TokenView>, pos: int)
    requires
        0 <= pos <= ts.len(),
    ensures
        covers(ts, pos, compound_statement(ts, pos)),
    decreases remaining(ts, pos), 1nat,
{
    reveal(compound_statement);
    reveal(statement_list);
    let p = start(ts, pos);
    let p = keyword_step(ts, pos, p, "mulai"@, "Expected 'mulai' keyword."@);
    if p.ok() {
        lemma_statement_list(ts, p.next);
    }
    let p = attach_step(
        ts,
        pos,
        p,
        if p.ok() {
            statement_list(ts, p.next)
        } else {
            skipped()
        },
    );
    let p = keyword_step(ts, pos, p, "selesai"@, "Expected 'selesai' keyword."@);
    finish_step(ts, pos, p, Label::CompoundStatement);
}

proof fn lemma_statement_list(ts: Seq<TokenView>, pos: int)
    requires
        0 <= pos <= ts.len(),
    ensures
        covers(ts, pos, statement_list(ts, pos)),
    decreases remaining(ts, pos), 3nat,
{
    reveal(statement_list);
    reveal(more_statements);
    reveal(statement);
    let p = start(ts, pos);
    if is_keyword(ts, pos, "selesai"@) {
        finish_step(ts, pos, p, Label::StatementList);
    } else {
        lemma_statement(ts, pos);
        let p = attach_step(ts, pos, p, statement(ts, pos));
        if p.ok() {
            lemma_more_statements(ts, pos, p);
        }
        let p = if p.ok() {
            more_statements(ts, p)
        } else {
            p
        };
        finish_step(ts, pos, p, Label::StatementList);
    }
}

proof fn lemma_more_statements(ts: Seq<TokenView>, from: int, p: Partial)
    requires
        spans(ts, from, p),
    ensures
        spans(ts, from, more_statements(ts, p)),
    decreases remaining(ts, p.next), 0nat,
{
    reveal(more_statements);
    reveal(statement);
    if p.ok() && is_kind(ts, p.next, TokenType::Semicolon) {
        let q = take_step(ts, from, p);
        if is_keyword(ts, q.next, "selesai"@) {
        } else {
            if q.ok() {
                lemma_statement(ts, q.next);
            }
            let q = attach_step(ts, from, q, statement(ts, q.next));
            if q.ok() {
                lemma_more_statements(ts, from, q);
            }
        }
    }
}

proof fn lemma_statement(ts: Seq<TokenView>, pos: int)
    requires
        0 <= pos <= ts.len(),
    ensures
        covers(ts, pos, statement(ts, pos)),
    decreases remaining(ts, pos), 2nat,
{
    reveal(statement);
    reveal(if_statement);
    reveal(while_statement);
    reveal(for_statement);
    reveal(repeat_statement);
    reveal(compound_statement);
    if is_keyword(ts, pos, "jika"@) {
        lemma_if_statement(ts, pos);
    } else if is_keyword(ts, pos, "selama"@) {
        lemma_while_statement(ts, pos);
    } else if is_keyword(ts, pos, "untuk"@) {
        lemma_for_statement(ts, pos);
    } else if is_keyword(ts, pos, "ulangi"@) {
        lemma_repeat_statement(ts, pos);
    } else if is_keyword(ts, pos, "mulai"@) {
        lemma_compound_statement(ts, pos);
    } else if is_kind(ts, pos, TokenType::Identifier) {
        if is_kind(ts, pos + 1, TokenType::AssignOperator) {
            lemma_assignment_statement(ts, pos);
        } else {
            lemma_procedure_or_function_call(ts, pos);
        }
    } else {
        let p = start(ts, pos);
        finish_step(ts, pos, p, Label::StatementList);
    }
}

proof fn lemma_assignment_statement(ts: Seq<TokenView>, pos: int)
    requires
        0 <= pos <= ts.len(),
    ensures
        covers(ts, pos, assignment_statement(ts, pos)),
{
    reveal(assignment_statement);
    let p = start(ts, pos);
    let p = token_step(ts, pos, p, TokenType::Identifier, "Expected identifier."@);
    let p = token_step(ts, pos, p, TokenType::AssignOperator, "Expected ':=' operator."@);
    if p.ok() {
        lemma_expression(ts, p.next);
    }
    let p = attach_step(ts, pos, p, expression(ts, p.next));
    finish_step(ts, pos, p, Label::AssignmentStatement);
}

proof fn lemma_if_statement(ts: Seq<TokenView>, pos: int)
    requires
        0 <= pos <= ts.len(),
    ensures
        covers(ts, pos, if_statement(ts, pos)),
    decreases remaining(ts, pos), 1nat,
{
    reveal(if_statement);
    reveal(statement);
    let p = start(ts, pos);
    let p = keyword_step(ts, pos, p, "jika"@, "Expected 'jika' keyword."@);
    if p.ok() {
        lemma_expression(ts, p.next);
    }
    let p = attach_step(ts, pos, p, expression(ts, p.next));
    let p = keyword_step(ts, pos, p, "maka"@, "Expected 'maka' keyword."@);
    if p.ok() {
        lemma_statement(ts, p.next);
    }
    let p = attach_step(
        ts,
        pos,
        p,
        if p.ok() {
            statement(ts, p.next)
        } else {
            skipped()
        },
    );
    let p = if p.ok() && is_keyword(ts, p.next, "selain_itu"@) {
        let q = take_step(ts, pos, p);
        if q.ok() {
            lemma_statement(ts, q.next);
        }
        attach_step(ts, pos, q, statement(ts, q.next))
    } else {
        p
    };
    finish_step(ts, pos, p, Label::IfStatement);
}

proof fn lemma_while_statement(ts: Seq<TokenView>, pos: int)
    requires
        0 <= pos <= ts.len(),
    ensures
        covers(ts, pos, while_statement(ts, pos)),
    decreases remaining(ts, pos), 1nat,
{
    reveal(while_statement);
    reveal(statement);
    let p = start(ts, pos);
    let p = keyword_step(ts, pos, p, "selama"@, "Expected 'selama' keyword."@);
    if p.ok() {
        lemma_expression(ts, p.next);
    }
    let p = attach_step(ts, pos, p, expression(ts, p.next));
    let p = keyword_step(ts, pos, p, "lakukan"@, "Expected 'lakukan' keyword."@);
    if p.ok() {
        lemma_statement(ts, p.next);
    }
    let p = attach_step(
        ts,
        pos,
        p,
        if p.ok() {
            statement(ts, p.next)
        } else {
            skipped()
        },
    );
    finish_step(ts, pos, p, Label::WhileStatement);
}

proof fn lemma_for_statement(ts: Seq<TokenView>, pos: int)
    requires
        0 <= pos <= ts.len(),
    ensures
        covers(ts, pos, for_statement(ts, pos)),
    decreases remaining(ts, pos), 1nat,
{
    reveal(for_statement);
    reveal(statement);
    let p = start(ts, pos);
    let p = keyword_step(ts, pos, p, "untuk"@, "Expected 'untuk' keyword."@);
    let p = token_step(ts, pos, p, TokenType::Identifier, "Expected loop variable."@);
    let p = token_step(ts, pos, p, TokenType::AssignOperator, "Expected ':=' operator."@);
    if p.ok() {
        lemma_expression(ts, p.next);
    }
    let p = attach_step(ts, pos, p, expression(ts, p.next));
    lemma_any_token(ts, p.next);
    let p = attach_step(
        ts,
        pos,
        p,
        if is_keyword(ts, p.next, "ke"@) || is_keyword(ts, p.next, "turun_ke"@) {
            any_token(ts, p.next)
        } else {
            failure(ts, p.next, "Expected 'ke' or 'turun_ke' keyword."@)
        },
    );
    if p.ok() {
        lemma_expression(ts, p.next);
    }
    let p = attach_step(ts, pos, p, expression(ts, p.next));
    let p = keyword_step(ts, pos, p, "lakukan"@, "Expected 'lakukan' keyword."@);
    if p.ok() {
        lemma_statement(ts, p.next);
    }
    let p = attach_step(
        ts,
        pos,
        p,
        if p.ok() {
            statement(ts, p.next)
        } else {
            skipped()
        },
    );
    finish_step(ts, pos, p, Label::ForStatement);
}

proof fn lemma_repeat_statement(ts: Seq<TokenView>, pos: int)
    requires
        0 <= pos <= ts.len(),
    ensures
        covers(ts, pos, repeat_statement(ts, pos)),
    decreases remaining(ts, pos), 1nat,
{
    reveal(repeat_statement);
    reveal(repeat_body);
    let p = start(ts, pos);
    let p = keyword_step(ts, pos, p, "ulangi"@, "Expected 'ulangi' keyword."@);
    if p.ok() {
        lemma_repeat_body(ts, pos, p);
    }
    let p = if p.ok() {
        repeat_body(ts, p)
    } else {
        p
    };
    let p = keyword_step(ts, pos, p, "sampai"@, "Expected 'sampai' keyword."@);
    if p.ok() {
        lemma_expression(ts, p.next);
    }
    let p = attach_step(ts, pos, p, expression(ts, p.next));
    finish_step(ts, pos, p, Label::RepeatStatement);
}

proof fn lemma_repeat_body(ts: Seq<TokenView>, from: int, p: Partial)
    requires
        spans(ts, from, p),
    ensures
        spans(ts, from, repeat_body(ts, p)),
    decreases remaining(ts, p.next), 4nat,
{
    reveal(repeat_body);
    reveal(statement);
    if !p.ok() || is_keyword(ts, p.next, "sampai"@) {
    } else {
        lemma_statement(ts, p.next);
        let q = attach_step(ts, from, p, statement(ts, p.next));
        if !q.ok() || is_keyword(ts, q.next, "sampai"@) {
        } else {
            let q = take_if_kind_step(ts, from, q, TokenType::Semicolon);
            if p.next < q.next <= ts.len() {
                lemma_repeat_body(ts, from, q);
            }
        }
    }
}

proof fn lemma_call_arguments(ts: Seq<TokenView>, from: int, p: Partial, message: Seq<char>)
    requires
        spans(ts, from, p),
    ensures
        spans(ts, from, call_arguments(ts, p, message)),
{
    if p.ok() && !is_kind(ts, p.next, TokenType::RParenthesis) {
        lemma_parameter_list(ts, p.next);
    }
    let q = if p.ok() && !is_kind(ts, p.next, TokenType::RParenthesis) {
        attach_step(ts, from, p, parameter_list(ts, p.next))
    } else {
        p
    };
    token_step(ts, from, q, TokenType::RParenthesis, message);
}

proof fn lemma_procedure_or_function_call(ts: Seq<TokenView>, pos: int)
    requires
        0 <= pos <= ts.len(),
    ensures
        covers(ts, pos, procedure_or_function_call(ts, pos)),
{
    reveal(procedure_or_function_call);
    let p = start(ts, pos);
    let p = token_step(ts, pos, p, TokenType::Identifier, "Expected procedure or function name."@);
    if p.ok() && is_kind(ts, p.next, TokenType::LParenthesis) {
        let q = take_step(ts, pos, p);
        lemma_call_arguments(ts, pos, q, "Expected ')' after parameter list."@);
    }
    let p = if p.ok() && is_kind(ts, p.next, TokenType::LParenthesis) {
        call_arguments(ts, p.take(ts), "Expected ')' after parameter list."@)
    } else {
        p
    };
    finish_step(ts, pos, p, Label::ProcedureOrFunctionCall);
}

proof fn lemma_parameter_list(ts: Seq<TokenView>, pos: int)
    requires
        0 <= pos <= ts.len(),
    ensures
        covers(ts, pos, parameter_list(ts, pos)),
    decreases remaining(ts, pos), 5nat,
{
    reveal(parameter_list);
    reveal(more_arguments);
    reveal(expression);
    let p = start(ts, pos);
    lemma_expression(ts, pos);
    let p = attach_step(ts, pos, p, expression(ts, pos));
    if p.ok() {
        lemma_more_arguments(ts, pos, p);
    }
    let p = if p.ok() {
        more_arguments(ts, p)
    } else {
        p
    };
    finish_step(ts, pos, p, Label::ParameterList);
}

proof fn lemma_more_arguments(ts: Seq<TokenView>, from: int, p: Partial)
    requires
        spans(ts, from, p),
    ensures
        spans(ts, from, more_arguments(ts, p)),
    decreases remaining(ts, p.next), 0nat,
{
    reveal(more_arguments);
    reveal(expression);
    if p.ok() && is_kind(ts, p.next, TokenType::Comma) {
        let q = take_step(ts, from, p);
        if q.ok() {
            lemma_expression(ts, q.next);
        }
        let q = attach_step(ts, from, q, expression(ts, q.next));
        if q.ok() {
            lemma_more_arguments(ts, from, q);
        }
    }
}

proof fn lemma_expression(ts: Seq<TokenView>, pos: int)
    requires
        0 <= pos <= ts.len(),
    ensures
        covers(ts, pos, expression(ts, pos)),
    decreases remaining(ts, pos), 4nat,
{
    reveal(expression);
    reveal(simple_expression);
    let p = start(ts, pos);
    lemma_simple_expression(ts, pos);
    let p = attach_step(ts, pos, p, simple_expression(ts, pos));
    if p.ok() && is_kind(ts, p.next, TokenType::RelationalOperator) {
        let q = take_step(ts, pos, p);
        if q.ok() {
            lemma_simple_expression(ts, q.next);
        }
        let q = attach_step(ts, pos, q, simple_expression(ts, q.next));
        finish_step(ts, pos, q, Label::Expression);
    } else {
        finish_step(ts, pos, p, Label::Expression);
    }
}

proof fn lemma_simple_expression(ts: Seq<TokenView>, pos: int)
    requires
        0 <= pos <= ts.len(),
    ensures
        covers(ts, pos, simple_expression(ts, pos)),
    decreases remaining(ts, pos), 3nat,
{
    reveal(simple_expression);
    reveal(more_terms);
    reveal(term);
    let p = start(ts, pos);
    let p = if is_sign(ts, pos) {
        take_step(ts, pos, p)
    } else {
        p
    };
    if p.ok() {
        lemma_term(ts, p.next);
    }
    let p = attach_step(ts, pos, p, term(ts, p.next));
    if p.ok() {
        lemma_more_terms(ts, pos, p);
    }
    let p = if p.ok() {
        more_terms(ts, p)
    } else {
        p
    };
    finish_step(ts, pos, p, Label::SimpleExpression);
}

proof fn lemma_more_terms(ts: Seq<TokenView>, from: int, p: Partial)
    requires
        spans(ts, from, p),
    ensures
        spans(ts, from, more_terms(ts, p)),
    decreases remaining(ts, p.next), 0nat,
{
    reveal(more_terms);
    reveal(term);
    if p.ok() && is_additive(ts, p.next) {
        let q = take_step(ts, from, p);
        if q.ok() {
            lemma_term(ts, q.next);
        }
        let q = attach_step(ts, from, q, term(ts, q.next));
        if q.ok() {
            lemma_more_terms(ts, from, q);
        }
    }
}

proof fn lemma_term(ts: Seq<TokenView>, pos: int)
    requires
        0 <= pos <= ts.len(),
    ensures
        covers(ts, pos, term(ts, pos)),
    decreases remaining(ts, pos), 2nat,
{
    reveal(term);
    reveal(more_factors);
    reveal(factor);
    let p = start(ts, pos);
    lemma_factor(ts, pos);
    let p = attach_step(ts, pos, p, factor(ts, pos));
    if p.ok() {
        lemma_more_factors(ts, pos, p);
    }
    let p = if p.ok() {
        more_factors(ts, p)
    } else {
        p
    };
    finish_step(ts, pos, p, Label::Term);
}

proof fn lemma_more_factors(ts: Seq<TokenView>, from: int, p: Partial)
    requires
        spans(ts, from, p),
    ensures
        spans(ts, from, more_factors(ts, p)),
    decreases remaining(ts, p.next), 0nat,
{
    reveal(more_factors);
    reveal(factor);
    if p.ok() && is_multiplicative(ts, p.next) {
        let q = take_step(ts, from, p);
        if q.ok() {
            lemma_factor(ts, q.next);
        }
        let q = attach_step(ts, from, q, factor(ts, q.next));
        if q.ok() {
            lemma_more_factors(ts, from, q);
        }
    }
}

proof fn lemma_factor_call(ts: Seq<TokenView>, pos: int)
    requires
        0 <= pos <= ts.len(),
    ensures
        covers(ts, pos, factor_call(ts, pos)),
    decreases remaining(ts, pos), 0nat,
{
    reveal(factor_call);
    reveal(parameter_list);
    let p = start(ts, pos);
    let p = take_step(ts, pos, p);
    let p = token_step(ts, pos, p, TokenType::LParenthesis, "Expected '('."@);
    if p.ok() && !is_kind(ts, p.next, TokenType::RParenthesis) {
        lemma_parameter_list(ts, p.next);
    }
    let p = if p.ok() && !is_kind(ts, p.next, TokenType::RParenthesis) {
        attach_step(ts, pos, p, parameter_list(ts, p.next))
    } else {
        p
    };
    let p = token_step(ts, pos, p, TokenType::RParenthesis, "Expected ')' after parameters."@);
    finish_step(ts, pos, p, Label::ProcedureOrFunctionCall);
}

proof fn lemma_more_fields(ts: Seq<TokenView>, from: int, p: Partial)
    requires
        spans(ts, from, p),
    ensures
        spans(ts, from, more_fields(ts, p)),
    decreases remaining(ts, p.next),
{
    reveal(more_fields);
    if p.ok() && is_kind(ts, p.next, TokenType::Dot) {
        let q = take_step(ts, from, p);
        let q = token_step(ts, from, q, TokenType::Identifier, "Expected field name after '.'."@);
        if q.ok() {
            lemma_more_fields(ts, from, q);
        }
    }
}

proof fn lemma_factor(ts: Seq<TokenView>, pos: int)
    requires
        0 <= pos <= ts.len(),
    ensures
        covers(ts, pos, factor(ts, pos)),
    decreases remaining(ts, pos), 1nat,
{
    reveal(factor);
    reveal(factor_call);
    reveal(expression);
    let p = start(ts, pos);
    if is_kind(ts, pos, TokenType::Number) || is_kind(ts, pos, TokenType::CharLiteral) || is_kind(
        ts,
        pos,
        TokenType::StringLiteral,
    ) {
        let p = take_step(ts, pos, p);
        finish_step(ts, pos, p, Label::Factor);
    } else if is_kind(ts, pos, TokenType::LParenthesis) {
        let p = take_step(ts, pos, p);
        if p.ok() {
            lemma_expression(ts, p.next);
        }
        let p = attach_step(ts, pos, p, expression(ts, p.next));
        let p = token_step(ts, pos, p, TokenType::RParenthesis, "Expected ')' after expression."@);
        finish_step(ts, pos, p, Label::Factor);
    } else if is_keyword(ts, pos, "true"@) || is_keyword(ts, pos, "false"@) {
        let p = take_step(ts, pos, p);
        finish_step(ts, pos, p, Label::Factor);
    } else if is_word(ts, pos, TokenType::LogicalOperator, "tidak"@) {
        let p = take_step(ts, pos, p);
        if p.ok() {
            lemma_factor(ts, p.next);
        }
        let p = attach_step(ts, pos, p, factor(ts, p.next));
        finish_step(ts, pos, p, Label::Factor);
    } else if is_kind(ts, pos, TokenType::Identifier) {
        if is_kind(ts, pos + 1, TokenType::LParenthesis) {
            lemma_factor_call(ts, pos);
            let p = attach_step(ts, pos, p, factor_call(ts, pos));
            finish_step(ts, pos, p, Label::Factor);
        } else {
            let p = take_step(ts, pos, p);
            lemma_more_fields(ts, pos, p);
            finish_step(ts, pos, more_fields(ts, p), Label::Factor);
        }
    }
}

/// The round trip. Where the grammar gives a tree for a whole input, the
/// leaves of the tree, read in order, are the tokens of the input: parsing
/// drops no token, invents none and changes no order.
pub proof fn law_leaves_are_the_tokens(ts: Seq<TokenView>)
    ensures
        parse(ts, 0) matches Ok(tree) ==> leaves(tree) == ts,
{
    lemma_program(ts, 0);
    match program(ts, 0) {
        Ok((tree, next)) => {
            if next >= ts.len() {
                assert(ts.subrange(0, next) =~= ts);
            }
        },
        Err(_) => {},
    }
}

/// The same from any position: whatever a rule gives, its leaves are the
/// tokens it passed.
pub proof fn law_a_program_covers_its_tokens(ts: Seq<TokenView>, pos: int)
    requires
        0 <= pos <= ts.len(),
    ensures
        covers(ts, pos, program(ts, pos)),
{
    lemma_program(ts, pos);
}

} // verus!
