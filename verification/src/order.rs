//! The order of declarations. The declarations of a block come in four runs:
//! constants, types, variables, subprograms. Whatever the grammar gives for a
//! declaration part, no constant declaration follows a type declaration, no
//! type declaration follows a variable declaration, and so on.

use crate::grammar::{
    begin, const_declaration, const_sections, declaration_part, is_keyword, remaining,
    subprogram_declaration, subprogram_sections, type_declaration, type_sections,
    var_declaration, var_sections, Parsed, Partial,
};
use crate::node::{Label, Tree};
use crate::token::TokenView;
use vstd::prelude::*;

verus! {

/// The run that a declaration belongs to: 0 for constants, 1 for types, 2
/// for variables, 3 for subprograms, and 4 for what is no declaration.
pub open spec fn run_of(label: Label) -> int {
    match label {
        Label::ConstDeclaration => 0,
        Label::TypeDeclaration => 1,
        Label::VarDeclaration => 2,
        Label::SubprogramDeclaration => 3,
        _ => 4,
    }
}

/// Whether a row of trees holds declarations only, of the runs up to `run`,
/// and none of an earlier run behind one of a later run.
pub open spec fn in_order(trees: Seq<Tree>, run: int) -> bool {
    &&& forall|i: int| 0 <= i < trees.len() ==> run_of(#[trigger] trees[i].label) <= run
    &&& forall|i: int, j: int|
        0 <= i <= j < trees.len() ==> run_of(#[trigger] trees[i].label) <= run_of(
            #[trigger] trees[j].label,
        )
}

/// Whether what a rule has gathered is in order, if the rule has not failed.
pub open spec fn gathered_in_order(p: Partial, run: int) -> bool {
    p.ok() ==> in_order(p.children, run)
}

proof fn lemma_one_more(p: Partial, part: Parsed, run: int)
    requires
        gathered_in_order(p, run),
        part matches Ok((tree, _)) ==> run_of(tree.label) == run,
    ensures
        gathered_in_order(p.attach(part), run),
{
    if p.ok() {
        match part {
            Ok((tree, next)) => {
                let more = p.children.push(tree);
                assert forall|i: int| 0 <= i < more.len() implies run_of(
                    #[trigger] more[i].label,
                ) <= run by {
                    if i < p.children.len() {
                        assert(more[i] == p.children[i]);
                    }
                }
                assert forall|i: int, j: int| 0 <= i <= j < more.len() implies run_of(
                    #[trigger] more[i].label,
                ) <= run_of(#[trigger] more[j].label) by {
                    if j < p.children.len() {
                        assert(more[i] == p.children[i]);
                        assert(more[j] == p.children[j]);
                    } else if i < p.children.len() {
                        assert(more[i] == p.children[i]);
                    }
                }
            },
            Err(_) => {},
        }
    }
}

proof fn lemma_const_sections(ts: Seq<TokenView>, p: Partial)
    requires
        gathered_in_order(p, 0),
    ensures
        gathered_in_order(const_sections(ts, p), 0),
    decreases remaining(ts, p.next),
{
    reveal(const_sections);
    reveal(const_declaration);
    if p.ok() && is_keyword(ts, p.next, "konstanta"@) {
        lemma_one_more(p, const_declaration(ts, p.next), 0);
        let q = p.attach(const_declaration(ts, p.next));
        if q.ok() && q.next > p.next {
            lemma_const_sections(ts, q);
        }
    }
}

proof fn lemma_type_sections(ts: Seq<TokenView>, p: Partial)
    requires
        gathered_in_order(p, 1),
    ensures
        gathered_in_order(type_sections(ts, p), 1),
    decreases remaining(ts, p.next),
{
    reveal(type_sections);
    reveal(type_declaration);
    if p.ok() && is_keyword(ts, p.next, "tipe"@) {
        lemma_one_more(p, type_declaration(ts, p.next), 1);
        let q = p.attach(type_declaration(ts, p.next));
        if q.ok() && q.next > p.next {
            lemma_type_sections(ts, q);
        }
    }
}

proof fn lemma_var_sections(ts: Seq<TokenView>, p: Partial)
    requires
        gathered_in_order(p, 2),
    ensures
        gathered_in_order(var_sections(ts, p), 2),
    decreases remaining(ts, p.next),
{
    reveal(var_sections);
    reveal(var_declaration);
    if p.ok() && is_keyword(ts, p.next, "variabel"@) {
        lemma_one_more(p, var_declaration(ts, p.next), 2);
        let q = p.attach(var_declaration(ts, p.next));
        if q.ok() && q.next > p.next {
            lemma_var_sections(ts, q);
        }
    }
}

proof fn lemma_subprogram_sections(ts: Seq<TokenView>, p: Partial)
    requires
        gathered_in_order(p, 3),
    ensures
        gathered_in_order(subprogram_sections(ts, p), 3),
    decreases remaining(ts, p.next),
{
    reveal(subprogram_sections);
    reveal(subprogram_declaration);
    if p.ok() && (is_keyword(ts, p.next, "prosedur"@) || is_keyword(ts, p.next, "fungsi"@)) {
        lemma_one_more(p, subprogram_declaration(ts, p.next), 3);
        let q = p.attach(subprogram_declaration(ts, p.next));
        if q.ok() && q.next > p.next {
            lemma_subprogram_sections(ts, q);
        }
    }
}

/// Declarations come in order. Where the grammar gives a declaration part,
/// its node is a declaration part whose parts are declarations only, and
/// they stand in four runs: all constant declarations first, then all type
/// declarations, then all variable declarations, then all subprogram
/// declarations.
pub proof fn law_declarations_come_in_order(ts: Seq<TokenView>, pos: int)
    ensures
        declaration_part(ts, pos) matches Ok((tree, _)) ==> tree.label == Label::DeclarationPart
            && in_order(tree.children, 3),
{
    reveal(declaration_part);
    reveal(subprogram_sections);
    let p0 = begin(pos);
    lemma_const_sections(ts, p0);
    let p1 = const_sections(ts, p0);
    assert(gathered_in_order(p1, 1));
    lemma_type_sections(ts, p1);
    let p2 = type_sections(ts, p1);
    assert(gathered_in_order(p2, 2));
    lemma_var_sections(ts, p2);
    let p3 = var_sections(ts, p2);
    assert(gathered_in_order(p3, 3));
    if p3.ok() && p3.next >= pos {
        lemma_subprogram_sections(ts, p3);
    }
}

/// A keyword of an earlier run ends the declaration part. Where the run of
/// variable declarations has been read and `konstanta` or `tipe` stands
/// next, nothing more is read into the declaration part.
pub proof fn law_an_earlier_keyword_ends_the_part(ts: Seq<TokenView>, p: Partial)
    requires
        is_keyword(ts, p.next, "konstanta"@) || is_keyword(ts, p.next, "tipe"@),
    ensures
        var_sections(ts, p) == p,
        subprogram_sections(ts, p) == p,
{
    reveal(var_sections);
    reveal(subprogram_sections);
    reveal_strlit("konstanta");
    reveal_strlit("tipe");
    reveal_strlit("variabel");
    reveal_strlit("prosedur");
    reveal_strlit("fungsi");
    if p.ok() && 0 <= p.next < ts.len() {
        let text = ts[p.next].text;
        if text == "konstanta"@ {
            assert(text.len() == 9);
        } else {
            assert(text.len() == 4);
            assert(text[0] == 't');
        }
        assert("variabel"@.len() == 8);
        assert("prosedur"@.len() == 8);
        assert("fungsi"@.len() == 6);
    }
}

} // verus!
