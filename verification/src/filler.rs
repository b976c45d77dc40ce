//! White space and comments are filler: they separate tokens and add none.
//!
//! A text is filler where putting it in front of any text leaves the tokens
//! of that text as they are. Runs of white space are filler, comments are,
//! and so is filler behind filler. A text that is written as tokens with
//! filler in front of each, where every token is read whole in the place
//! where it stands, has just these tokens; so two texts written with the
//! same tokens have the same tokens, whatever filler each of them holds.
//!
//! That a token is read whole where it stands does not hold of every table
//! and text. A table may carry a scan on over a blank but not over a line
//! break, and then a blank in the place of a line break joins two tokens;
//! and a blank inside a quoted text is part of the token. It holds where the
//! character behind the token has no way out of the state in which the
//! token ends; a text of which that holds throughout is called tidy.

use crate::dfa::Dfa;
use crate::lexer::{
    all_white_space, classify, law_leading_comment_is_transparent,
    law_leading_white_space_is_transparent, law_tokens_depend_on_the_rest_only,
    lemma_next_token_advances, next_token, opens_comment, scan, skip_spaces, tokens_of, ScanEnd,
};
use crate::text::white_space;
use crate::token::TokenView;
use vstd::prelude::*;

verus! {

/// Whether a text is filler: any text has the same tokens with it in front.
pub open spec fn is_filler(dfa: Dfa, filler: Seq<char>) -> bool {
    forall|rest: Seq<char>| #[trigger] tokens_of(dfa, filler + rest) == tokens_of(dfa, rest)
}

/// Whether a text is a comment: it does not begin with white space, and the
/// scan over it comes back to the start state at its end, over a text that
/// opens a comment.
pub open spec fn is_comment(dfa: Dfa, comment: Seq<char>) -> bool {
    &&& comment.len() > 0
    &&& !white_space(comment[0])
    &&& scan(dfa, comment, 0, 0, dfa.start_state@, None) == (ScanEnd::Restart {
        position: comment.len() as int,
    })
}

/// Whether a text is read as one token in front of another text: reading
/// the two gives the token and stops behind the first.
pub open spec fn reads_as(dfa: Dfa, text: Seq<char>, token: TokenView, rest: Seq<char>) -> bool {
    next_token(dfa, text + rest, 0).token == Some(token) && next_token(dfa, text + rest, 0).position
        == text.len()
}

/// A token as it stands in a text: the filler in front of it, its own text,
/// the token that it is, and the state in which its scan ends.
pub struct Piece {
    pub filler: Seq<char>,
    pub text: Seq<char>,
    pub token: TokenView,
    pub state: Seq<char>,
}

/// The text that is written with the pieces from index `from` on and the
/// given end.
pub open spec fn written(pieces: Seq<Piece>, from: int, end: Seq<char>) -> Seq<char>
    decreases pieces.len() - from,
{
    if from < 0 || from >= pieces.len() {
        end
    } else {
        pieces[from].filler + (pieces[from].text + written(pieces, from + 1, end))
    }
}

/// The tokens of the pieces from index `from` on.
pub open spec fn tokens_in(pieces: Seq<Piece>, from: int) -> Seq<TokenView>
    decreases pieces.len() - from,
{
    if from < 0 || from >= pieces.len() {
        Seq::empty()
    } else {
        seq![pieces[from].token] + tokens_in(pieces, from + 1)
    }
}

/// Whether a text is written well with its pieces: what stands in front of
/// each token is filler, each token is read whole in front of what follows
/// it, and the end holds no token.
pub open spec fn well_written(dfa: Dfa, pieces: Seq<Piece>, end: Seq<char>) -> bool {
    &&& tokens_of(dfa, end) == Seq::<TokenView>::empty()
    &&& forall|i: int|
        0 <= i < pieces.len() ==> is_filler(dfa, (#[trigger] pieces[i]).filler) && reads_as(
            dfa,
            pieces[i].text,
            pieces[i].token,
            written(pieces, i + 1, end),
        )
}

/// Whether a text is written tidily with its pieces. What stands in front
/// of each token is filler. Each token's text is one token by itself, of the
/// category that its final state names. And each token ends where its text
/// ends: the character behind it, if there is one, has no way out of the
/// state in which the token ends. The end of the text holds no token.
pub open spec fn tidy(dfa: Dfa, pieces: Seq<Piece>, end: Seq<char>) -> bool {
    &&& tokens_of(dfa, end) == Seq::<TokenView>::empty()
    &&& forall|i: int|
        0 <= i < pieces.len() ==> {
            let piece = #[trigger] pieces[i];
            let behind = written(pieces, i + 1, end);
            &&& is_filler(dfa, piece.filler)
            &&& is_token(dfa, piece.text, piece.state)
            &&& dfa.final_kind(piece.state) matches Some(name) && piece.token == classify(
                dfa,
                name,
                piece.text,
            )
            &&& behind.len() == 0 || dfa.next_state(piece.state, behind[0]) is None
        }
}

/// Nothing is filler.
pub proof fn law_nothing_is_filler(dfa: Dfa)
    ensures
        is_filler(dfa, Seq::empty()),
{
    assert forall|rest: Seq<char>| #[trigger]
        tokens_of(dfa, Seq::<char>::empty() + rest) == tokens_of(dfa, rest) by {
        assert(Seq::<char>::empty() + rest =~= rest);
    }
}

/// White space is filler.
pub proof fn law_white_space_is_filler(dfa: Dfa, space: Seq<char>)
    requires
        all_white_space(space),
    ensures
        is_filler(dfa, space),
{
    assert forall|rest: Seq<char>| #[trigger] tokens_of(dfa, space + rest) == tokens_of(
        dfa,
        rest,
    ) by {
        law_leading_white_space_is_transparent(dfa, space, rest);
    }
}

/// A comment is filler.
pub proof fn law_a_comment_is_filler(dfa: Dfa, comment: Seq<char>)
    requires
        is_comment(dfa, comment),
    ensures
        is_filler(dfa, comment),
{
    assert forall|rest: Seq<char>| #[trigger] tokens_of(dfa, comment + rest) == tokens_of(
        dfa,
        rest,
    ) by {
        law_leading_comment_is_transparent(dfa, comment, rest);
    }
}

/// Filler behind filler is filler.
pub proof fn law_filler_joins(dfa: Dfa, first: Seq<char>, second: Seq<char>)
    requires
        is_filler(dfa, first),
        is_filler(dfa, second),
    ensures
        is_filler(dfa, first + second),
{
    assert forall|rest: Seq<char>| #[trigger]
        tokens_of(dfa, (first + second) + rest) == tokens_of(dfa, rest) by {
        assert((first + second) + rest =~= first + (second + rest));
        assert(tokens_of(dfa, first + (second + rest)) == tokens_of(dfa, second + rest));
        assert(tokens_of(dfa, second + rest) == tokens_of(dfa, rest));
    }
}

/// Filler alone has no tokens.
pub proof fn law_filler_has_no_tokens(dfa: Dfa, filler: Seq<char>)
    requires
        is_filler(dfa, filler),
    ensures
        tokens_of(dfa, filler) == Seq::<TokenView>::empty(),
{
    let nothing = Seq::<char>::empty();
    assert(filler + nothing =~= filler);
    assert(tokens_of(dfa, filler + nothing) == tokens_of(dfa, nothing));
    reveal_with_fuel(skip_spaces, 1);
    assert(next_token(dfa, nothing, 0).token is None);
}

/// Whether a text by itself is read as one token, from its first character
/// to its last, ending in the given state.
pub open spec fn is_token(dfa: Dfa, text: Seq<char>, state: Seq<char>) -> bool {
    &&& text.len() > 0
    &&& !white_space(text[0])
    &&& scan(dfa, text, 0, 0, dfa.start_state@, None) == (ScanEnd::Stop {
        last: Some((state, text.len() as int)),
    })
}

proof fn lemma_scan_in_front(
    dfa: Dfa,
    text: Seq<char>,
    rest: Seq<char>,
    pos: int,
    state: Seq<char>,
    last: Option<(Seq<char>, int)>,
    end_state: Seq<char>,
)
    requires
        0 <= pos <= text.len(),
        last matches Some((s, e)) ==> e <= pos && (e == pos ==> s == state),
        scan(dfa, text, 0, pos, state, last) == (ScanEnd::Stop {
            last: Some((end_state, text.len() as int)),
        }),
        rest.len() == 0 || dfa.next_state(end_state, rest[0]) is None,
    ensures
        scan(dfa, text + rest, 0, pos, state, last) == (ScanEnd::Stop {
            last: Some((end_state, text.len() as int)),
        }),
    decreases text.len() - pos,
{
    let whole = text + rest;
    if pos < text.len() {
        assert(whole[pos] == text[pos]);
        assert(whole[0] == text[0]);
        if 1 < text.len() {
            assert(whole[1] == text[1]);
        }
        assert(opens_comment(whole, 0, pos + 1) == opens_comment(text, 0, pos + 1));
        match dfa.next_state(state, text[pos]) {
            None => {},
            Some(next) => {
                let last2 = if dfa.final_kind(next) is Some {
                    Some((next, pos + 1))
                } else {
                    last
                };
                if next == dfa.start_state@ && opens_comment(text, 0, pos + 1) {
                } else {
                    lemma_scan_in_front(dfa, text, rest, pos + 1, next, last2, end_state);
                }
            },
        }
    } else {
        if rest.len() > 0 {
            assert(whole[pos] == rest[0]);
        }
    }
}

/// A token is read whole in front of a character that ends it. Where a text
/// by itself is one token, it is read as that token in front of any text
/// whose first character has no way out of the state in which the token
/// ends, and at the end of the source.
pub proof fn law_a_token_is_read_whole(
    dfa: Dfa,
    text: Seq<char>,
    state: Seq<char>,
    name: Seq<char>,
    rest: Seq<char>,
)
    requires
        is_token(dfa, text, state),
        dfa.final_kind(state) == Some(name),
        rest.len() == 0 || dfa.next_state(state, rest[0]) is None,
    ensures
        reads_as(dfa, text, classify(dfa, name, text), rest),
{
    let whole = text + rest;
    lemma_scan_in_front(dfa, text, rest, 0, dfa.start_state@, None, state);
    assert(whole[0] == text[0]);
    assert(whole.subrange(0, text.len() as int) =~= text);
    reveal_with_fuel(skip_spaces, 1);
}

/// A tidy text is written well: each of its tokens is read whole where it
/// stands.
pub proof fn law_a_tidy_text_is_written_well(dfa: Dfa, pieces: Seq<Piece>, end: Seq<char>)
    requires
        tidy(dfa, pieces, end),
    ensures
        well_written(dfa, pieces, end),
{
    assert forall|i: int| 0 <= i < pieces.len() implies is_filler(
        dfa,
        (#[trigger] pieces[i]).filler,
    ) && reads_as(dfa, pieces[i].text, pieces[i].token, written(pieces, i + 1, end)) by {
        let piece = pieces[i];
        law_a_token_is_read_whole(
            dfa,
            piece.text,
            piece.state,
            dfa.final_kind(piece.state)->0,
            written(pieces, i + 1, end),
        );
    }
}

/// White space and comments are transparent in tidy texts. Two tidy texts
/// with the same tokens in the same order have the same tokens, whatever
/// filler stands in each: comments may be taken out or put in, and runs of
/// white space made longer or shorter, as long as both texts stay tidy.
pub proof fn law_tidy_texts_with_the_same_tokens_are_read_alike(
    dfa: Dfa,
    one: Seq<Piece>,
    one_end: Seq<char>,
    other: Seq<Piece>,
    other_end: Seq<char>,
)
    requires
        tidy(dfa, one, one_end),
        tidy(dfa, other, other_end),
        one.len() == other.len(),
        forall|i: int| 0 <= i < one.len() ==> (#[trigger] one[i]).token == other[i].token,
    ensures
        tokens_of(dfa, written(one, 0, one_end)) == tokens_of(dfa, written(other, 0, other_end)),
        tokens_of(dfa, written(one, 0, one_end)) == tokens_in(one, 0),
{
    law_a_tidy_text_is_written_well(dfa, one, one_end);
    law_a_tidy_text_is_written_well(dfa, other, other_end);
    law_filler_does_not_change_the_tokens(dfa, one, one_end, other, other_end);
    law_a_text_has_the_tokens_it_is_written_with(dfa, one, one_end, 0);
}

/// A token that is read whole is the first token, and the rest has the
/// tokens that it has by itself.
pub proof fn law_a_whole_token_comes_first(
    dfa: Dfa,
    text: Seq<char>,
    token: TokenView,
    rest: Seq<char>,
)
    requires
        reads_as(dfa, text, token, rest),
    ensures
        tokens_of(dfa, text + rest) == seq![token] + tokens_of(dfa, rest),
{
    lemma_next_token_advances(dfa, text + rest, 0);
    law_tokens_depend_on_the_rest_only(dfa, text, rest, 0);
}

/// The tokens of a text that is written well are the tokens it is written
/// with: the filler adds none and changes none.
pub proof fn law_a_text_has_the_tokens_it_is_written_with(
    dfa: Dfa,
    pieces: Seq<Piece>,
    end: Seq<char>,
    from: int,
)
    requires
        well_written(dfa, pieces, end),
        0 <= from <= pieces.len(),
    ensures
        tokens_of(dfa, written(pieces, from, end)) == tokens_in(pieces, from),
    decreases pieces.len() - from,
{
    if from < pieces.len() {
        let piece = pieces[from];
        let rest = written(pieces, from + 1, end);
        law_a_text_has_the_tokens_it_is_written_with(dfa, pieces, end, from + 1);
        law_a_whole_token_comes_first(dfa, piece.text, piece.token, rest);
        assert(tokens_of(dfa, piece.filler + (piece.text + rest)) == tokens_of(
            dfa,
            piece.text + rest,
        ));
    }
}

/// Filler does not change the tokens. Two texts that are written well with
/// the same tokens in the same order have the same tokens, whatever white
/// space and comments stand in front of, between and behind the tokens of
/// the one and of the other.
pub proof fn law_filler_does_not_change_the_tokens(
    dfa: Dfa,
    one: Seq<Piece>,
    one_end: Seq<char>,
    other: Seq<Piece>,
    other_end: Seq<char>,
)
    requires
        well_written(dfa, one, one_end),
        well_written(dfa, other, other_end),
        one.len() == other.len(),
        forall|i: int| 0 <= i < one.len() ==> (#[trigger] one[i]).token == other[i].token,
    ensures
        tokens_of(dfa, written(one, 0, one_end)) == tokens_of(dfa, written(other, 0, other_end)),
{
    law_a_text_has_the_tokens_it_is_written_with(dfa, one, one_end, 0);
    law_a_text_has_the_tokens_it_is_written_with(dfa, other, other_end, 0);
    lemma_same_tokens(one, other, 0);
}

proof fn lemma_same_tokens(one: Seq<Piece>, other: Seq<Piece>, from: int)
    requires
        one.len() == other.len(),
        forall|i: int| 0 <= i < one.len() ==> (#[trigger] one[i]).token == other[i].token,
        0 <= from <= one.len(),
    ensures
        tokens_in(one, from) == tokens_in(other, from),
    decreases one.len() - from,
{
    if from < one.len() {
        assert(one[from].token == other[from].token);
        lemma_same_tokens(one, other, from + 1);
    }
}

} // verus!
