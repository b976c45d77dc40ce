//! The lexer: it reads the source one character at a time through the
//! transition table and hands out one token per call.
//!
//! A token is the longest text from where the scan began that ends in a
//! final state: the scan runs on as long as the table has a way out, and
//! then goes back to the last place where a token could end. White space
//! before a token is passed over; so is a comment, which is any text that
//! opens with `{` or `(*` and brings the table back to its start state.

use crate::dfa::{kind_named, kind_of_name, Dfa};
use crate::text::{chars_of, contains_text, is_space, lists, same_text, text_of, white_space};
use crate::token::{token_views, Token, TokenType, TokenView};
use vstd::prelude::*;

verus! {

/// A place where no token could be read: the character at which the scan
/// began, and its position in the source.
#[derive(Clone, Copy, Debug, PartialEq, Eq, Structural)]
pub struct LexError {
    pub character: char,
    pub position: usize,
}

/// How a scan ends: at a comment's end, from where the lexer starts over,
/// or where the table has no way out, with the last place where a token
/// could end (the final state and the position behind the token), if the
/// scan passed one.
pub enum ScanEnd {
    Restart { position: int },
    Stop { last: Option<(Seq<char>, int)> },
}

/// What one call of the lexer gives: the token, if there is one; the
/// position from which the next call reads; and the error, if no token could
/// be read.
pub struct Lexed {
    pub token: Option<TokenView>,
    pub position: int,
    pub error: Option<LexError>,
}

/// The first position from `pos` on that holds no white space.
pub open spec fn skip_spaces(src: Seq<char>, pos: int) -> int
    decreases src.len() - pos,
{
    if 0 <= pos < src.len() && white_space(src[pos]) {
        skip_spaces(src, pos + 1)
    } else {
        pos
    }
}

/// Whether the text `src[start..end]` opens a comment.
pub open spec fn opens_comment(src: Seq<char>, start: int, end: int) -> bool {
    0 <= start < end <= src.len() && (src[start] == '{' || (end - start >= 2 && src[start] == '('
        && src[start + 1] == '*'))
}

/// Runs the table from `state` over the source from `pos` on, for a scan
/// that began at `start`.
pub open spec fn scan(
    dfa: Dfa,
    src: Seq<char>,
    start: int,
    pos: int,
    state: Seq<char>,
    last: Option<(Seq<char>, int)>,
) -> ScanEnd
    decreases src.len() - pos,
{
    if pos < 0 || pos >= src.len() {
        ScanEnd::Stop { last }
    } else {
        match dfa.next_state(state, src[pos]) {
            None => ScanEnd::Stop { last },
            Some(next) => {
                let last = if dfa.final_kind(next) is Some {
                    Some((next, pos + 1))
                } else {
                    last
                };
                if next == dfa.start_state@ && opens_comment(src, start, pos + 1) {
                    ScanEnd::Restart { position: pos + 1 }
                } else {
                    scan(dfa, src, start, pos + 1, next, last)
                }
            },
        }
    }
}

/// The category of a word: a keyword, a word operator, or an identifier.
/// The keyword list is asked first, then the logical operators, then the
/// arithmetic ones.
pub open spec fn word_kind(dfa: Dfa, text: Seq<char>) -> TokenType {
    if lists(dfa.keywords@, text) {
        TokenType::Keyword
    } else if lists(dfa.word_logical_operators@, text) {
        TokenType::LogicalOperator
    } else if lists(dfa.word_arithmetic_operators@, text) {
        TokenType::ArithmeticOperator
    } else {
        TokenType::Identifier
    }
}

/// The token for a text that ended in a final state of the named category.
/// A word is looked up in the word lists, and a quoted text with exactly
/// one character between its quotes is a character literal.
pub open spec fn classify(dfa: Dfa, name: Seq<char>, text: Seq<char>) -> TokenView {
    let kind = match kind_of_name(name) {
        Some(kind) => kind,
        None => TokenType::Identifier,
    };
    let kind = if kind == TokenType::Identifier {
        word_kind(dfa, text)
    } else if kind == TokenType::StringLiteral && text.len() == 3 {
        TokenType::CharLiteral
    } else {
        kind
    };
    TokenView { kind, text }
}

/// What a call gives where no token can be read at `start`: the error, and
/// the rest of the source given up.
pub open spec fn failed(src: Seq<char>, start: int) -> Lexed {
    Lexed {
        token: None,
        position: src.len() as int,
        error: Some(LexError { character: src[start], position: start as usize }),
    }
}

/// What a call of the lexer gives at a position of the source.
pub open spec fn next_token(dfa: Dfa, src: Seq<char>, pos: int) -> Lexed
    decreases src.len() - pos,
{
    let start = skip_spaces(src, pos);
    if start < 0 || start >= src.len() {
        Lexed { token: None, position: start, error: None }
    } else {
        match scan(dfa, src, start, start, dfa.start_state@, None) {
            ScanEnd::Restart { position } => if pos <= start < position <= src.len() {
                next_token(dfa, src, position)
            } else {
                failed(src, start)
            },
            ScanEnd::Stop { last: Some((state, end)) } => match dfa.final_kind(state) {
                Some(name) => Lexed {
                    token: Some(classify(dfa, name, src.subrange(start, end))),
                    position: end,
                    error: None,
                },
                None => failed(src, start),
            },
            ScanEnd::Stop { last: None } => failed(src, start),
        }
    }
}

/// Skipping white space never goes backwards, and stops at the end of the
/// source at the latest.
pub proof fn lemma_skip_spaces_bounds(src: Seq<char>, pos: int)
    requires
        0 <= pos <= src.len(),
    ensures
        pos <= skip_spaces(src, pos) <= src.len(),
    decreases src.len() - pos,
{
    if pos < src.len() && white_space(src[pos]) {
        lemma_skip_spaces_bounds(src, pos + 1);
    }
}

/// White space before a token does not count. Reading from a position that
/// holds white space gives the token, the next position and the error that
/// reading from the position behind it gives.
pub proof fn law_white_space_is_passed_over(dfa: Dfa, src: Seq<char>, pos: int)
    requires
        0 <= pos < src.len(),
        white_space(src[pos]),
    ensures
        next_token(dfa, src, pos) == next_token(dfa, src, pos + 1),
{
    lemma_skip_spaces_bounds(src, pos + 1);
}

/// A comment before a token does not count. Where the scan that begins at
/// a position comes back to the start state at `end`, over a text that opens
/// a comment, reading from the position gives what reading from `end` gives.
pub proof fn law_comment_is_passed_over(dfa: Dfa, src: Seq<char>, pos: int, end: int)
    requires
        0 <= pos < end <= src.len(),
        !white_space(src[pos]),
        scan(dfa, src, pos, pos, dfa.start_state@, None) == (ScanEnd::Restart { position: end }),
    ensures
        next_token(dfa, src, pos) == next_token(dfa, src, end),
{
}

/// The state that the table is in after it has read a text from a state,
/// if it has a way out at every character.
pub open spec fn run(dfa: Dfa, state: Seq<char>, text: Seq<char>) -> Option<Seq<char>>
    decreases text.len(),
{
    if text.len() == 0 {
        Some(state)
    } else {
        match run(dfa, state, text.drop_last()) {
            Some(before) => dfa.next_state(before, text.last()),
            None => None,
        }
    }
}

/// Whether a text, read from the start state, ends in a final state.
pub open spec fn accepted(dfa: Dfa, text: Seq<char>) -> bool {
    match run(dfa, dfa.start_state@, text) {
        Some(state) => dfa.final_kind(state) is Some,
        None => false,
    }
}

/// Whether no text `src[start..q]` with `q` in `from + 1..=to` is accepted.
pub open spec fn none_accepted(dfa: Dfa, src: Seq<char>, start: int, from: int, to: int) -> bool {
    forall|q: int| from < q <= to ==> !accepted(dfa, #[trigger] src.subrange(start, q))
}

/// Once the table has no way out, it has none later.
proof fn lemma_run_stays_stuck(dfa: Dfa, src: Seq<char>, start: int, stuck: int, q: int)
    requires
        0 <= start <= stuck <= q <= src.len(),
        run(dfa, dfa.start_state@, src.subrange(start, stuck)) is None,
    ensures
        run(dfa, dfa.start_state@, src.subrange(start, q)) is None,
    decreases q - stuck,
{
    if q > stuck {
        lemma_run_stays_stuck(dfa, src, start, stuck, q - 1);
        assert(src.subrange(start, q).drop_last() =~= src.subrange(start, q - 1));
    }
}

proof fn lemma_scan_is_greedy(
    dfa: Dfa,
    src: Seq<char>,
    start: int,
    pos: int,
    state: Seq<char>,
    last: Option<(Seq<char>, int)>,
)
    requires
        0 <= start <= pos <= src.len(),
        run(dfa, dfa.start_state@, src.subrange(start, pos)) == Some(state),
        match last {
            Some((_, end)) => start < end <= pos && accepted(dfa, src.subrange(start, end))
                && none_accepted(dfa, src, start, end, pos),
            None => none_accepted(dfa, src, start, start, pos),
        },
    ensures
        match scan(dfa, src, start, pos, state, last) {
            ScanEnd::Stop { last: Some((_, end)) } => start < end <= src.len() && accepted(
                dfa,
                src.subrange(start, end),
            ) && none_accepted(dfa, src, start, end, src.len() as int),
            ScanEnd::Stop { last: None } => none_accepted(
                dfa,
                src,
                start,
                start,
                src.len() as int,
            ),
            ScanEnd::Restart { .. } => true,
        },
    decreases src.len() - pos,
{
    let floor = match last {
        Some((_, end)) => end,
        None => start,
    };
    if pos >= src.len() {
    } else {
        assert(src.subrange(start, pos + 1).drop_last() =~= src.subrange(start, pos));
        assert(src.subrange(start, pos + 1).last() == src[pos]);
        match dfa.next_state(state, src[pos]) {
            None => {
                assert(run(dfa, dfa.start_state@, src.subrange(start, pos + 1)) is None);
                assert forall|q: int| floor < q <= src.len() implies !accepted(
                    dfa,
                    #[trigger] src.subrange(start, q),
                ) by {
                    if q > pos {
                        lemma_run_stays_stuck(dfa, src, start, pos + 1, q);
                    }
                }
            },
            Some(next) => {
                assert(run(dfa, dfa.start_state@, src.subrange(start, pos + 1)) == Some(next));
                let last2 = if dfa.final_kind(next) is Some {
                    Some((next, pos + 1))
                } else {
                    last
                };
                if next == dfa.start_state@ && opens_comment(src, start, pos + 1) {
                } else {
                    lemma_scan_is_greedy(dfa, src, start, pos + 1, next, last2);
                }
            },
        }
    }
}

/// The longest match. Where a scan from a position ends with a token, the
/// token's text is accepted by the table, and no longer text from the same
/// position is: of all the texts there that end in a final state, the token
/// is the longest. And where a scan ends without a token, no text from that
/// position is accepted at all.
pub proof fn law_longest_match(dfa: Dfa, src: Seq<char>, start: int)
    requires
        0 <= start <= src.len(),
    ensures
        match scan(dfa, src, start, start, dfa.start_state@, None) {
            ScanEnd::Stop { last: Some((_, end)) } => start < end <= src.len() && accepted(
                dfa,
                src.subrange(start, end),
            ) && none_accepted(dfa, src, start, end, src.len() as int),
            ScanEnd::Stop { last: None } => none_accepted(
                dfa,
                src,
                start,
                start,
                src.len() as int,
            ),
            ScanEnd::Restart { .. } => true,
        },
{
    assert(src.subrange(start, start) =~= Seq::<char>::empty());
    lemma_scan_is_greedy(dfa, src, start, start, dfa.start_state@, None);
}

/// All the tokens that the lexer gives from a position on, in order, up to
/// the end of the source or to the first place where no token can be read.
pub open spec fn tokens_from(dfa: Dfa, src: Seq<char>, pos: int) -> Seq<TokenView>
    decreases src.len() - pos,
{
    let lexed = next_token(dfa, src, pos);
    match lexed.token {
        Some(token) => if pos < lexed.position <= src.len() {
            seq![token] + tokens_from(dfa, src, lexed.position)
        } else {
            seq![token]
        },
        None => Seq::empty(),
    }
}

/// All the tokens of a source text.
pub open spec fn tokens_of(dfa: Dfa, src: Seq<char>) -> Seq<TokenView> {
    tokens_from(dfa, src, 0)
}

/// Where a scan ends, it ends inside the source and behind its beginning.
proof fn lemma_scan_bounds(
    dfa: Dfa,
    src: Seq<char>,
    start: int,
    pos: int,
    state: Seq<char>,
    last: Option<(Seq<char>, int)>,
)
    requires
        0 <= start <= pos <= src.len(),
        last matches Some((_, end)) ==> start < end <= pos,
    ensures
        match scan(dfa, src, start, pos, state, last) {
            ScanEnd::Stop { last: Some((_, end)) } => start < end <= src.len(),
            ScanEnd::Stop { last: None } => true,
            ScanEnd::Restart { position } => pos < position <= src.len(),
        },
    decreases src.len() - pos,
{
    if pos < src.len() {
        match dfa.next_state(state, src[pos]) {
            None => {},
            Some(next) => {
                let last2 = if dfa.final_kind(next) is Some {
                    Some((next, pos + 1))
                } else {
                    last
                };
                if next == dfa.start_state@ && opens_comment(src, start, pos + 1) {
                } else {
                    lemma_scan_bounds(dfa, src, start, pos + 1, next, last2);
                }
            },
        }
    }
}

/// The lexer never goes backwards, and a token always takes it forward.
pub proof fn lemma_next_token_advances(dfa: Dfa, src: Seq<char>, pos: int)
    requires
        0 <= pos <= src.len(),
    ensures
        pos <= next_token(dfa, src, pos).position <= src.len(),
        next_token(dfa, src, pos).token is Some ==> pos < next_token(dfa, src, pos).position,
    decreases src.len() - pos,
{
    lemma_skip_spaces_bounds(src, pos);
    let start = skip_spaces(src, pos);
    if start < src.len() {
        lemma_scan_bounds(dfa, src, start, start, dfa.start_state@, None);
        match scan(dfa, src, start, start, dfa.start_state@, None) {
            ScanEnd::Restart { position } => {
                lemma_next_token_advances(dfa, src, position);
            },
            _ => {},
        }
    }
}

/// A position behind a text that was put in front of the source.
pub open spec fn moved(last: Option<(Seq<char>, int)>, by: int) -> Option<(Seq<char>, int)> {
    match last {
        Some((state, end)) => Some((state, end + by)),
        None => None,
    }
}

/// The end of a scan behind a text that was put in front of the source.
pub open spec fn moved_end(end: ScanEnd, by: int) -> ScanEnd {
    match end {
        ScanEnd::Restart { position } => ScanEnd::Restart { position: position + by },
        ScanEnd::Stop { last } => ScanEnd::Stop { last: moved(last, by) },
    }
}

proof fn lemma_skip_spaces_moved(front: Seq<char>, src: Seq<char>, pos: int)
    requires
        0 <= pos <= src.len(),
    ensures
        skip_spaces(front + src, front.len() + pos) == front.len() + skip_spaces(src, pos),
    decreases src.len() - pos,
{
    if pos < src.len() {
        assert((front + src)[front.len() + pos] == src[pos]);
        if white_space(src[pos]) {
            lemma_skip_spaces_moved(front, src, pos + 1);
        }
    }
}

proof fn lemma_scan_moved(
    dfa: Dfa,
    front: Seq<char>,
    src: Seq<char>,
    start: int,
    pos: int,
    state: Seq<char>,
    last: Option<(Seq<char>, int)>,
)
    requires
        0 <= start <= pos <= src.len(),
    ensures
        scan(dfa, front + src, front.len() + start, front.len() + pos, state, moved(last, front.len() as int))
            == moved_end(scan(dfa, src, start, pos, state, last), front.len() as int),
    decreases src.len() - pos,
{
    let by = front.len() as int;
    let whole = front + src;
    if pos < src.len() {
        assert(whole[by + pos] == src[pos]);
        assert(whole[by + start] == src[start]);
        if start + 1 < src.len() {
            assert(whole[by + start + 1] == src[start + 1]);
        }
        match dfa.next_state(state, src[pos]) {
            None => {},
            Some(next) => {
                let last2 = if dfa.final_kind(next) is Some {
                    Some((next, pos + 1))
                } else {
                    last
                };
                assert(opens_comment(whole, by + start, by + pos + 1) == opens_comment(
                    src,
                    start,
                    pos + 1,
                ));
                if next == dfa.start_state@ && opens_comment(src, start, pos + 1) {
                } else {
                    lemma_scan_moved(dfa, front, src, start, pos + 1, next, last2);
                }
            },
        }
    }
}

proof fn lemma_next_token_moved(dfa: Dfa, front: Seq<char>, src: Seq<char>, pos: int)
    requires
        0 <= pos <= src.len(),
    ensures
        next_token(dfa, front + src, front.len() + pos).token == next_token(dfa, src, pos).token,
        next_token(dfa, front + src, front.len() + pos).position == front.len() + next_token(
            dfa,
            src,
            pos,
        ).position,
    decreases src.len() - pos,
{
    let by = front.len() as int;
    let whole = front + src;
    lemma_skip_spaces_moved(front, src, pos);
    lemma_skip_spaces_bounds(src, pos);
    let start = skip_spaces(src, pos);
    if start < src.len() {
        lemma_scan_moved(dfa, front, src, start, start, dfa.start_state@, None);
        lemma_scan_bounds(dfa, src, start, start, dfa.start_state@, None);
        match scan(dfa, src, start, start, dfa.start_state@, None) {
            ScanEnd::Restart { position } => {
                lemma_next_token_moved(dfa, front, src, position);
            },
            ScanEnd::Stop { last: Some((state, end)) } => {
                assert(whole.subrange(by + start, by + end) =~= src.subrange(start, end));
            },
            ScanEnd::Stop { last: None } => {},
        }
    }
}

/// The tokens depend on the rest of the text only. What the lexer gives
/// from a position on is what it gives for the text from that position on,
/// read by itself: what came before has no say.
pub proof fn law_tokens_depend_on_the_rest_only(dfa: Dfa, front: Seq<char>, src: Seq<char>, pos: int)
    requires
        0 <= pos <= src.len(),
    ensures
        tokens_from(dfa, front + src, front.len() + pos) == tokens_from(dfa, src, pos),
    decreases src.len() - pos,
{
    lemma_next_token_moved(dfa, front, src, pos);
    lemma_next_token_advances(dfa, src, pos);
    let lexed = next_token(dfa, src, pos);
    if lexed.token is Some {
        law_tokens_depend_on_the_rest_only(dfa, front, src, lexed.position);
    }
}

/// Whether every character of a text is white space.
pub open spec fn all_white_space(text: Seq<char>) -> bool {
    forall|i: int| 0 <= i < text.len() ==> white_space(#[trigger] text[i])
}

proof fn lemma_white_space_run(dfa: Dfa, space: Seq<char>, src: Seq<char>, k: int)
    requires
        all_white_space(space),
        0 <= k <= space.len(),
    ensures
        next_token(dfa, space + src, k) == next_token(dfa, space + src, space.len() as int),
    decreases space.len() - k,
{
    if k < space.len() {
        assert((space + src)[k] == space[k]);
        law_white_space_is_passed_over(dfa, space + src, k);
        lemma_white_space_run(dfa, space, src, k + 1);
    }
}

/// White space in front of a text is transparent. A text has the same
/// tokens with any run of white space put in front of it, or taken away
/// from its front.
pub proof fn law_leading_white_space_is_transparent(dfa: Dfa, space: Seq<char>, src: Seq<char>)
    requires
        all_white_space(space),
    ensures
        tokens_of(dfa, space + src) == tokens_of(dfa, src),
{
    let whole = space + src;
    lemma_white_space_run(dfa, space, src, 0);
    lemma_next_token_moved(dfa, space, src, 0);
    lemma_next_token_advances(dfa, src, 0);
    let lexed = next_token(dfa, src, 0);
    if lexed.token is Some {
        law_tokens_depend_on_the_rest_only(dfa, space, src, lexed.position);
    }
}

/// A comment in front of a text is transparent. Where a text that does not
/// begin with white space brings the table back to its start state at its
/// end, and opens a comment, any text has the same tokens with it in front.
pub proof fn law_leading_comment_is_transparent(dfa: Dfa, comment: Seq<char>, src: Seq<char>)
    requires
        comment.len() > 0,
        !white_space(comment[0]),
        scan(dfa, comment, 0, 0, dfa.start_state@, None) == (ScanEnd::Restart {
            position: comment.len() as int,
        }),
    ensures
        tokens_of(dfa, comment + src) == tokens_of(dfa, src),
{
    let whole = comment + src;
    lemma_scan_of_a_beginning(dfa, comment, src, 0, dfa.start_state@, None);
    assert(whole[0] == comment[0]);
    assert(next_token(dfa, whole, 0) == next_token(dfa, whole, comment.len() as int));
    lemma_next_token_moved(dfa, comment, src, 0);
    lemma_next_token_advances(dfa, src, 0);
    let lexed = next_token(dfa, src, 0);
    if lexed.token is Some {
        law_tokens_depend_on_the_rest_only(dfa, comment, src, lexed.position);
    }
}

/// White space is transparent wherever the lexer takes up its work. After
/// whatever text, the tokens that are read from its end on are the same
/// with a run of white space put in there or taken away.
pub proof fn law_white_space_between_tokens_is_transparent(
    dfa: Dfa,
    front: Seq<char>,
    space: Seq<char>,
    rest: Seq<char>,
)
    requires
        all_white_space(space),
    ensures
        tokens_from(dfa, front + (space + rest), front.len() as int) == tokens_from(
            dfa,
            front + rest,
            front.len() as int,
        ),
{
    law_tokens_depend_on_the_rest_only(dfa, front, space + rest, 0);
    law_tokens_depend_on_the_rest_only(dfa, front, rest, 0);
    law_leading_white_space_is_transparent(dfa, space, rest);
}

/// A comment is transparent wherever the lexer takes up its work.
pub proof fn law_comment_between_tokens_is_transparent(
    dfa: Dfa,
    front: Seq<char>,
    comment: Seq<char>,
    rest: Seq<char>,
)
    requires
        comment.len() > 0,
        !white_space(comment[0]),
        scan(dfa, comment, 0, 0, dfa.start_state@, None) == (ScanEnd::Restart {
            position: comment.len() as int,
        }),
    ensures
        tokens_from(dfa, front + (comment + rest), front.len() as int) == tokens_from(
            dfa,
            front + rest,
            front.len() as int,
        ),
{
    law_tokens_depend_on_the_rest_only(dfa, front, comment + rest, 0);
    law_tokens_depend_on_the_rest_only(dfa, front, rest, 0);
    law_leading_comment_is_transparent(dfa, comment, rest);
}

/// A scan that comes to a comment's end inside the beginning of a text
/// does so whatever follows.
proof fn lemma_scan_of_a_beginning(
    dfa: Dfa,
    beginning: Seq<char>,
    rest: Seq<char>,
    pos: int,
    state: Seq<char>,
    last: Option<(Seq<char>, int)>,
)
    requires
        0 <= pos <= beginning.len(),
        scan(dfa, beginning, 0, pos, state, last) is Restart,
    ensures
        scan(dfa, beginning + rest, 0, pos, state, last) == scan(dfa, beginning, 0, pos, state, last),
    decreases beginning.len() - pos,
{
    let whole = beginning + rest;
    if pos < beginning.len() {
        assert(whole[pos] == beginning[pos]);
        assert(whole[0] == beginning[0]);
        if 1 < beginning.len() {
            assert(whole[1] == beginning[1]);
        }
        match dfa.next_state(state, beginning[pos]) {
            None => {},
            Some(next) => {
                let last2 = if dfa.final_kind(next) is Some {
                    Some((next, pos + 1))
                } else {
                    last
                };
                assert(opens_comment(whole, 0, pos + 1) == opens_comment(beginning, 0, pos + 1));
                if next == dfa.start_state@ && opens_comment(beginning, 0, pos + 1) {
                } else {
                    lemma_scan_of_a_beginning(dfa, beginning, rest, pos + 1, next, last2);
                }
            },
        }
    }
}

/// Two characters are one token where the table says so. In whatever table
/// the first of two characters leads from the start state to a final state
/// and the second leads on from there to a final state, the two are read as
/// one token of the second state's category, and never as a token of one
/// character with the other left over: so it is with `<=` beside `<`.
pub proof fn law_two_characters_make_one_token(
    dfa: Dfa,
    first: char,
    second: char,
    one: Seq<char>,
    two: Seq<char>,
    name: Seq<char>,
)
    requires
        !white_space(first),
        first != '{',
        !(first == '(' && second == '*'),
        dfa.next_state(dfa.start_state@, first) == Some(one),
        dfa.next_state(one, second) == Some(two),
        dfa.final_kind(two) == Some(name),
    ensures
        next_token(dfa, seq![first, second], 0) == (Lexed {
            token: Some(classify(dfa, name, seq![first, second])),
            position: 2,
            error: None,
        }),
        tokens_of(dfa, seq![first, second]) == seq![classify(dfa, name, seq![first, second])],
{
    let src = seq![first, second];
    reveal_with_fuel(scan, 3);
    reveal_with_fuel(skip_spaces, 2);
    assert(src[0] == first && src[1] == second);
    assert(src.subrange(0, 2) =~= src);
    assert(next_token(dfa, src, 2).token is None) by {
        reveal_with_fuel(skip_spaces, 2);
    }
    reveal_with_fuel(tokens_from, 2);
    assert(seq![classify(dfa, name, src)] + Seq::<TokenView>::empty() =~= seq![
        classify(dfa, name, src),
    ]);
}

/// A word of the keyword list is a keyword, whatever other list holds it.
pub proof fn law_keywords_come_first(dfa: Dfa, text: Seq<char>)
    requires
        lists(dfa.keywords@, text),
    ensures
        word_kind(dfa, text) == TokenType::Keyword,
        classify(dfa, "IDENTIFIER"@, text).kind == TokenType::Keyword,
{
}

/// The last place where a token could end, as the contracts see it.
pub open spec fn last_view(last: Option<(String, usize)>) -> Option<(Seq<char>, int)> {
    match last {
        Some((state, end)) => Some((state@, end as int)),
        None => None,
    }
}

/// A reader of tokens over one source text.
pub struct Lexer {
    source: Vec<char>,
    dfa: Dfa,
    position: usize,
    error: Option<LexError>,
}

impl Lexer {
    #[verifier::type_invariant]
    spec fn sound(self) -> bool {
        self.position <= self.source.len() && self.dfa.well_formed()
    }

    /// The source text.
    pub closed spec fn source(&self) -> Seq<char> {
        self.source@
    }

    /// The rules by which the source is read.
    pub closed spec fn rules(&self) -> Dfa {
        self.dfa
    }

    /// The position from which the next token is read.
    pub closed spec fn position(&self) -> int {
        self.position as int
    }

    /// The place where no token could be read, once there was one.
    pub closed spec fn failure(&self) -> Option<LexError> {
        self.error
    }

    /// A lexer at the start of a source text. The rules must be well formed:
    /// a map, which names only categories that exist (see
    /// `Dfa::is_well_formed`).
    pub fn new(source: String, dfa: Dfa) -> (r: Lexer)
        requires
            dfa.well_formed(),
        ensures
            r.source() == source@,
            r.rules() == dfa,
            r.position() == 0,
            r.failure() is None,
    {
        Lexer { source: chars_of(source.as_str()), dfa, position: 0, error: None }
    }

    /// The place where no token could be read, once there was one. After
    /// that, every call of `get_next_token` gives `None`.
    pub fn error(&self) -> (r: Option<LexError>)
        ensures
            r == self.failure(),
    {
        self.error
    }

    /// Reads the next token. `None` means that the source has ended, or
    /// that no token could be read, in which case the error is kept and the
    /// rest of the source is given up. The position never moves backwards,
    /// and every token moves it forward, so that a source has only so many
    /// tokens.
    pub fn get_next_token(&mut self) -> (r: Option<Token>)
        ensures
            final(self).source() == old(self).source(),
            final(self).rules() == old(self).rules(),
            old(self).position() <= final(self).position() <= old(self).source().len(),
            r is Some ==> old(self).position() < final(self).position(),
            ({
                let lexed = next_token(old(self).rules(), old(self).source(), old(self).position());
                &&& match r {
                    Some(token) => lexed.token == Some(token@),
                    None => lexed.token is None,
                }
                &&& final(self).position() == lexed.position
                &&& final(self).failure() == match lexed.error {
                    Some(e) => Some(e),
                    None => old(self).failure(),
                }
            }),
        decreases old(self).source().len() - old(self).position(),
    {
        proof {
            use_type_invariant(&*self);
        }
        while self.position < self.source.len() && is_space(self.source[self.position])
            invariant
                self.source == old(self).source,
                self.dfa == old(self).dfa,
                self.error == old(self).error,
                self.dfa.well_formed(),
                old(self).position <= self.position <= self.source.len(),
                skip_spaces(self.source@, old(self).position as int) == skip_spaces(
                    self.source@,
                    self.position as int,
                ),
            decreases self.source.len() - self.position,
        {
            self.position = self.position + 1;
        }
        if self.position >= self.source.len() {
            return None;
        }
        let mut current_state = self.dfa.start_state.clone();
        let start_pos = self.position;
        let mut last_final_state: Option<(String, usize)> = None;
        while self.position < self.source.len()
            invariant
                self.source == old(self).source,
                self.dfa == old(self).dfa,
                self.error == old(self).error,
                self.dfa.well_formed(),
                old(self).position <= start_pos <= self.position <= self.source.len(),
                start_pos < self.source.len(),
                start_pos == skip_spaces(self.source@, old(self).position as int),
                scan(
                    self.dfa,
                    self.source@,
                    start_pos as int,
                    start_pos as int,
                    self.dfa.start_state@,
                    None,
                ) == scan(
                    self.dfa,
                    self.source@,
                    start_pos as int,
                    self.position as int,
                    current_state@,
                    last_view(last_final_state),
                ),
                last_final_state matches Some((state, end)) ==> start_pos < end <= self.position
                    && self.dfa.final_kind(state@) is Some,
            ensures
                scan(
                    self.dfa,
                    self.source@,
                    start_pos as int,
                    start_pos as int,
                    self.dfa.start_state@,
                    None,
                ) == (ScanEnd::Stop { last: last_view(last_final_state) }),
            decreases self.source.len() - self.position,
        {
            let current_char = self.source[self.position];
            match self.get_next_state(current_state.as_str(), current_char) {
                Some(next_state) => {
                    current_state = next_state;
                    self.position = self.position + 1;
                    if self.dfa.final_entry(current_state.as_str()).is_some() {
                        last_final_state = Some((current_state.clone(), self.position));
                    }
                    if same_text(current_state.as_str(), self.dfa.start_state.as_str()) && (
                    self.source[start_pos] == '{' || (self.position - start_pos >= 2
                        && self.source[start_pos] == '(' && self.source[start_pos + 1] == '*')) {
                        return self.get_next_token();
                    }
                },
                None => {
                    break ;
                },
            }
        }
        if let Some((final_state, end_pos)) = last_final_state {
            if let Some(entry) = self.dfa.final_entry(final_state.as_str()) {
                let value = text_of(&self.source, start_pos, end_pos);
                let mut token = self.create_token(entry.kind.as_str(), value);
                self.position = end_pos;
                if token.token_type == TokenType::Identifier {
                    self.check_identifier(&mut token);
                } else if token.token_type == TokenType::StringLiteral && end_pos - start_pos
                    == 3 {
                    token.token_type = TokenType::CharLiteral;
                }
                return Some(token);
            }
        }
        self.error = Some(LexError { character: self.source[start_pos], position: start_pos });
        self.position = self.source.len();
        None
    }

    /// Reads all the tokens that are left, up to the end of the source or
    /// to the first place where no token can be read.
    pub fn tokenize(&mut self) -> (tokens: Vec<Token>)
        ensures
            final(self).source() == old(self).source(),
            final(self).rules() == old(self).rules(),
            token_views(tokens@) == tokens_from(
                old(self).rules(),
                old(self).source(),
                old(self).position(),
            ),
    {
        proof {
            use_type_invariant(&*self);
        }
        let mut tokens: Vec<Token> = Vec::new();
        loop
            invariant_except_break
                tokens_from(self.dfa, self.source@, old(self).position as int)
                    == token_views(tokens@) + tokens_from(
                    self.dfa,
                    self.source@,
                    self.position as int,
                ),
            invariant
                self.source@ == old(self).source@,
                self.dfa == old(self).dfa,
                self.position <= self.source.len(),
            ensures
                token_views(tokens@) == tokens_from(
                    self.dfa,
                    self.source@,
                    old(self).position as int,
                ),
            decreases self.source.len() - self.position,
        {
            let ghost so_far = token_views(tokens@);
            match self.get_next_token() {
                Some(token) => {
                    tokens.push(token);
                    proof {
                        assert(token_views(tokens@) =~= so_far + seq![token@]);
                        assert(so_far + (seq![token@] + tokens_from(
                            self.dfa,
                            self.source@,
                            self.position as int,
                        )) =~= so_far + seq![token@] + tokens_from(
                            self.dfa,
                            self.source@,
                            self.position as int,
                        ));
                    }
                },
                None => {
                    proof {
                        assert(so_far + Seq::<TokenView>::empty() =~= so_far);
                    }
                    break ;
                },
            }
        }
        tokens
    }

    /// The state that a character leads to from a state, if any.
    pub fn get_next_state(&self, current_state: &str, ch: char) -> (r: Option<String>)
        ensures
            match r {
                Some(next) => self.rules().next_state(current_state@, ch) == Some(next@),
                None => self.rules().next_state(current_state@, ch) is None,
            },
    {
        match self.dfa.step(current_state, ch) {
            Some(next) => Some(next.clone()),
            None => None,
        }
    }

    /// The token of the named category with the given text. The name must
    /// be one that the table may use.
    pub fn create_token(&self, token_type_str: &str, value: String) -> (r: Token)
        requires
            kind_of_name(token_type_str@) is Some,
        ensures
            r@ == (TokenView { kind: kind_of_name(token_type_str@)->0, text: value@ }),
    {
        match kind_named(token_type_str) {
            Some(token_type) => Token { token_type, value },
            None => Token { token_type: TokenType::Identifier, value },
        }
    }

    /// Tells a word apart: a word of the keyword list becomes a keyword,
    /// and else a word of the operator lists becomes that kind of operator.
    /// Any other token is left as it is.
    pub fn check_identifier(&self, token: &mut Token)
        ensures
            final(token)@.text == old(token)@.text,
            final(token)@.kind == match word_kind(self.rules(), old(token)@.text) {
                TokenType::Identifier => old(token)@.kind,
                kind => kind,
            },
            lists(self.rules().keywords@, old(token)@.text) ==> final(token)@.kind
                == TokenType::Keyword,
    {
        if contains_text(&self.dfa.keywords, token.value.as_str()) {
            token.token_type = TokenType::Keyword;
        } else if contains_text(&self.dfa.word_logical_operators, token.value.as_str()) {
            token.token_type = TokenType::LogicalOperator;
        } else if contains_text(&self.dfa.word_arithmetic_operators, token.value.as_str()) {
            token.token_type = TokenType::ArithmeticOperator;
        }
    }
}

} // verus!
