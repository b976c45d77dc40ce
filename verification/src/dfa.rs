//! The transition table that drives the lexer. It is data, not code: the
//! states, the keys under which a state passes to the next, the states in
//! which a token may end, and the word lists by which identifiers are told
//! from keywords and word operators.
//!
//! The table is a map written as rows: no state has two rows, no state is
//! made final twice, and no key stands twice in a row. A table of which this
//! holds, and whose final states name categories that exist, is well formed;
//! a lexer is only made from such a table.
//!
//! A state's transitions are tried in four rounds, and within a round in
//! the order of the table; the first that fits wins. The rounds are: a key
//! that is the character itself; a range key such as `a-z`; a set key, which
//! lists the characters it stands for; and the key `any`.

use crate::text::{chars_of, same_text};
use crate::token::TokenType;
use vstd::prelude::*;

verus! {

/// One way out of a state: the key, and the state it leads to.
#[derive(Debug)]
pub struct Transition {
    pub key: String,
    pub target: String,
}

/// A state and its ways out.
#[derive(Debug)]
pub struct StateRow {
    pub state: String,
    pub transitions: Vec<Transition>,
}

/// A state in which a token may end, with the name of the token's category.
#[derive(Debug)]
pub struct FinalState {
    pub state: String,
    pub kind: String,
}

/// The rules of the lexer.
#[derive(Debug)]
pub struct Dfa {
    pub start_state: String,
    pub keywords: Vec<String>,
    pub word_logical_operators: Vec<String>,
    pub word_arithmetic_operators: Vec<String>,
    pub final_states: Vec<FinalState>,
    pub transitions: Vec<StateRow>,
}

/// The four rounds in which the keys of a state are tried.
#[derive(Clone, Copy, Debug, PartialEq, Eq, Structural)]
pub enum Round {
    Exact,
    Range,
    OneOf,
    Wildcard,
}

/// The category that a name in the table stands for.
pub open spec fn kind_of_name(name: Seq<char>) -> Option<TokenType> {
    if name == "IDENTIFIER"@ {
        Some(TokenType::Identifier)
    } else if name == "NUMBER"@ {
        Some(TokenType::Number)
    } else if name == "STRING_LITERAL"@ {
        Some(TokenType::StringLiteral)
    } else if name == "ASSIGN_OPERATOR"@ {
        Some(TokenType::AssignOperator)
    } else if name == "RELATIONAL_OPERATOR"@ {
        Some(TokenType::RelationalOperator)
    } else if name == "ARITHMETIC_OPERATOR"@ {
        Some(TokenType::ArithmeticOperator)
    } else if name == "COLON"@ {
        Some(TokenType::Colon)
    } else if name == "DOT"@ {
        Some(TokenType::Dot)
    } else if name == "RANGE_OPERATOR"@ {
        Some(TokenType::RangeOperator)
    } else if name == "SEMICOLON"@ {
        Some(TokenType::Semicolon)
    } else if name == "COMMA"@ {
        Some(TokenType::Comma)
    } else if name == "LPARENTHESIS"@ {
        Some(TokenType::LParenthesis)
    } else if name == "RPARENTHESIS"@ {
        Some(TokenType::RParenthesis)
    } else if name == "LBRACKET"@ {
        Some(TokenType::LBracket)
    } else if name == "RBRACKET"@ {
        Some(TokenType::RBracket)
    } else {
        None
    }
}

/// Whether a key is a range: three characters, one of them a dash. Its
/// first and last character are the ends of the range.
pub open spec fn is_range_key(key: Seq<char>) -> bool {
    key.len() == 3 && key.contains('-')
}

/// Whether a key fits a character in the given round.
pub open spec fn key_fits(key: Seq<char>, c: char, round: Round) -> bool {
    match round {
        Round::Exact => key == seq![c],
        Round::Range => is_range_key(key) && key[0] as u32 <= c as u32 <= key[2] as u32,
        Round::OneOf => !key.contains('-') && key != "any"@ && key.contains(c),
        Round::Wildcard => key == "any"@,
    }
}

/// The target of the first transition from index `from` on whose key fits
/// the character in the given round.
pub open spec fn first_fit(ways: Seq<Transition>, from: int, c: char, round: Round) -> Option<
    Seq<char>,
>
    decreases ways.len() - from,
{
    if from < 0 || from >= ways.len() {
        None
    } else if key_fits(ways[from].key@, c, round) {
        Some(ways[from].target@)
    } else {
        first_fit(ways, from + 1, c, round)
    }
}

/// The state that a character leads to along the given ways out: the four
/// rounds in order.
pub open spec fn follow(ways: Seq<Transition>, c: char) -> Option<Seq<char>> {
    match first_fit(ways, 0, c, Round::Exact) {
        Some(t) => Some(t),
        None => match first_fit(ways, 0, c, Round::Range) {
            Some(t) => Some(t),
            None => match first_fit(ways, 0, c, Round::OneOf) {
                Some(t) => Some(t),
                None => first_fit(ways, 0, c, Round::Wildcard),
            },
        },
    }
}

/// The index of the first row from `from` on that belongs to the state.
pub open spec fn row_index(rows: Seq<StateRow>, from: int, state: Seq<char>) -> Option<int>
    decreases rows.len() - from,
{
    if from < 0 || from >= rows.len() {
        None
    } else if rows[from].state@ == state {
        Some(from)
    } else {
        row_index(rows, from + 1, state)
    }
}

/// The category name of the first entry from `from` on that makes the state
/// final.
pub open spec fn final_name(finals: Seq<FinalState>, from: int, state: Seq<char>) -> Option<
    Seq<char>,
>
    decreases finals.len() - from,
{
    if from < 0 || from >= finals.len() {
        None
    } else if finals[from].state@ == state {
        Some(finals[from].kind@)
    } else {
        final_name(finals, from + 1, state)
    }
}

/// Whether no name stands twice in a row of names.
pub open spec fn all_distinct(names: Seq<Seq<char>>) -> bool {
    forall|i: int, j: int| 0 <= i < j < names.len() ==> #[trigger] names[i] != #[trigger] names[j]
}

/// The texts of a row of names.
pub open spec fn name_views(names: Seq<&str>) -> Seq<Seq<char>> {
    Seq::new(names.len(), |i: int| names[i]@)
}

/// The states that have a row, in the order of the rows.
pub open spec fn row_states(rows: Seq<StateRow>) -> Seq<Seq<char>> {
    Seq::new(rows.len(), |i: int| rows[i].state@)
}

/// The keys of a row, in their order.
pub open spec fn way_keys(ways: Seq<Transition>) -> Seq<Seq<char>> {
    Seq::new(ways.len(), |i: int| ways[i].key@)
}

/// The states that are made final, in the order of the entries.
pub open spec fn final_state_names(finals: Seq<FinalState>) -> Seq<Seq<char>> {
    Seq::new(finals.len(), |i: int| finals[i].state@)
}

impl Dfa {
    /// Whether the table is a map: no state has two rows, no state is made
    /// final twice, and no key stands twice in a row.
    pub open spec fn distinct(&self) -> bool {
        &&& all_distinct(row_states(self.transitions@))
        &&& all_distinct(final_state_names(self.final_states@))
        &&& forall|i: int|
            0 <= i < self.transitions@.len() ==> all_distinct(
                way_keys((#[trigger] self.transitions@[i]).transitions@),
            )
    }

    /// Whether the table is a map and names only categories that exist.
    pub open spec fn well_formed(&self) -> bool {
        self.known_kinds() && self.distinct()
    }

    /// Whether every final state names a category that exists.
    pub open spec fn known_kinds(&self) -> bool {
        forall|i: int|
            0 <= i < self.final_states@.len() ==> kind_of_name(
                (#[trigger] self.final_states@[i]).kind@,
            ) is Some
    }

    /// The state that a character leads to from a state, if any.
    pub open spec fn next_state(&self, state: Seq<char>, c: char) -> Option<Seq<char>> {
        match row_index(self.transitions@, 0, state) {
            Some(i) => follow(self.transitions@[i].transitions@, c),
            None => None,
        }
    }

    /// The category name under which a token may end in a state, if it may.
    pub open spec fn final_kind(&self, state: Seq<char>) -> Option<Seq<char>> {
        final_name(self.final_states@, 0, state)
    }

    /// Whether the table is a map: no state has two rows, no state is made
    /// final twice, and no key stands twice in a row.
    pub fn is_distinct(&self) -> (r: bool)
        ensures
            r == self.distinct(),
    {
        let mut states: Vec<&str> = Vec::new();
        let mut i: usize = 0;
        while i < self.transitions.len()
            invariant
                i <= self.transitions.len(),
                states@.len() == i,
                forall|k: int| 0 <= k < i ==> (#[trigger] states@[k])@ == self.transitions@[k].state@,
                forall|k: int|
                    0 <= k < i ==> all_distinct(
                        way_keys((#[trigger] self.transitions@[k]).transitions@),
                    ),
            decreases self.transitions.len() - i,
        {
            let ways = &self.transitions[i].transitions;
            let mut keys: Vec<&str> = Vec::new();
            let mut j: usize = 0;
            while j < ways.len()
                invariant
                    j <= ways.len(),
                    keys@.len() == j,
                    forall|k: int| 0 <= k < j ==> (#[trigger] keys@[k])@ == ways@[k].key@,
                decreases ways.len() - j,
            {
                keys.push(ways[j].key.as_str());
                j = j + 1;
            }
            assert(name_views(keys@) =~= way_keys(ways@));
            if !no_name_twice(&keys) {
                return false;
            }
            states.push(self.transitions[i].state.as_str());
            i = i + 1;
        }
        assert(name_views(states@) =~= row_states(self.transitions@));
        let mut finals: Vec<&str> = Vec::new();
        let mut i: usize = 0;
        while i < self.final_states.len()
            invariant
                i <= self.final_states.len(),
                finals@.len() == i,
                forall|k: int|
                    0 <= k < i ==> (#[trigger] finals@[k])@ == self.final_states@[k].state@,
            decreases self.final_states.len() - i,
        {
            finals.push(self.final_states[i].state.as_str());
            i = i + 1;
        }
        assert(name_views(finals@) =~= final_state_names(self.final_states@));
        no_name_twice(&states) && no_name_twice(&finals)
    }

    /// Whether the table is a map and names only categories that exist. A
    /// lexer can only be made from a table of which this holds.
    pub fn is_well_formed(&self) -> (r: bool)
        ensures
            r == self.well_formed(),
    {
        self.has_known_kinds() && self.is_distinct()
    }

    /// Whether every final state names a category that exists.
    pub fn has_known_kinds(&self) -> (r: bool)
        ensures
            r == self.known_kinds(),
    {
        let mut i: usize = 0;
        while i < self.final_states.len()
            invariant
                i <= self.final_states.len(),
                forall|j: int|
                    0 <= j < i ==> kind_of_name((#[trigger] self.final_states@[j]).kind@) is Some,
            decreases self.final_states.len() - i,
        {
            if kind_named(self.final_states[i].kind.as_str()).is_none() {
                return false;
            }
            i = i + 1;
        }
        true
    }

    /// The entry that makes a state final, if there is one.
    pub fn final_entry(&self, state: &str) -> (r: Option<&FinalState>)
        ensures
            match r {
                Some(entry) => self.final_kind(state@) == Some(entry.kind@) && (self.known_kinds()
                    ==> kind_of_name(entry.kind@) is Some),
                None => self.final_kind(state@) is None,
            },
    {
        let mut i: usize = 0;
        while i < self.final_states.len()
            invariant
                i <= self.final_states.len(),
                final_name(self.final_states@, 0, state@) == final_name(
                    self.final_states@,
                    i as int,
                    state@,
                ),
            decreases self.final_states.len() - i,
        {
            if same_text(self.final_states[i].state.as_str(), state) {
                return Some(&self.final_states[i]);
            }
            i = i + 1;
        }
        None
    }

    /// The state that a character leads to from a state, if any.
    pub fn step(&self, state: &str, c: char) -> (r: Option<&String>)
        ensures
            match r {
                Some(next) => self.next_state(state@, c) == Some(next@),
                None => self.next_state(state@, c) is None,
            },
    {
        let mut i: usize = 0;
        while i < self.transitions.len()
            invariant
                i <= self.transitions.len(),
                row_index(self.transitions@, 0, state@) == row_index(
                    self.transitions@,
                    i as int,
                    state@,
                ),
            decreases self.transitions.len() - i,
        {
            if same_text(self.transitions[i].state.as_str(), state) {
                let ways = &self.transitions[i].transitions;
                let exact = find_fit(ways, c, Round::Exact);
                if exact.is_some() {
                    return exact;
                }
                let range = find_fit(ways, c, Round::Range);
                if range.is_some() {
                    return range;
                }
                let set = find_fit(ways, c, Round::OneOf);
                if set.is_some() {
                    return set;
                }
                return find_fit(ways, c, Round::Wildcard);
            }
            i = i + 1;
        }
        None
    }
}

fn no_name_twice(names: &Vec<&str>) -> (r: bool)
    ensures
        r == all_distinct(name_views(names@)),
{
    let mut j: usize = 0;
    while j < names.len()
        invariant
            j <= names.len(),
            forall|a: int, b: int| 0 <= a < b < j ==> (#[trigger] names@[a])@ != (
            #[trigger] names@[b])@,
        decreases names.len() - j,
    {
        let mut i: usize = 0;
        while i < j
            invariant
                i <= j < names.len(),
                forall|a: int| 0 <= a < i ==> (#[trigger] names@[a])@ != names@[j as int]@,
            decreases j - i,
        {
            if same_text(names[i], names[j]) {
                assert(name_views(names@)[i as int] == name_views(names@)[j as int]);
                return false;
            }
            i = i + 1;
        }
        j = j + 1;
    }
    assert forall|a: int, b: int| 0 <= a < b < name_views(names@).len() implies
        #[trigger] name_views(names@)[a] != #[trigger] name_views(names@)[b] by {
        assert(names@[a]@ != names@[b]@);
    }
    true
}

/// In a table that is a map, a state's row is the one row of that state:
/// whichever row belongs to a state is the row that the lexer reads.
pub proof fn law_a_state_has_one_row(rows: Seq<StateRow>, state: Seq<char>, i: int)
    requires
        all_distinct(row_states(rows)),
        0 <= i < rows.len(),
        rows[i].state@ == state,
    ensures
        row_index(rows, 0, state) == Some(i),
{
    lemma_row_index_finds(rows, 0, state, i);
}

proof fn lemma_row_index_finds(rows: Seq<StateRow>, from: int, state: Seq<char>, i: int)
    requires
        all_distinct(row_states(rows)),
        0 <= from <= i < rows.len(),
        rows[i].state@ == state,
    ensures
        row_index(rows, from, state) == Some(i),
    decreases i - from,
{
    if from < i {
        assert(row_states(rows)[from] != row_states(rows)[i]);
        lemma_row_index_finds(rows, from + 1, state, i);
    }
}

/// In a table that is a map, the entry that makes a state final is the one
/// entry of that state.
pub proof fn law_a_state_is_final_once(finals: Seq<FinalState>, state: Seq<char>, i: int)
    requires
        all_distinct(final_state_names(finals)),
        0 <= i < finals.len(),
        finals[i].state@ == state,
    ensures
        final_name(finals, 0, state) == Some(finals[i].kind@),
{
    lemma_final_name_finds(finals, 0, state, i);
}

proof fn lemma_final_name_finds(finals: Seq<FinalState>, from: int, state: Seq<char>, i: int)
    requires
        all_distinct(final_state_names(finals)),
        0 <= from <= i < finals.len(),
        finals[i].state@ == state,
    ensures
        final_name(finals, from, state) == Some(finals[i].kind@),
    decreases i - from,
{
    if from < i {
        assert(final_state_names(finals)[from] != final_state_names(finals)[i]);
        lemma_final_name_finds(finals, from + 1, state, i);
    }
}

/// The category that a name in the table stands for, if it is one.
pub fn kind_named(name: &str) -> (r: Option<TokenType>)
    ensures
        r == kind_of_name(name@),
{
    if same_text(name, "IDENTIFIER") {
        Some(TokenType::Identifier)
    } else if same_text(name, "NUMBER") {
        Some(TokenType::Number)
    } else if same_text(name, "STRING_LITERAL") {
        Some(TokenType::StringLiteral)
    } else if same_text(name, "ASSIGN_OPERATOR") {
        Some(TokenType::AssignOperator)
    } else if same_text(name, "RELATIONAL_OPERATOR") {
        Some(TokenType::RelationalOperator)
    } else if same_text(name, "ARITHMETIC_OPERATOR") {
        Some(TokenType::ArithmeticOperator)
    } else if same_text(name, "COLON") {
        Some(TokenType::Colon)
    } else if same_text(name, "DOT") {
        Some(TokenType::Dot)
    } else if same_text(name, "RANGE_OPERATOR") {
        Some(TokenType::RangeOperator)
    } else if same_text(name, "SEMICOLON") {
        Some(TokenType::Semicolon)
    } else if same_text(name, "COMMA") {
        Some(TokenType::Comma)
    } else if same_text(name, "LPARENTHESIS") {
        Some(TokenType::LParenthesis)
    } else if same_text(name, "RPARENTHESIS") {
        Some(TokenType::RParenthesis)
    } else if same_text(name, "LBRACKET") {
        Some(TokenType::LBracket)
    } else if same_text(name, "RBRACKET") {
        Some(TokenType::RBracket)
    } else {
        None
    }
}

fn holds(chars: &Vec<char>, c: char) -> (r: bool)
    ensures
        r == chars@.contains(c),
{
    let mut i: usize = 0;
    while i < chars.len()
        invariant
            i <= chars.len(),
            forall|j: int| 0 <= j < i ==> chars@[j] != c,
        decreases chars.len() - i,
    {
        if chars[i] == c {
            return true;
        }
        i = i + 1;
    }
    false
}

/// Whether a key fits a character in the given round.
pub fn fits(key: &str, c: char, round: Round) -> (r: bool)
    ensures
        r == key_fits(key@, c, round),
{
    let chars = chars_of(key);
    match round {
        Round::Exact => {
            let r = chars.len() == 1 && chars[0] == c;
            assert(r == (key@ =~= seq![c]));
            r
        },
        Round::Range => {
            let r = chars.len() == 3 && holds(&chars, '-') && chars[0] as u32 <= c as u32 && c as u32
                <= chars[2] as u32;
            assert(r == key_fits(key@, c, Round::Range));
            r
        },
        Round::OneOf => {
            let r = !holds(&chars, '-') && !same_text(key, "any") && holds(&chars, c);
            assert(r == key_fits(key@, c, Round::OneOf));
            r
        },
        Round::Wildcard => same_text(key, "any"),
    }
}

fn find_fit(ways: &Vec<Transition>, c: char, round: Round) -> (r: Option<&String>)
    ensures
        match r {
            Some(target) => first_fit(ways@, 0, c, round) == Some(target@),
            None => first_fit(ways@, 0, c, round) is None,
        },
{
    let mut i: usize = 0;
    while i < ways.len()
        invariant
            i <= ways.len(),
            first_fit(ways@, 0, c, round) == first_fit(ways@, i as int, c, round),
        decreases ways.len() - i,
    {
        if fits(ways[i].key.as_str(), c, round) {
            return Some(&ways[i].target);
        }
        i = i + 1;
    }
    None
}

} // verus!
