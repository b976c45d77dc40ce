use pascal_frontend::dfa::{fits, kind_named, Dfa, FinalState, Round, StateRow, Transition};
use pascal_frontend::lexer::{LexError, Lexer};
use pascal_frontend::text::{is_space, same_text};
use pascal_frontend::token::{Token, TokenType};

fn way(key: &str, target: &str) -> Transition {
    Transition { key: key.to_string(), target: target.to_string() }
}

fn row(state: &str, ways: Vec<Transition>) -> StateRow {
    StateRow { state: state.to_string(), transitions: ways }
}

fn ends(state: &str, kind: &str) -> FinalState {
    FinalState { state: state.to_string(), kind: kind.to_string() }
}

fn words(list: &[&str]) -> Vec<String> {
    let mut out = Vec::new();
    for w in list {
        out.push(w.to_string());
    }
    out
}

fn rules() -> Dfa {
    Dfa {
        start_state: "S_Start".to_string(),
        keywords: words(&[
            "program", "variabel", "mulai", "selesai", "konstanta", "tipe", "prosedur", "fungsi",
            "larik", "dari", "rekaman", "jika", "maka", "selain_itu", "selama", "lakukan",
            "untuk", "ke", "turun_ke", "ulangi", "sampai", "integer", "real", "boolean", "char",
            "true", "false", "bagi", "mod",
        ]),
        word_logical_operators: words(&["dan", "atau", "tidak"]),
        word_arithmetic_operators: words(&["pangkat"]),
        final_states: vec![
            ends("S_Ident", "IDENTIFIER"),
            ends("S_Int", "NUMBER"),
            ends("S_Real", "NUMBER"),
            ends("S_StrEnd", "STRING_LITERAL"),
            ends("S_Assign", "ASSIGN_OPERATOR"),
            ends("S_Rel", "RELATIONAL_OPERATOR"),
            ends("S_Lt", "RELATIONAL_OPERATOR"),
            ends("S_Gt", "RELATIONAL_OPERATOR"),
            ends("S_Rel2", "RELATIONAL_OPERATOR"),
            ends("S_Arith", "ARITHMETIC_OPERATOR"),
            ends("S_Colon", "COLON"),
            ends("S_Dot", "DOT"),
            ends("S_Range", "RANGE_OPERATOR"),
            ends("S_Semi", "SEMICOLON"),
            ends("S_Comma", "COMMA"),
            ends("S_LParen", "LPARENTHESIS"),
            ends("S_RParen", "RPARENTHESIS"),
            ends("S_LBr", "LBRACKET"),
            ends("S_RBr", "RBRACKET"),
        ],
        transitions: vec![
            row(
                "S_Start",
                vec![
                    way("a-z", "S_Ident"),
                    way("A-Z", "S_Ident"),
                    way("_", "S_Ident"),
                    way("0-9", "S_Int"),
                    way(":", "S_Colon"),
                    way(";", "S_Semi"),
                    way(",", "S_Comma"),
                    way(".", "S_Dot"),
                    way("(", "S_LParen"),
                    way(")", "S_RParen"),
                    way("[", "S_LBr"),
                    way("]", "S_RBr"),
                    way("+*/", "S_Arith"),
                    way("-", "S_Arith"),
                    way("=", "S_Rel"),
                    way("<", "S_Lt"),
                    way(">", "S_Gt"),
                    way("'", "S_Str"),
                    way("{", "S_Brace"),
                ],
            ),
            row(
                "S_Ident",
                vec![way("a-z", "S_Ident"), way("A-Z", "S_Ident"), way("0-9", "S_Ident"), way("_", "S_Ident")],
            ),
            row("S_Int", vec![way("0-9", "S_Int"), way(".", "S_IntDot")]),
            row("S_IntDot", vec![way("0-9", "S_Real")]),
            row("S_Real", vec![way("0-9", "S_Real")]),
            row("S_Colon", vec![way("=", "S_Assign")]),
            row("S_Dot", vec![way(".", "S_Range")]),
            row("S_Lt", vec![way("=>", "S_Rel2")]),
            row("S_Gt", vec![way("=", "S_Rel2")]),
            row("S_Str", vec![way("any", "S_Str"), way("'", "S_StrEnd")]),
            row("S_Brace", vec![way("any", "S_Brace"), way("}", "S_Start")]),
            row("S_LParen", vec![way("*", "S_Star")]),
            row("S_Star", vec![way("any", "S_Star"), way("*", "S_StarEnd")]),
            row(
                "S_StarEnd",
                vec![way("any", "S_Star"), way("*", "S_StarEnd"), way(")", "S_Start")],
            ),
        ],
    }
}

fn lex(source: &str) -> (Vec<Token>, Option<LexError>) {
    let dfa = rules();
    assert!(dfa.is_well_formed());
    let mut lexer = Lexer::new(source.to_string(), dfa);
    let mut tokens = Vec::new();
    while let Some(token) = lexer.get_next_token() {
        tokens.push(token);
    }
    (tokens, lexer.error())
}

fn shapes(tokens: &Vec<Token>) -> Vec<(TokenType, String)> {
    let mut out = Vec::new();
    for t in tokens {
        out.push((t.token_type, t.value.clone()));
    }
    out
}

fn one(kind: TokenType, text: &str) -> Vec<(TokenType, String)> {
    vec![(kind, text.to_string())]
}

#[test]
fn longest_match_takes_less_or_equal_as_one_token() {
    let (tokens, error) = lex("<=");
    assert_eq!(shapes(&tokens), one(TokenType::RelationalOperator, "<="));
    assert_eq!(error, None);
    let (tokens, _) = lex("<");
    assert_eq!(shapes(&tokens), one(TokenType::RelationalOperator, "<"));
    let (tokens, _) = lex("< =");
    assert_eq!(
        shapes(&tokens),
        vec![
            (TokenType::RelationalOperator, "<".to_string()),
            (TokenType::RelationalOperator, "=".to_string()),
        ]
    );
    let (tokens, _) = lex("<>");
    assert_eq!(shapes(&tokens), one(TokenType::RelationalOperator, "<>"));
    let (tokens, _) = lex(":=");
    assert_eq!(shapes(&tokens), one(TokenType::AssignOperator, ":="));
}

#[test]
fn the_scan_goes_back_to_the_last_place_where_a_token_could_end() {
    let (tokens, error) = lex("1..5");
    assert_eq!(
        shapes(&tokens),
        vec![
            (TokenType::Number, "1".to_string()),
            (TokenType::RangeOperator, "..".to_string()),
            (TokenType::Number, "5".to_string()),
        ]
    );
    assert_eq!(error, None);
    let (tokens, _) = lex("3.14");
    assert_eq!(shapes(&tokens), one(TokenType::Number, "3.14"));
    let (tokens, _) = lex("7.");
    assert_eq!(
        shapes(&tokens),
        vec![(TokenType::Number, "7".to_string()), (TokenType::Dot, ".".to_string())]
    );
}

#[test]
fn a_reserved_word_is_a_keyword() {
    let (tokens, _) = lex("variabel");
    assert_eq!(shapes(&tokens), one(TokenType::Keyword, "variabel"));
    let (tokens, _) = lex("variabel2");
    assert_eq!(shapes(&tokens), one(TokenType::Identifier, "variabel2"));
    let (tokens, _) = lex("dan");
    assert_eq!(shapes(&tokens), one(TokenType::LogicalOperator, "dan"));
    let (tokens, _) = lex("pangkat");
    assert_eq!(shapes(&tokens), one(TokenType::ArithmeticOperator, "pangkat"));
    let (tokens, _) = lex("x");
    assert_eq!(shapes(&tokens), one(TokenType::Identifier, "x"));
}

#[test]
fn the_keyword_list_is_asked_before_the_operator_lists() {
    let mut dfa = rules();
    dfa.word_logical_operators.push("mod".to_string());
    dfa.word_arithmetic_operators.push("dan".to_string());
    let mut lexer = Lexer::new("mod dan".to_string(), dfa);
    let first = lexer.get_next_token().unwrap();
    assert_eq!((first.token_type, first.value.as_str()), (TokenType::Keyword, "mod"));
    let second = lexer.get_next_token().unwrap();
    assert_eq!((second.token_type, second.value.as_str()), (TokenType::LogicalOperator, "dan"));
    assert!(lexer.get_next_token().is_none());
}

#[test]
fn check_identifier_leaves_other_words_alone() {
    let lexer = Lexer::new(String::new(), rules());
    let mut token = Token { token_type: TokenType::Identifier, value: "jumlah".to_string() };
    lexer.check_identifier(&mut token);
    assert_eq!(token.token_type, TokenType::Identifier);
    assert_eq!(token.value, "jumlah");
    let mut token = Token { token_type: TokenType::Identifier, value: "selama".to_string() };
    lexer.check_identifier(&mut token);
    assert_eq!(token.token_type, TokenType::Keyword);
    let mut token = Token { token_type: TokenType::Identifier, value: "tidak".to_string() };
    lexer.check_identifier(&mut token);
    assert_eq!(token.token_type, TokenType::LogicalOperator);
}

#[test]
fn white_space_and_comments_do_not_change_the_tokens() {
    let (plain, e1) = lex("x := 1 + y");
    let (spaced, e2) = lex("  x\t:=\n\n1 { a comment }+ (* another\n one *) y  ");
    assert_eq!(shapes(&plain), shapes(&spaced));
    assert_eq!(e1, None);
    assert_eq!(e2, None);
    assert_eq!(plain.len(), 5);
    let (only_filler, e3) = lex(" { nothing } (* at all *) ");
    assert!(only_filler.is_empty());
    assert_eq!(e3, None);
    let (joined, _) = lex("a{c}b");
    assert_eq!(
        shapes(&joined),
        vec![(TokenType::Identifier, "a".to_string()), (TokenType::Identifier, "b".to_string())]
    );
}

#[test]
fn a_quoted_text_with_one_character_is_a_char_literal() {
    let (tokens, _) = lex("'a'");
    assert_eq!(shapes(&tokens), one(TokenType::CharLiteral, "'a'"));
    let (tokens, _) = lex("'ab'");
    assert_eq!(shapes(&tokens), one(TokenType::StringLiteral, "'ab'"));
    let (tokens, _) = lex("''");
    assert_eq!(shapes(&tokens), one(TokenType::StringLiteral, "''"));
    let (tokens, _) = lex("' '");
    assert_eq!(shapes(&tokens), one(TokenType::CharLiteral, "' '"));
}

#[test]
fn punctuation_and_operators() {
    let (tokens, error) = lex("( ) [ ] ; , : . + - * / = > >=");
    assert_eq!(error, None);
    let kinds: Vec<TokenType> = tokens.iter().map(|t| t.token_type).collect();
    assert_eq!(
        kinds,
        vec![
            TokenType::LParenthesis,
            TokenType::RParenthesis,
            TokenType::LBracket,
            TokenType::RBracket,
            TokenType::Semicolon,
            TokenType::Comma,
            TokenType::Colon,
            TokenType::Dot,
            TokenType::ArithmeticOperator,
            TokenType::ArithmeticOperator,
            TokenType::ArithmeticOperator,
            TokenType::ArithmeticOperator,
            TokenType::RelationalOperator,
            TokenType::RelationalOperator,
            TokenType::RelationalOperator,
        ]
    );
    assert_eq!(tokens[14].value, ">=");
}

#[test]
fn a_character_with_no_way_out_is_an_error_and_ends_the_input() {
    let dfa = rules();
    let mut lexer = Lexer::new("x # y".to_string(), dfa);
    let first = lexer.get_next_token().unwrap();
    assert_eq!(first.value, "x");
    assert_eq!(lexer.error(), None);
    assert!(lexer.get_next_token().is_none());
    assert_eq!(lexer.error(), Some(LexError { character: '#', position: 2 }));
    assert!(lexer.get_next_token().is_none());
    assert_eq!(lexer.error(), Some(LexError { character: '#', position: 2 }));
}

#[test]
fn a_text_that_never_reaches_a_final_state_is_an_error() {
    let (tokens, error) = lex("y 'open");
    assert_eq!(shapes(&tokens), one(TokenType::Identifier, "y"));
    assert_eq!(error, Some(LexError { character: '\'', position: 2 }));
    let (tokens, error) = lex("{ never closed");
    assert!(tokens.is_empty());
    assert_eq!(error, Some(LexError { character: '{', position: 0 }));
}

#[test]
fn an_empty_source_has_no_tokens() {
    let (tokens, error) = lex("");
    assert!(tokens.is_empty());
    assert_eq!(error, None);
    let (tokens, error) = lex(" \n\t ");
    assert!(tokens.is_empty());
    assert_eq!(error, None);
}

#[test]
fn keys_are_tried_in_four_rounds() {
    let dfa = Dfa {
        start_state: "S".to_string(),
        keywords: Vec::new(),
        word_logical_operators: Vec::new(),
        word_arithmetic_operators: Vec::new(),
        final_states: vec![ends("E", "DOT")],
        transitions: vec![row(
            "S",
            vec![way("any", "W"), way("xyz", "O"), way("a-z", "R"), way("x", "E"), way("A-Z", "R2")],
        )],
    };
    assert_eq!(dfa.step("S", 'x').map(|s| s.as_str()), Some("E"));
    assert_eq!(dfa.step("S", 'y').map(|s| s.as_str()), Some("R"));
    assert_eq!(dfa.step("S", 'b').map(|s| s.as_str()), Some("R"));
    assert_eq!(dfa.step("S", 'Q').map(|s| s.as_str()), Some("R2"));
    assert_eq!(dfa.step("S", '7').map(|s| s.as_str()), Some("W"));
    assert_eq!(dfa.step("E", 'x'), None);
    let sets_only = Dfa {
        start_state: "S".to_string(),
        keywords: Vec::new(),
        word_logical_operators: Vec::new(),
        word_arithmetic_operators: Vec::new(),
        final_states: Vec::new(),
        transitions: vec![row("S", vec![way("xyz", "O"), way("any", "W"), way("yx", "P")])],
    };
    assert_eq!(sets_only.step("S", 'y').map(|s| s.as_str()), Some("O"));
    assert_eq!(sets_only.step("S", 'a').map(|s| s.as_str()), Some("W"));
    assert_eq!(sets_only.step("S", 'n').map(|s| s.as_str()), Some("W"));
}

#[test]
fn how_a_key_fits_a_character() {
    assert!(fits("a", 'a', Round::Exact));
    assert!(!fits("ab", 'a', Round::Exact));
    assert!(fits("a-z", 'q', Round::Range));
    assert!(fits("a-z", 'a', Round::Range));
    assert!(fits("a-z", 'z', Round::Range));
    assert!(!fits("a-z", 'A', Round::Range));
    assert!(!fits("a-z", '-', Round::Range));
    assert!(!fits("abc", 'b', Round::Range));
    assert!(!fits("a-zA", 'b', Round::Range));
    assert!(fits("+*/", '*', Round::OneOf));
    assert!(!fits("+-*", '*', Round::OneOf));
    assert!(!fits("any", 'a', Round::OneOf));
    assert!(!fits("+*/", '-', Round::OneOf));
    assert!(fits("any", 'q', Round::Wildcard));
    assert!(!fits("all", 'q', Round::Wildcard));
}

#[test]
fn the_first_row_and_the_first_final_entry_of_a_state_count() {
    let dfa = Dfa {
        start_state: "S".to_string(),
        keywords: Vec::new(),
        word_logical_operators: Vec::new(),
        word_arithmetic_operators: Vec::new(),
        final_states: vec![ends("E", "DOT"), ends("E", "COMMA")],
        transitions: vec![row("S", vec![way("a", "E")]), row("S", vec![way("a", "F"), way("b", "F")])],
    };
    assert_eq!(dfa.step("S", 'a').map(|s| s.as_str()), Some("E"));
    assert_eq!(dfa.step("S", 'b'), None);
    assert_eq!(dfa.final_entry("E").map(|e| e.kind.as_str()), Some("DOT"));
    assert!(dfa.final_entry("S").is_none());
}

#[test]
fn category_names() {
    assert_eq!(kind_named("IDENTIFIER"), Some(TokenType::Identifier));
    assert_eq!(kind_named("NUMBER"), Some(TokenType::Number));
    assert_eq!(kind_named("STRING_LITERAL"), Some(TokenType::StringLiteral));
    assert_eq!(kind_named("ASSIGN_OPERATOR"), Some(TokenType::AssignOperator));
    assert_eq!(kind_named("RELATIONAL_OPERATOR"), Some(TokenType::RelationalOperator));
    assert_eq!(kind_named("ARITHMETIC_OPERATOR"), Some(TokenType::ArithmeticOperator));
    assert_eq!(kind_named("COLON"), Some(TokenType::Colon));
    assert_eq!(kind_named("DOT"), Some(TokenType::Dot));
    assert_eq!(kind_named("RANGE_OPERATOR"), Some(TokenType::RangeOperator));
    assert_eq!(kind_named("SEMICOLON"), Some(TokenType::Semicolon));
    assert_eq!(kind_named("COMMA"), Some(TokenType::Comma));
    assert_eq!(kind_named("LPARENTHESIS"), Some(TokenType::LParenthesis));
    assert_eq!(kind_named("RPARENTHESIS"), Some(TokenType::RParenthesis));
    assert_eq!(kind_named("LBRACKET"), Some(TokenType::LBracket));
    assert_eq!(kind_named("RBRACKET"), Some(TokenType::RBracket));
    assert_eq!(kind_named("KEYWORD"), None);
    assert_eq!(kind_named("identifier"), None);
}

#[test]
fn rules_with_an_unknown_category_are_told_apart() {
    let mut dfa = rules();
    assert!(dfa.has_known_kinds());
    dfa.final_states.push(ends("S_Odd", "SOMETHING_ELSE"));
    assert!(!dfa.has_known_kinds());
}

#[test]
fn create_token_and_next_state() {
    let lexer = Lexer::new("abc".to_string(), rules());
    let token = lexer.create_token("COMMA", ",".to_string());
    assert_eq!((token.token_type, token.value.as_str()), (TokenType::Comma, ","));
    let token = lexer.create_token("IDENTIFIER", "program".to_string());
    assert_eq!((token.token_type, token.value.as_str()), (TokenType::Identifier, "program"));
    assert_eq!(lexer.get_next_state("S_Start", 'k'), Some("S_Ident".to_string()));
    assert_eq!(lexer.get_next_state("S_Start", '-'), Some("S_Arith".to_string()));
    assert_eq!(lexer.get_next_state("S_Start", '#'), None);
    assert_eq!(lexer.get_next_state("S_Nowhere", 'k'), None);
    assert_eq!(lexer.get_next_state("S_Brace", '}'), Some("S_Start".to_string()));
    assert_eq!(lexer.get_next_state("S_Brace", 'q'), Some("S_Brace".to_string()));
}

#[test]
fn text_beyond_ascii_is_read_by_characters() {
    let (tokens, error) = lex("'é' { späße } x");
    assert_eq!(
        shapes(&tokens),
        vec![(TokenType::CharLiteral, "'é'".to_string()), (TokenType::Identifier, "x".to_string())]
    );
    assert_eq!(error, None);
    let (tokens, error) = lex("a é");
    assert_eq!(shapes(&tokens), one(TokenType::Identifier, "a"));
    assert_eq!(error, Some(LexError { character: 'é', position: 2 }));
}

#[test]
fn tokenize_gives_what_the_calls_give_one_by_one() {
    let source = "program P; { head } mulai x := 1.5 <= y selesai.";
    let (one_by_one, _) = lex(source);
    let mut lexer = Lexer::new(source.to_string(), rules());
    let first = lexer.get_next_token().unwrap();
    assert_eq!(first.value, "program");
    let rest = lexer.tokenize();
    assert_eq!(shapes(&rest), shapes(&one_by_one)[1..].to_vec());
    assert_eq!(rest.len(), 10);
    assert!(lexer.tokenize().is_empty());
    assert_eq!(lexer.error(), None);
    let mut broken = Lexer::new("a b ? c".to_string(), rules());
    let tokens = broken.tokenize();
    assert_eq!(tokens.len(), 2);
    assert_eq!(broken.error(), Some(LexError { character: '?', position: 4 }));
}

#[test]
fn filler_in_front_of_a_text_does_not_change_its_tokens() {
    let (plain, _) = lex("x := y + 1");
    for front in [" ", "\n\t  ", "{ note }", "(* note *)", "  { a } \n (* b *) "] {
        let mut text = front.to_string();
        text.push_str("x := y + 1");
        let (with_front, error) = lex(&text);
        assert_eq!(shapes(&with_front), shapes(&plain));
        assert_eq!(error, None);
    }
}

#[test]
fn a_table_with_a_state_or_a_key_twice_is_not_well_formed() {
    assert!(rules().is_distinct());
    assert!(rules().is_well_formed());
    let mut dfa = rules();
    dfa.transitions.push(row("S_Dot", vec![way("x", "S_Ident")]));
    assert!(!dfa.is_distinct());
    assert!(dfa.has_known_kinds());
    assert!(!dfa.is_well_formed());
    let mut dfa = rules();
    dfa.final_states.push(ends("S_Dot", "COMMA"));
    assert!(!dfa.is_distinct());
    let mut dfa = rules();
    dfa.transitions[1].transitions.push(way("a-z", "S_Int"));
    assert!(!dfa.is_distinct());
    assert!(!dfa.is_well_formed());
    let mut dfa = rules();
    dfa.final_states.push(ends("S_Odd", "SOMETHING_ELSE"));
    assert!(dfa.is_distinct());
    assert!(!dfa.is_well_formed());
    let empty = Dfa {
        start_state: String::new(),
        keywords: Vec::new(),
        word_logical_operators: Vec::new(),
        word_arithmetic_operators: Vec::new(),
        final_states: Vec::new(),
        transitions: Vec::new(),
    };
    assert!(empty.is_well_formed());
}

#[test]
fn white_space_is_what_the_standard_library_calls_white_space() {
    let mut count: usize = 0;
    for code in 0..=0x10FFFFu32 {
        if let Some(c) = char::from_u32(code) {
            assert_eq!(is_space(c), c.is_whitespace(), "U+{:04X}", code);
            if is_space(c) {
                count += 1;
            }
        }
    }
    assert_eq!(count, 25);
    assert!(is_space(' '));
    assert!(is_space('\t'));
    assert!(is_space('\n'));
    assert!(is_space('\u{A0}'));
    assert!(is_space('\u{3000}'));
    assert!(!is_space('<'));
    assert!(!is_space('a'));
    assert!(!is_space('\u{200B}'));
}

#[test]
fn texts_are_compared_character_by_character() {
    assert!(same_text("", ""));
    assert!(same_text("jika", "jika"));
    assert!(same_text("späße", "späße"));
    assert!(!same_text("jika", "jik"));
    assert!(!same_text("jik", "jika"));
    assert!(!same_text("jika", "jiká"));
    assert!(!same_text("", "a"));
    assert!(!same_text("a", ""));
    assert!(!same_text("ab", "ba"));
}
