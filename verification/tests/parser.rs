use pascal_frontend::dfa::{Dfa, FinalState, StateRow, Transition};
use pascal_frontend::lexer::{LexError, Lexer};
use pascal_frontend::node::{NodeType, ParseNode};
use pascal_frontend::parser::{ParseError, Parser};
use pascal_frontend::token::{Token, TokenType};

fn way(key: &str, target: &str) -> Transition {
    Transition { key: key.to_string(), target: target.to_string() }
}

fn row(state: &str, ways: Vec<Transition>) -> StateRow {
    StateRow { state: state.to_string(), transitions: ways }
}

fn ends(state: &str, kind: &str) -> FinalState {
    FinalState { state: state.to_string(), kind: kind.to_string() }
}

fn words(list: &[&str]) -> Vec<String> {
    let mut out = Vec::new();
    for w in list {
        out.push(w.to_string());
    }
    out
}

fn rules() -> Dfa {
    Dfa {
        start_state: "S_Start".to_string(),
        keywords: words(&[
            "program", "variabel", "mulai", "selesai", "konstanta", "tipe", "prosedur", "fungsi",
            "larik", "dari", "rekaman", "jika", "maka", "selain_itu", "selama", "lakukan",
            "untuk", "ke", "turun_ke", "ulangi", "sampai", "integer", "real", "boolean", "char",
            "true", "false", "bagi", "mod",
        ]),
        word_logical_operators: words(&["dan", "atau", "tidak"]),
        word_arithmetic_operators: words(&["pangkat"]),
        final_states: vec![
            ends("S_Ident", "IDENTIFIER"),
            ends("S_Int", "NUMBER"),
            ends("S_Real", "NUMBER"),
            ends("S_StrEnd", "STRING_LITERAL"),
            ends("S_Assign", "ASSIGN_OPERATOR"),
            ends("S_Rel", "RELATIONAL_OPERATOR"),
            ends("S_Lt", "RELATIONAL_OPERATOR"),
            ends("S_Gt", "RELATIONAL_OPERATOR"),
            ends("S_Rel2", "RELATIONAL_OPERATOR"),
            ends("S_Arith", "ARITHMETIC_OPERATOR"),
            ends("S_Colon", "COLON"),
            ends("S_Dot", "DOT"),
            ends("S_Range", "RANGE_OPERATOR"),
            ends("S_Semi", "SEMICOLON"),
            ends("S_Comma", "COMMA"),
            ends("S_LParen", "LPARENTHESIS"),
            ends("S_RParen", "RPARENTHESIS"),
            ends("S_LBr", "LBRACKET"),
            ends("S_RBr", "RBRACKET"),
        ],
        transitions: vec![
            row(
                "S_Start",
                vec![
                    way("a-z", "S_Ident"),
                    way("A-Z", "S_Ident"),
                    way("_", "S_Ident"),
                    way("0-9", "S_Int"),
                    way(":", "S_Colon"),
                    way(";", "S_Semi"),
                    way(",", "S_Comma"),
                    way(".", "S_Dot"),
                    way("(", "S_LParen"),
                    way(")", "S_RParen"),
                    way("[", "S_LBr"),
                    way("]", "S_RBr"),
                    way("+*/", "S_Arith"),
                    way("-", "S_Arith"),
                    way("=", "S_Rel"),
                    way("<", "S_Lt"),
                    way(">", "S_Gt"),
                    way("'", "S_Str"),
                    way("{", "S_Brace"),
                ],
            ),
            row(
                "S_Ident",
                vec![way("a-z", "S_Ident"), way("A-Z", "S_Ident"), way("0-9", "S_Ident"), way("_", "S_Ident")],
            ),
            row("S_Int", vec![way("0-9", "S_Int"), way(".", "S_IntDot")]),
            row("S_IntDot", vec![way("0-9", "S_Real")]),
            row("S_Real", vec![way("0-9", "S_Real")]),
            row("S_Colon", vec![way("=", "S_Assign")]),
            row("S_Dot", vec![way(".", "S_Range")]),
            row("S_Lt", vec![way("=>", "S_Rel2")]),
            row("S_Gt", vec![way("=", "S_Rel2")]),
            row("S_Str", vec![way("any", "S_Str"), way("'", "S_StrEnd")]),
            row("S_Brace", vec![way("any", "S_Brace"), way("}", "S_Start")]),
            row("S_LParen", vec![way("*", "S_Star")]),
            row("S_Star", vec![way("any", "S_Star"), way("*", "S_StarEnd")]),
            row(
                "S_StarEnd",
                vec![way("any", "S_Star"), way("*", "S_StarEnd"), way(")", "S_Start")],
            ),
        ],
    }
}

fn lex(source: &str) -> (Vec<Token>, Option<LexError>) {
    let dfa = rules();
    assert!(dfa.is_well_formed());
    let mut lexer = Lexer::new(source.to_string(), dfa);
    let mut tokens = Vec::new();
    while let Some(token) = lexer.get_next_token() {
        tokens.push(token);
    }
    (tokens, lexer.error())
}

fn shapes(tokens: &Vec<Token>) -> Vec<(TokenType, String)> {
    let mut out = Vec::new();
    for t in tokens {
        out.push((t.token_type, t.value.clone()));
    }
    out
}

fn parse(source: &str) -> Result<ParseNode, ParseError> {
    let (tokens, error) = lex(source);
    assert_eq!(error, None);
    Parser::new(tokens).parse()
}

fn leaves(node: &ParseNode, out: &mut Vec<(TokenType, String)>) {
    if let NodeType::Terminal(token) = &node.node_type {
        out.push((token.token_type, token.value.clone()));
    }
    for child in &node.children {
        leaves(child, out);
    }
}

fn label(node: &ParseNode) -> String {
    match &node.node_type {
        NodeType::Terminal(token) => token.value.clone(),
        other => format!("{:?}", other),
    }
}

fn outline(node: &ParseNode) -> String {
    if node.children.is_empty() {
        label(node)
    } else {
        let mut parts = Vec::new();
        for child in &node.children {
            parts.push(outline(child));
        }
        format!("{}({})", label(node), parts.join(" "))
    }
}

fn failure(source: &str) -> (String, Option<(TokenType, String)>) {
    match parse(source) {
        Ok(tree) => panic!("parsed: {}", outline(&tree)),
        Err(e) => (e.message, e.token.map(|t| (t.token_type, t.value))),
    }
}

fn round_trip(source: &str) -> ParseNode {
    let (tokens, _) = lex(source);
    let expected = shapes(&tokens);
    let tree = parse(source).unwrap();
    let mut found = Vec::new();
    leaves(&tree, &mut found);
    assert_eq!(found, expected);
    tree
}

#[test]
fn a_small_program_parses_and_its_leaves_are_the_tokens() {
    let tree = round_trip("program P; variabel x: integer; mulai x := 1 + 2 selesai.");
    assert_eq!(
        outline(&tree),
        "Program(ProgramHeader(program P ;) \
         DeclarationPart(VarDeclaration(variabel IdentifierList(x) : Type(integer) ;)) \
         CompoundStatement(mulai StatementList(AssignmentStatement(x := \
         Expression(SimpleExpression(Term(Factor(1)) + Term(Factor(2)))))) selesai) .)"
    );
}

#[test]
fn a_program_without_its_final_dot_is_a_syntax_error() {
    let (message, token) = failure("program P; variabel x: integer; mulai x := 1 + 2 selesai");
    assert_eq!(message, "Expected '.' at the end of the program.");
    assert_eq!(token, None);
}

#[test]
fn an_error_carries_the_token_that_stood_in_the_way() {
    let (message, token) = failure("program ; mulai selesai.");
    assert_eq!(message, "Expected program name.");
    assert_eq!(token, Some((TokenType::Semicolon, ";".to_string())));
    let (message, token) = failure("P; mulai selesai.");
    assert_eq!(message, "Expected 'program' keyword.");
    assert_eq!(token, Some((TokenType::Identifier, "P".to_string())));
    let (message, token) = failure("program P mulai selesai.");
    assert_eq!(message, "Expected ';' after program name.");
    assert_eq!(token, Some((TokenType::Keyword, "mulai".to_string())));
    let (message, token) = failure("program P; selesai.");
    assert_eq!(message, "Expected 'mulai' keyword.");
    assert_eq!(token, Some((TokenType::Keyword, "selesai".to_string())));
    let (message, token) = failure("program P; mulai x := selesai.");
    assert_eq!(message, "Expected a factor (e.g., number, identifier, or '(expression)').");
    assert_eq!(token, Some((TokenType::Keyword, "selesai".to_string())));
}

#[test]
fn an_empty_input_is_a_syntax_error_without_a_token() {
    let mut parser = Parser::new(Vec::new());
    match parser.parse() {
        Err(e) => {
            assert_eq!(e.message, "Expected 'program' keyword.");
            assert!(e.token.is_none());
        },
        Ok(_) => panic!("nothing is no program"),
    }
}

#[test]
fn what_follows_the_program_is_an_error() {
    let (message, token) = failure("program P; mulai selesai. x");
    assert_eq!(message, "Unexpected token after end of program.");
    assert_eq!(token, Some((TokenType::Identifier, "x".to_string())));
}

#[test]
fn only_the_first_error_is_reported() {
    let (message, token) = failure("program P; variabel : integer; mulai x := selesai");
    assert_eq!(message, "Expected identifier.");
    assert_eq!(token, Some((TokenType::Colon, ":".to_string())));
}

#[test]
fn the_smallest_program() {
    let tree = round_trip("program P; mulai selesai.");
    assert_eq!(
        outline(&tree),
        "Program(ProgramHeader(program P ;) DeclarationPart CompoundStatement(mulai StatementList selesai) .)"
    );
}

#[test]
fn declarations_of_every_kind() {
    let tree = round_trip(
        "program P; \
         konstanta n = 10; m = n; \
         tipe t = larik[1..n] dari integer; u = t; \
         variabel a, b: integer; c: real; \
         prosedur p(x: integer; variabel y, z: real); mulai selesai; \
         fungsi f: integer; variabel k: integer; mulai f := 1 selesai; \
         mulai selesai.",
    );
    let declarations = &tree.children[1];
    let labels: Vec<String> = declarations.children.iter().map(label).collect();
    assert_eq!(
        labels,
        vec![
            "ConstDeclaration",
            "TypeDeclaration",
            "VarDeclaration",
            "SubprogramDeclaration",
            "SubprogramDeclaration"
        ]
    );
    assert_eq!(
        outline(&declarations.children[2]),
        "VarDeclaration(variabel IdentifierList(a , b) : Type(integer) ; IdentifierList(c) : Type(real) ;)"
    );
    let procedure = &declarations.children[3].children[0];
    assert_eq!(
        outline(&procedure.children[2]),
        "FormalParameterList(( IdentifierList(x) : Type(integer) ; variabel IdentifierList(y , z) : Type(real) ))"
    );
    let function = &declarations.children[4].children[0];
    assert_eq!(label(function), "FunctionDeclaration");
    assert_eq!(label(&function.children[2]), ":");
}

#[test]
fn declarations_come_in_a_fixed_order() {
    let (message, token) =
        failure("program P; variabel x: integer; konstanta c = 1; mulai selesai.");
    assert_eq!(message, "Expected 'mulai' keyword.");
    assert_eq!(token, Some((TokenType::Keyword, "konstanta".to_string())));
    let (message, token) = failure("program P; tipe t = integer; konstanta c = 1; mulai selesai.");
    assert_eq!(message, "Expected 'mulai' keyword.");
    assert_eq!(token, Some((TokenType::Keyword, "konstanta".to_string())));
    let (message, token) = failure("program P; variabel x: integer; tipe t = integer; mulai selesai.");
    assert_eq!(message, "Expected 'mulai' keyword.");
    assert_eq!(token, Some((TokenType::Keyword, "tipe".to_string())));
    let (message, token) =
        failure("program P; prosedur p; mulai selesai; variabel x: integer; mulai selesai.");
    assert_eq!(message, "Expected 'mulai' keyword.");
    assert_eq!(token, Some((TokenType::Keyword, "variabel".to_string())));
    let (message, _) = failure(
        "program P; prosedur p; prosedur q; mulai selesai; variabel x: integer; mulai selesai; mulai selesai.",
    );
    assert_eq!(message, "Expected 'mulai' keyword.");
}

#[test]
fn every_run_of_declarations_may_be_long_or_missing() {
    let tree = round_trip(
        "program P; konstanta a = 1; konstanta b = 2; c = 3; variabel x: integer; variabel y: real; \
         fungsi f: integer; mulai selesai; prosedur p; konstanta k = 1; mulai selesai; mulai selesai.",
    );
    let labels: Vec<String> = tree.children[1].children.iter().map(label).collect();
    assert_eq!(
        labels,
        vec![
            "ConstDeclaration",
            "ConstDeclaration",
            "VarDeclaration",
            "VarDeclaration",
            "SubprogramDeclaration",
            "SubprogramDeclaration"
        ]
    );
    round_trip("program P; tipe t = integer; prosedur p; mulai selesai; mulai selesai.");
    round_trip("program P; konstanta a = 1; fungsi f: integer; mulai selesai; mulai selesai.");
}

#[test]
fn array_and_record_types() {
    let tree = round_trip(
        "program P; tipe m = larik[1..3, 0..4] dari larik[1..2] dari real; \
         r = rekaman x, y: integer; nama: t selesai; mulai selesai.",
    );
    let types = &tree.children[1].children[0];
    assert_eq!(
        outline(&types.children[3]),
        "Type(ArrayType(larik [ \
         Range(Expression(SimpleExpression(Term(Factor(1)))) .. Expression(SimpleExpression(Term(Factor(3))))) , \
         Range(Expression(SimpleExpression(Term(Factor(0)))) .. Expression(SimpleExpression(Term(Factor(4))))) \
         ] dari Type(ArrayType(larik [ \
         Range(Expression(SimpleExpression(Term(Factor(1)))) .. Expression(SimpleExpression(Term(Factor(2))))) \
         ] dari Type(real)))))"
    );
    assert_eq!(
        outline(&types.children[7]),
        "Type(RecordType(rekaman IdentifierList(x , y) : Type(integer) ; IdentifierList(nama) : Type(t) selesai))"
    );
    let (message, _) = failure("program P; tipe t = larik 1..3] dari integer; mulai selesai.");
    assert_eq!(message, "Expected '[' after 'larik'.");
    let (message, _) = failure("program P; tipe t = larik[1 3] dari integer; mulai selesai.");
    assert_eq!(message, "Expected '..' in range.");
    let (message, _) = failure("program P; tipe t = larik[1..3] integer; mulai selesai.");
    assert_eq!(message, "Expected 'dari' keyword.");
    let (message, _) = failure("program P; tipe t = ; mulai selesai.");
    assert_eq!(message, "Expected type name.");
    let (message, _) = failure("program P; tipe t = rekaman x integer selesai; mulai selesai.");
    assert_eq!(message, "Expected ':' after field identifiers.");
}

#[test]
fn statements_of_every_kind() {
    let tree = round_trip(
        "program P; mulai \
         jika a < b maka x := 1 selain_itu x := 2; \
         selama a <> 0 lakukan a := a - 1; \
         untuk i := 1 ke 10 lakukan s := s + i; \
         untuk i := 10 turun_ke 1 lakukan mulai selesai; \
         ulangi a := a + 1; b := b - 1 sampai a >= b; \
         tulis(a, b + 1); \
         berhenti; \
         mulai x := 0; selesai \
         selesai.",
    );
    let list = &tree.children[2].children[1];
    let labels: Vec<String> = list.children.iter().map(label).collect();
    assert_eq!(
        labels,
        vec![
            "IfStatement",
            ";",
            "WhileStatement",
            ";",
            "ForStatement",
            ";",
            "ForStatement",
            ";",
            "RepeatStatement",
            ";",
            "ProcedureOrFunctionCall",
            ";",
            "ProcedureOrFunctionCall",
            ";",
            "CompoundStatement"
        ]
    );
    assert_eq!(list.children[0].children.len(), 6);
    assert_eq!(label(&list.children[4].children[4]), "ke");
    assert_eq!(label(&list.children[6].children[4]), "turun_ke");
    assert_eq!(
        outline(&list.children[10]),
        "ProcedureOrFunctionCall(tulis ( ParameterList(\
         Expression(SimpleExpression(Term(Factor(a)))) , \
         Expression(SimpleExpression(Term(Factor(b)) + Term(Factor(1))))) ))"
    );
    assert_eq!(outline(&list.children[12]), "ProcedureOrFunctionCall(berhenti)");
    assert_eq!(
        outline(&list.children[14]),
        "CompoundStatement(mulai StatementList(AssignmentStatement(x := \
         Expression(SimpleExpression(Term(Factor(0))))) ;) selesai)"
    );
}

#[test]
fn statement_errors() {
    let (message, _) = failure("program P; mulai jika a x := 1 selesai.");
    assert_eq!(message, "Expected 'maka' keyword.");
    let (message, _) = failure("program P; mulai selama a x := 1 selesai.");
    assert_eq!(message, "Expected 'lakukan' keyword.");
    let (message, _) = failure("program P; mulai untuk 1 := 1 ke 2 lakukan selesai.");
    assert_eq!(message, "Expected loop variable.");
    let (message, _) = failure("program P; mulai untuk i = 1 ke 2 lakukan selesai.");
    assert_eq!(message, "Expected ':=' operator.");
    let (message, token) = failure("program P; mulai untuk i := 1 sampai 2 lakukan selesai.");
    assert_eq!(message, "Expected 'ke' or 'turun_ke' keyword.");
    assert_eq!(token, Some((TokenType::Keyword, "sampai".to_string())));
    let (message, _) = failure("program P; mulai tulis(a selesai.");
    assert_eq!(message, "Expected ')' after parameter list.");
    let (message, _) = failure("program P; mulai x := f(a selesai.");
    assert_eq!(message, "Expected ')' after parameters.");
    let (message, _) = failure("program P; mulai x := (a selesai.");
    assert_eq!(message, "Expected ')' after expression.");
    let (message, _) = failure("program P; mulai x := a.1 selesai.");
    assert_eq!(message, "Expected field name after '.'.");
    let (message, _) = failure("program P; mulai x := 1 y := 2 selesai.");
    assert_eq!(message, "Expected 'selesai' keyword.");
}

#[test]
fn a_repeat_loop_over_what_is_no_statement_ends_in_an_error() {
    let (message, token) = failure("program P; mulai ulangi 5 sampai a selesai.");
    assert_eq!(message, "Expected 'sampai' keyword.");
    assert_eq!(token, Some((TokenType::Number, "5".to_string())));
    let (message, token) = failure("program P; mulai ulangi");
    assert_eq!(message, "Expected 'sampai' keyword.");
    assert_eq!(token, None);
    round_trip("program P; mulai ulangi sampai a selesai.");
    round_trip("program P; mulai ulangi ; ; x := 1 ; sampai a selesai.");
}

#[test]
fn an_identifier_starts_an_assignment_only_before_the_assign_operator() {
    let tree = round_trip("program P; mulai a := b; a(b); a selesai.");
    let list = &tree.children[2].children[1];
    assert_eq!(label(&list.children[0]), "AssignmentStatement");
    assert_eq!(label(&list.children[2]), "ProcedureOrFunctionCall");
    assert_eq!(label(&list.children[4]), "ProcedureOrFunctionCall");
    assert_eq!(outline(&list.children[2]), "ProcedureOrFunctionCall(a ( ParameterList(Expression(SimpleExpression(Term(Factor(b))))) ))");
    let tree = round_trip("program P; mulai a() selesai.");
    assert_eq!(outline(&tree.children[2].children[1].children[0]), "ProcedureOrFunctionCall(a ( ))");
}

#[test]
fn expressions_have_three_tiers() {
    let tree = round_trip("program P; mulai x := -a + b * c bagi d <= (e atau f) dan tidak g selesai.");
    let expression = &tree.children[2].children[1].children[0].children[2];
    assert_eq!(
        outline(expression),
        "Expression(\
         SimpleExpression(- Term(Factor(a)) + Term(Factor(b) * Factor(c) bagi Factor(d))) \
         <= \
         SimpleExpression(Term(Factor(( Expression(SimpleExpression(Term(Factor(e)) atau Term(Factor(f)))) )) \
         dan Factor(tidak Factor(g)))))"
    );
    let tree = round_trip("program P; mulai x := f(1, 'a') + r.a.b mod 'teks' + true selesai.");
    let expression = &tree.children[2].children[1].children[0].children[2];
    assert_eq!(
        outline(expression),
        "Expression(SimpleExpression(\
         Term(Factor(ProcedureOrFunctionCall(f ( ParameterList(\
         Expression(SimpleExpression(Term(Factor(1)))) , Expression(SimpleExpression(Term(Factor('a'))))) )))) \
         + Term(Factor(r . a . b) mod Factor('teks')) \
         + Term(Factor(true))))"
    );
    let (message, token) = failure("program P; mulai x := a < b < c selesai.");
    assert_eq!(message, "Expected 'selesai' keyword.");
    assert_eq!(token, Some((TokenType::RelationalOperator, "<".to_string())));
}

#[test]
fn the_parser_reads_tokens_made_by_hand() {
    let tokens = vec![
        Token { token_type: TokenType::Keyword, value: "program".to_string() },
        Token { token_type: TokenType::Identifier, value: "P".to_string() },
        Token { token_type: TokenType::Semicolon, value: ";".to_string() },
        Token { token_type: TokenType::Keyword, value: "mulai".to_string() },
        Token { token_type: TokenType::Keyword, value: "selesai".to_string() },
        Token { token_type: TokenType::Dot, value: ".".to_string() },
    ];
    let tree = Parser::new(tokens).parse().unwrap();
    assert!(matches!(tree.node_type, NodeType::Program));
    assert_eq!(tree.children.len(), 4);
    let tokens = vec![
        Token { token_type: TokenType::Identifier, value: "program".to_string() },
        Token { token_type: TokenType::Identifier, value: "P".to_string() },
    ];
    let error = Parser::new(tokens).parse().unwrap_err();
    assert_eq!(error.message, "Expected 'program' keyword.");
    assert_eq!(error.token.unwrap().token_type, TokenType::Identifier);
}

#[test]
fn nodes_are_built_from_parts() {
    let mut node = ParseNode::new(NodeType::Term);
    assert!(node.children.is_empty());
    assert_eq!(node.len(), 0);
    node.add(ParseNode::new_terminal(Token { token_type: TokenType::Number, value: "1".to_string() }));
    node.add(ParseNode::new(NodeType::Factor));
    assert_eq!(node.len(), 2);
    assert!(matches!(node.kind(), NodeType::Term));
    assert_eq!(node.child(0).token().unwrap().value, "1");
    assert!(node.child(1).token().is_none());
    assert!(matches!(node.child(1).kind(), NodeType::Factor));
}

#[test]
fn fields_of_a_record_need_no_separator() {
    round_trip("program P; tipe t = rekaman x: integer y: real selesai; mulai selesai.");
    round_trip("program P; tipe t = rekaman selesai; mulai selesai.");
}

#[test]
fn declaration_errors() {
    let cases = [
        ("program P; konstanta 1 = 2; mulai selesai.", "Expected constant identifier."),
        ("program P; konstanta n 2; mulai selesai.", "Expected '=' in constant declaration."),
        ("program P; konstanta n = 2 mulai selesai.", "Expected ';' after constant declaration."),
        ("program P; tipe 1 = integer; mulai selesai.", "Expected type identifier."),
        ("program P; tipe t integer; mulai selesai.", "Expected '=' in type declaration."),
        ("program P; tipe t = integer mulai selesai.", "Expected ';' after type declaration."),
        ("program P; variabel x integer; mulai selesai.", "Expected ':' after identifier list."),
        ("program P; variabel x: integer mulai selesai.", "Expected ';' after variable declaration."),
        ("program P; variabel x, : integer; mulai selesai.", "Expected identifier after ','."),
        ("program P; tipe t = larik[1..2 dari integer; mulai selesai.", "Expected ']' after range."),
        ("program P; tipe t = rekaman x: integer; mulai selesai.", "Expected identifier."),
        ("program P; prosedur ; mulai selesai; mulai selesai.", "Expected procedure name."),
        ("program P; prosedur p mulai selesai; mulai selesai.", "Expected ';' after procedure header."),
        ("program P; prosedur p; mulai selesai mulai selesai.", "Expected ';' after procedure body."),
        ("program P; fungsi : integer; mulai selesai; mulai selesai.", "Expected function name."),
        ("program P; fungsi f; mulai selesai; mulai selesai.", "Expected ':' after function parameters."),
        ("program P; fungsi f: integer mulai selesai; mulai selesai.", "Expected ';' after function header."),
        ("program P; fungsi f: integer; mulai selesai mulai selesai.", "Expected ';' after function body."),
        ("program P; prosedur p(x integer); mulai selesai; mulai selesai.", "Expected ':' after parameter identifiers."),
        ("program P; prosedur p(x: integer mulai selesai; mulai selesai.", "Expected ')' to end parameter list."),
        ("program P; prosedur p(); mulai selesai; mulai selesai.", "Expected identifier."),
        ("program P; mulai ulangi x := 1 selesai.", "Expected 'sampai' keyword."),
    ];
    for (source, expected) in cases {
        let (message, _) = failure(source);
        assert_eq!(message, expected, "{}", source);
    }
}
