use pascal_frontend::ast::{AstNode, LiteralValue};
use pascal_frontend::dfa::{Dfa, FinalState, StateRow, Transition};
use pascal_frontend::lexer::{LexError, Lexer};
use pascal_frontend::node::{NodeType, ParseNode};
use pascal_frontend::parser::Parser;
use pascal_frontend::semantic_analyzer::SemanticAnalyzer;
use pascal_frontend::semantic_error::{SemanticError, SemanticErrorKind};
use pascal_frontend::token::{Token, TokenType};
use pascal_frontend::types::{DataType, ObjectKind};

fn way(key: &str, target: &str) -> Transition {
    Transition { key: key.to_string(), target: target.to_string() }
}

fn row(state: &str, ways: Vec<Transition>) -> StateRow {
    StateRow { state: state.to_string(), transitions: ways }
}

fn ends(state: &str, kind: &str) -> FinalState {
    FinalState { state: state.to_string(), kind: kind.to_string() }
}

fn words(list: &[&str]) -> Vec<String> {
    let mut out = Vec::new();
    for w in list {
        out.push(w.to_string());
    }
    out
}

fn rules() -> Dfa {
    Dfa {
        start_state: "S_Start".to_string(),
        keywords: words(&[
            "program", "variabel", "mulai", "selesai", "konstanta", "tipe", "prosedur", "fungsi",
            "larik", "dari", "rekaman", "jika", "maka", "selain_itu", "selama", "lakukan",
            "untuk", "ke", "turun_ke", "ulangi", "sampai", "integer", "real", "boolean", "char",
            "true", "false", "bagi", "mod",
        ]),
        word_logical_operators: words(&["dan", "atau", "tidak"]),
        word_arithmetic_operators: words(&["pangkat"]),
        final_states: vec![
            ends("S_Ident", "IDENTIFIER"),
            ends("S_Int", "NUMBER"),
            ends("S_Real", "NUMBER"),
            ends("S_StrEnd", "STRING_LITERAL"),
            ends("S_Assign", "ASSIGN_OPERATOR"),
            ends("S_Rel", "RELATIONAL_OPERATOR"),
            ends("S_Lt", "RELATIONAL_OPERATOR"),
            ends("S_Gt", "RELATIONAL_OPERATOR"),
            ends("S_Rel2", "RELATIONAL_OPERATOR"),
            ends("S_Arith", "ARITHMETIC_OPERATOR"),
            ends("S_Colon", "COLON"),
            ends("S_Dot", "DOT"),
            ends("S_Range", "RANGE_OPERATOR"),
            ends("S_Semi", "SEMICOLON"),
            ends("S_Comma", "COMMA"),
            ends("S_LParen", "LPARENTHESIS"),
            ends("S_RParen", "RPARENTHESIS"),
            ends("S_LBr", "LBRACKET"),
            ends("S_RBr", "RBRACKET"),
        ],
        transitions: vec![
            row(
                "S_Start",
                vec![
                    way("a-z", "S_Ident"),
                    way("A-Z", "S_Ident"),
                    way("_", "S_Ident"),
                    way("0-9", "S_Int"),
                    way(":", "S_Colon"),
                    way(";", "S_Semi"),
                    way(",", "S_Comma"),
                    way(".", "S_Dot"),
                    way("(", "S_LParen"),
                    way(")", "S_RParen"),
                    way("[", "S_LBr"),
                    way("]", "S_RBr"),
                    way("+*/", "S_Arith"),
                    way("-", "S_Arith"),
                    way("=", "S_Rel"),
                    way("<", "S_Lt"),
                    way(">", "S_Gt"),
                    way("'", "S_Str"),
                    way("{", "S_Brace"),
                ],
            ),
            row(
                "S_Ident",
                vec![way("a-z", "S_Ident"), way("A-Z", "S_Ident"), way("0-9", "S_Ident"), way("_", "S_Ident")],
            ),
            row("S_Int", vec![way("0-9", "S_Int"), way(".", "S_IntDot")]),
            row("S_IntDot", vec![way("0-9", "S_Real")]),
            row("S_Real", vec![way("0-9", "S_Real")]),
            row("S_Colon", vec![way("=", "S_Assign")]),
            row("S_Dot", vec![way(".", "S_Range")]),
            row("S_Lt", vec![way("=>", "S_Rel2")]),
            row("S_Gt", vec![way("=", "S_Rel2")]),
            row("S_Str", vec![way("any", "S_Str"), way("'", "S_StrEnd")]),
            row("S_Brace", vec![way("any", "S_Brace"), way("}", "S_Start")]),
            row("S_LParen", vec![way("*", "S_Star")]),
            row("S_Star", vec![way("any", "S_Star"), way("*", "S_StarEnd")]),
            row(
                "S_StarEnd",
                vec![way("any", "S_Star"), way("*", "S_StarEnd"), way(")", "S_Start")],
            ),
        ],
    }
}

fn lex(source: &str) -> (Vec<Token>, Option<LexError>) {
    let dfa = rules();
    assert!(dfa.is_well_formed());
    let mut lexer = Lexer::new(source.to_string(), dfa);
    let mut tokens = Vec::new();
    while let Some(token) = lexer.get_next_token() {
        tokens.push(token);
    }
    (tokens, lexer.error())
}

fn shapes(tokens: &Vec<Token>) -> Vec<(TokenType, String)> {
    let mut out = Vec::new();
    for t in tokens {
        out.push((t.token_type, t.value.clone()));
    }
    out
}

fn analyze(source: &str) -> (AstNode, Vec<SemanticError>, SemanticAnalyzer) {
    let (tokens, error) = lex(source);
    assert_eq!(error, None);
    let _ = shapes(&tokens);
    let tree = match Parser::new(tokens).parse() {
        Ok(tree) => tree,
        Err(e) => panic!("syntax error: {}", e.message),
    };
    let mut analyzer = SemanticAnalyzer::new();
    let (ast, diagnostics) = analyzer.analyze(&tree);
    assert_eq!(diagnostics.len(), analyzer.errors.len());
    (ast, diagnostics, analyzer)
}

fn messages(diagnostics: &Vec<SemanticError>) -> Vec<String> {
    diagnostics.iter().map(|e| e.message.clone()).collect()
}

fn body_of(ast: &AstNode) -> &Vec<AstNode> {
    match ast {
        AstNode::Program { body, .. } => match &**body {
            AstNode::Block { statements } => statements,
            other => panic!("no block: {:?}", other),
        },
        other => panic!("no program: {:?}", other),
    }
}

fn declarations_of(ast: &AstNode) -> &Vec<AstNode> {
    match ast {
        AstNode::Program { declarations, .. } => declarations,
        other => panic!("no program: {:?}", other),
    }
}

fn int_literal(node: &AstNode) -> i64 {
    match node {
        AstNode::Literal { value: LiteralValue::Integer(v), data_type: DataType::Integer } => *v,
        other => panic!("no integer literal: {:?}", other),
    }
}

#[test]
fn a_small_program_gives_a_var_decl_and_an_assign() {
    let (ast, diagnostics, analyzer) =
        analyze("program P; variabel x: integer; mulai x := 1 + 2 selesai.");
    assert!(diagnostics.is_empty());
    match &ast {
        AstNode::Program { name, tab_index, .. } => {
            assert_eq!(name, "P");
            assert_eq!(*tab_index, Some(33));
        },
        other => panic!("no program: {:?}", other),
    }
    let declarations = declarations_of(&ast);
    assert_eq!(declarations.len(), 1);
    match &declarations[0] {
        AstNode::VarDecl { names, data_type, tab_indices, level } => {
            assert_eq!(names, &vec!["x".to_string()]);
            assert!(matches!(data_type, DataType::Integer));
            assert_eq!(tab_indices, &vec![34]);
            assert_eq!(*level, 0);
        },
        other => panic!("no variable: {:?}", other),
    }
    let statements = body_of(&ast);
    assert_eq!(statements.len(), 1);
    match &statements[0] {
        AstNode::Assign { target, value, data_type } => {
            assert!(matches!(data_type, DataType::Integer));
            match &**target {
                AstNode::Var { name, data_type, tab_index, level } => {
                    assert_eq!(name, "x");
                    assert!(matches!(data_type, DataType::Integer));
                    assert_eq!(*tab_index, 34);
                    assert_eq!(*level, 0);
                },
                other => panic!("no variable: {:?}", other),
            }
            match &**value {
                AstNode::BinOp { op, left, right, data_type } => {
                    assert_eq!(op, "+");
                    assert!(matches!(data_type, DataType::Integer));
                    assert_eq!(int_literal(left), 1);
                    assert_eq!(int_literal(right), 2);
                },
                other => panic!("no sum: {:?}", other),
            }
        },
        other => panic!("no assignment: {:?}", other),
    }
    let table = &analyzer.symbol_table;
    assert_eq!(table.tab.len(), 35);
    assert_eq!(table.tab[33].name, "P");
    assert_eq!(table.tab[33].obj, ObjectKind::Program);
    assert_eq!(table.tab[34].name, "x");
    assert_eq!(table.tab[34].obj, ObjectKind::Variable);
    assert_eq!(table.tab[34].link, Some(33));
    assert_eq!(table.btab.len(), 2);
    assert_eq!(table.btab[0].var_size, 1);
    assert_eq!(table.btab[0].last, 34);
    assert_eq!(table.display, vec![0]);
}

#[test]
fn a_second_declaration_in_one_block_is_reported_once() {
    let (ast, diagnostics, analyzer) =
        analyze("program P; variabel x: integer; variabel x: real; mulai selesai.");
    assert_eq!(messages(&diagnostics), vec!["Identifier 'x' is already declared in this scope"]);
    assert!(matches!(
        &diagnostics[0].kind,
        SemanticErrorKind::RedeclaredIdentifier(name) if name == "x"
    ));
    assert!(diagnostics[0].token.is_none());
    assert_eq!(declarations_of(&ast).len(), 1);
    let table = &analyzer.symbol_table;
    assert_eq!(table.tab.len(), 35);
    assert_eq!(table.lookup_current_scope("x"), Some(34));
    assert!(matches!(table.tab[34].data_type, DataType::Integer));
    assert_eq!(table.btab[0].var_size, 1);
}

#[test]
fn a_second_declaration_does_not_stop_its_siblings() {
    let (ast, diagnostics, _) =
        analyze("program P; konstanta b = 1; c = 2; variabel a, a, b, d: integer; mulai selesai.");
    assert_eq!(
        messages(&diagnostics),
        vec![
            "Identifier 'a' is already declared in this scope",
            "Identifier 'b' is already declared in this scope"
        ]
    );
    let declarations = declarations_of(&ast);
    assert_eq!(declarations.len(), 4);
    assert!(matches!(&declarations[0], AstNode::ConstDecl { name, tab_index: 34, .. } if name == "b"));
    assert!(matches!(&declarations[1], AstNode::ConstDecl { name, tab_index: 35, .. } if name == "c"));
    assert!(matches!(&declarations[2], AstNode::VarDecl { names, .. } if names[0] == "a"));
    assert!(matches!(
        &declarations[3],
        AstNode::VarDecl { names, tab_indices, .. } if names[0] == "d" && tab_indices == &vec![37]
    ));
}

#[test]
fn an_integer_is_widened_to_a_real_and_a_real_is_not_narrowed() {
    let (ast, diagnostics, _) =
        analyze("program P; variabel r: real; i: integer; mulai r := i + 1 selesai.");
    assert!(diagnostics.is_empty());
    assert!(matches!(&body_of(&ast)[0], AstNode::Assign { data_type: DataType::Real, .. }));
    let (ast, diagnostics, _) =
        analyze("program P; variabel r: real; i: integer; mulai i := r selesai.");
    assert_eq!(messages(&diagnostics), vec!["Type mismatch: expected integer, found real"]);
    assert!(matches!(
        &diagnostics[0].kind,
        SemanticErrorKind::TypeMismatch { expected, found } if expected == "integer" && found == "real"
    ));
    assert!(matches!(&body_of(&ast)[0], AstNode::Assign { data_type: DataType::Integer, .. }));
    let (_, diagnostics, _) =
        analyze("program P; variabel r: real; i: integer; mulai i := 1.5 selesai.");
    assert_eq!(messages(&diagnostics), vec!["Type mismatch: expected integer, found real"]);
}

#[test]
fn three_undeclared_names_give_three_diagnostics_and_a_tree() {
    let (ast, diagnostics, _) =
        analyze("program P; variabel x: integer; mulai a := 1; hilang; untuk c := 1 ke 2 lakukan x := 0; x := 3 selesai.");
    let names: Vec<String> = diagnostics
        .iter()
        .map(|e| match &e.kind {
            SemanticErrorKind::UndeclaredIdentifier(name) => name.clone(),
            other => panic!("{:?}", other),
        })
        .collect();
    assert_eq!(names, vec!["a", "hilang", "c"]);
    assert_eq!(
        messages(&diagnostics),
        vec![
            "Undeclared identifier 'a'",
            "Undeclared identifier 'hilang'",
            "Undeclared identifier 'c'"
        ]
    );
    assert!(matches!(&ast, AstNode::Program { .. }));
    let statements = body_of(&ast);
    assert_eq!(statements.len(), 1);
    assert!(matches!(&statements[0], AstNode::Assign { .. }));
}

#[test]
fn undeclared_names_in_expressions_are_counted_one_by_one() {
    let (ast, diagnostics, _) =
        analyze("program P; variabel x: integer; mulai x := a; x := b + 1; x := 2 * c; x := 3 selesai.");
    let names: Vec<String> = diagnostics
        .iter()
        .filter_map(|e| match &e.kind {
            SemanticErrorKind::UndeclaredIdentifier(name) => Some(name.clone()),
            _ => None,
        })
        .collect();
    assert_eq!(names, vec!["a", "b", "c"]);
    let statements = body_of(&ast);
    assert_eq!(statements.len(), 4);
    match &statements[0] {
        AstNode::Assign { value, .. } => assert!(matches!(
            &**value,
            AstNode::Literal { value: LiteralValue::Integer(0), data_type: DataType::Unknown }
        )),
        other => panic!("{:?}", other),
    }
    match &statements[1] {
        AstNode::Assign { value, .. } => {
            assert!(matches!(&**value, AstNode::BinOp { data_type: DataType::Unknown, .. }))
        },
        other => panic!("{:?}", other),
    }
}

#[test]
fn a_placeholder_is_reported_where_it_meets_a_type() {
    let (_, diagnostics, _) = analyze("program P; variabel x: integer; mulai x := a selesai.");
    assert_eq!(
        messages(&diagnostics),
        vec!["Undeclared identifier 'a'", "Type mismatch: expected integer, found unknown"]
    );
}

#[test]
fn a_local_hides_a_global_inside_its_subprogram() {
    let (ast, diagnostics, analyzer) = analyze(
        "program P; variabel x: integer; \
         prosedur q(a: integer); variabel x: real; mulai x := a selesai; \
         mulai x := 1 selesai.",
    );
    assert!(diagnostics.is_empty(), "{:?}", messages(&diagnostics));
    let declarations = declarations_of(&ast);
    let (params, locals, body, tab_index, block_index) = match &declarations[1] {
        AstNode::ProcDecl { name, params, declarations, body, tab_index, block_index } => {
            assert_eq!(name, "q");
            (params, declarations, body, *tab_index, *block_index)
        },
        other => panic!("{:?}", other),
    };
    assert_eq!(tab_index, 35);
    assert_eq!(block_index, 1);
    assert!(matches!(
        &params[0],
        AstNode::ParamDecl { names, data_type: DataType::Integer, is_var: false, tab_indices }
            if names == &vec!["a".to_string()] && tab_indices == &vec![36]
    ));
    assert!(matches!(
        &locals[0],
        AstNode::VarDecl { data_type: DataType::Real, level: 1, tab_indices, .. } if tab_indices == &vec![37]
    ));
    let inner = match &**body {
        AstNode::Block { statements } => &statements[0],
        other => panic!("{:?}", other),
    };
    match inner {
        AstNode::Assign { target, value, data_type: DataType::Real } => {
            assert!(matches!(&**target, AstNode::Var { tab_index: 37, level: 1, .. }));
            assert!(matches!(&**value, AstNode::Var { tab_index: 36, level: 1, .. }));
        },
        other => panic!("{:?}", other),
    }
    match &body_of(&ast)[0] {
        AstNode::Assign { target, data_type: DataType::Integer, .. } => {
            assert!(matches!(&**target, AstNode::Var { tab_index: 34, level: 0, .. }));
        },
        other => panic!("{:?}", other),
    }
    let table = &analyzer.symbol_table;
    assert_eq!(table.tab[35].name, "q");
    assert_eq!(table.tab[35].obj, ObjectKind::Procedure);
    assert_eq!(table.tab[35].ref_index, Some(1));
    assert_eq!(table.tab[35].level, 0);
    assert_eq!(table.tab[36].obj, ObjectKind::Parameter);
    assert_eq!(table.tab[36].level, 1);
    assert_eq!(table.btab.len(), 3);
    assert_eq!(table.btab[1].last, 37);
    assert_eq!(table.btab[1].var_size, 1);
    assert_eq!(table.btab[0].last, 35);
    assert_eq!(table.display, vec![0]);
}

#[test]
fn a_subprogram_is_seen_by_its_siblings_and_by_itself() {
    let (ast, diagnostics, analyzer) = analyze(
        "program P; \
         fungsi f(n: integer): integer; mulai f := f(n) selesai; \
         prosedur g; variabel y: integer; mulai y := f(1); g selesai; \
         mulai g; writeln(f(2)) selesai.",
    );
    assert!(diagnostics.is_empty(), "{:?}", messages(&diagnostics));
    let declarations = declarations_of(&ast);
    match &declarations[0] {
        AstNode::FuncDecl { name, return_type: DataType::Integer, tab_index, block_index, body, .. } => {
            assert_eq!(name, "f");
            assert_eq!(*tab_index, 34);
            assert_eq!(*block_index, 1);
            match &**body {
                AstNode::Block { statements } => match &statements[0] {
                    AstNode::Assign { target, value, data_type: DataType::Integer } => {
                        assert!(matches!(&**target, AstNode::Var { tab_index: 34, .. }));
                        assert!(matches!(
                            &**value,
                            AstNode::ProcCall { tab_index: 34, args, .. } if args.len() == 1
                        ));
                    },
                    other => panic!("{:?}", other),
                },
                other => panic!("{:?}", other),
            }
        },
        other => panic!("{:?}", other),
    }
    let statements = body_of(&ast);
    assert!(matches!(&statements[0], AstNode::ProcCall { name, args, .. } if name == "g" && args.is_empty()));
    match &statements[1] {
        AstNode::ProcCall { name, args, tab_index: 29 } => {
            assert_eq!(name, "writeln");
            assert!(matches!(&args[0], AstNode::ProcCall { tab_index: 34, .. }));
        },
        other => panic!("{:?}", other),
    }
    assert!(matches!(analyzer.symbol_table.tab[34].data_type, DataType::Integer));
    assert_eq!(analyzer.symbol_table.tab[34].obj, ObjectKind::Function);
}

#[test]
fn a_subprogram_declared_twice_is_reported() {
    let (_, diagnostics, _) = analyze(
        "program P; variabel p: integer; prosedur p; mulai selesai; mulai selesai.",
    );
    assert_eq!(messages(&diagnostics), vec!["Identifier 'p' is already declared in this scope"]);
}

#[test]
fn conditions_must_be_boolean() {
    let (ast, diagnostics, _) = analyze(
        "program P; variabel x: integer; mulai \
         jika x maka x := 1; \
         selama x + 1 lakukan x := 2; \
         jika x < 1 maka x := 3 selain_itu x := 4; \
         selama true lakukan x := 5 \
         selesai.",
    );
    assert_eq!(
        messages(&diagnostics),
        vec!["Condition must be of boolean type", "Condition must be of boolean type"]
    );
    assert!(matches!(&diagnostics[0].kind, SemanticErrorKind::ConditionNotBoolean));
    let statements = body_of(&ast);
    assert_eq!(statements.len(), 4);
    match &statements[0] {
        AstNode::If { condition, else_stmt, .. } => {
            assert!(matches!(&**condition, AstNode::Var { .. }));
            assert!(else_stmt.is_none());
        },
        other => panic!("{:?}", other),
    }
    assert!(matches!(&statements[2], AstNode::If { else_stmt: Some(_), .. }));
    assert!(matches!(&statements[3], AstNode::While { .. }));
}

#[test]
fn loop_variables_must_be_integers() {
    let (ast, diagnostics, _) = analyze(
        "program P; variabel i: integer; r: real; mulai \
         untuk i := 1 ke 10 lakukan r := i; \
         untuk r := 10 turun_ke 1 lakukan i := 0; \
         untuk z := 1 ke 2 lakukan i := 0 \
         selesai.",
    );
    assert_eq!(
        messages(&diagnostics),
        vec!["Loop variable must be of integer type", "Undeclared identifier 'z'"]
    );
    assert!(matches!(&diagnostics[0].kind, SemanticErrorKind::InvalidLoopVariable));
    let statements = body_of(&ast);
    assert_eq!(statements.len(), 2);
    assert!(matches!(
        &statements[0],
        AstNode::For { var_name, is_downto: false, tab_index: 34, .. } if var_name == "i"
    ));
    assert!(matches!(&statements[1], AstNode::For { is_downto: true, tab_index: 35, .. }));
}

#[test]
fn operators_and_their_types() {
    let (ast, diagnostics, _) = analyze(
        "program P; variabel i: integer; r: real; b: boolean; c: char; mulai \
         r := i * r; \
         i := i bagi 2; \
         b := i < r; \
         b := b dan tidak b atau b; \
         b := c = i; \
         b := i dan b; \
         i := b + 1; \
         b := tidak i; \
         i := -i; \
         r := +r \
         selesai.",
    );
    assert_eq!(
        messages(&diagnostics),
        vec![
            "Invalid operation '=' for types char and integer",
            "Invalid operation 'dan' for types integer and boolean",
            "Invalid operation '+' for types boolean and integer",
            "Type mismatch: expected integer, found unknown",
            "Invalid operation 'tidak' for types integer",
        ]
    );
    assert!(matches!(
        &diagnostics[0].kind,
        SemanticErrorKind::InvalidOperation { op, types } if op == "=" && types == "char and integer"
    ));
    let statements = body_of(&ast);
    let value_of = |i: usize| match &statements[i] {
        AstNode::Assign { value, .. } => &**value,
        other => panic!("{:?}", other),
    };
    assert!(matches!(value_of(0), AstNode::BinOp { op, data_type: DataType::Real, .. } if op == "*"));
    assert!(matches!(value_of(1), AstNode::BinOp { op, data_type: DataType::Integer, .. } if op == "bagi"));
    assert!(matches!(value_of(2), AstNode::BinOp { op, data_type: DataType::Boolean, .. } if op == "<"));
    match value_of(3) {
        AstNode::BinOp { op, left, right, data_type: DataType::Boolean } => {
            assert_eq!(op, "atau");
            assert!(matches!(&**left, AstNode::BinOp { op, .. } if op == "dan"));
            assert!(matches!(&**right, AstNode::Var { .. }));
        },
        other => panic!("{:?}", other),
    }
    assert!(matches!(value_of(4), AstNode::BinOp { data_type: DataType::Boolean, .. }));
    assert!(matches!(value_of(5), AstNode::BinOp { data_type: DataType::Boolean, .. }));
    assert!(matches!(value_of(6), AstNode::BinOp { data_type: DataType::Unknown, .. }));
    assert!(matches!(value_of(7), AstNode::UnaryOp { op, data_type: DataType::Boolean, .. } if op == "tidak"));
    assert!(matches!(value_of(8), AstNode::UnaryOp { op, data_type: DataType::Integer, .. } if op == "-"));
    assert!(matches!(value_of(9), AstNode::Var { data_type: DataType::Real, .. }));
}

#[test]
fn literals_of_every_kind() {
    let (ast, diagnostics, _) = analyze(
        "program P; konstanta a = 42; b = 2.5; c = 'x'; d = 'kata'; e = true; f = false; \
         g = 99999999999999999999; h = (7); mulai selesai.",
    );
    assert!(diagnostics.is_empty());
    let declarations = declarations_of(&ast);
    let value_of = |i: usize| match &declarations[i] {
        AstNode::ConstDecl { value, .. } => &**value,
        other => panic!("{:?}", other),
    };
    assert_eq!(int_literal(value_of(0)), 42);
    assert!(matches!(
        value_of(1),
        AstNode::Literal { value: LiteralValue::Real(text), data_type: DataType::Real } if text == "2.5"
    ));
    assert!(matches!(
        value_of(2),
        AstNode::Literal { value: LiteralValue::Char('\''), data_type: DataType::Char }
    ));
    assert!(matches!(
        value_of(3),
        AstNode::Literal { value: LiteralValue::String(text), data_type: DataType::String } if text == "'kata'"
    ));
    assert!(matches!(
        value_of(4),
        AstNode::Literal { value: LiteralValue::Boolean(true), data_type: DataType::Boolean }
    ));
    assert!(matches!(
        value_of(5),
        AstNode::Literal { value: LiteralValue::Boolean(false), data_type: DataType::Boolean }
    ));
    assert!(matches!(value_of(6), AstNode::Empty));
    assert_eq!(int_literal(value_of(7)), 7);
    assert!(matches!(
        &declarations[1],
        AstNode::ConstDecl { name, data_type: DataType::Real, tab_index: 35, .. } if name == "b"
    ));
    assert!(matches!(&declarations[6], AstNode::ConstDecl { data_type: DataType::Unknown, .. }));
}

#[test]
fn array_types_are_registered_with_their_bounds() {
    let (ast, diagnostics, analyzer) = analyze(
        "program P; konstanta n = 5; \
         tipe v = larik[1..10] dari integer; \
         w = larik[5..1] dari real; \
         m = larik[-2..2, 0..3] dari char; \
         k = larik[1..n] dari integer; \
         variabel a: v; b: larik[0..0] dari v; \
         mulai selesai.",
    );
    assert_eq!(
        messages(&diagnostics),
        vec![
            "Invalid array bounds: lower bound must be less than or equal to upper bound",
            "Invalid array bounds: lower bound must be less than or equal to upper bound"
        ]
    );
    assert!(matches!(&diagnostics[0].kind, SemanticErrorKind::InvalidArrayBounds));
    let atab = &analyzer.symbol_table.atab;
    assert_eq!(atab.len(), 6);
    assert_eq!((atab[0].low_bound, atab[0].high_bound, atab[0].total_size), (1, 10, 10));
    assert!(matches!(atab[0].element_type, DataType::Integer));
    assert!(matches!(atab[0].index_type, DataType::Integer));
    assert_eq!(atab[0].element_size, 1);
    assert_eq!((atab[1].low_bound, atab[1].high_bound, atab[1].total_size), (5, 1, 0));
    assert_eq!((atab[2].low_bound, atab[2].high_bound, atab[2].total_size), (0, 3, 4));
    assert!(matches!(atab[2].element_type, DataType::Char));
    assert_eq!((atab[3].low_bound, atab[3].high_bound, atab[3].total_size), (-2, 2, 5));
    assert!(matches!(atab[3].element_type, DataType::Array(2)));
    assert_eq!((atab[4].low_bound, atab[4].high_bound, atab[4].total_size), (1, 0, 0));
    assert_eq!((atab[5].low_bound, atab[5].high_bound, atab[5].total_size), (0, 0, 1));
    assert!(matches!(atab[5].element_type, DataType::Array(0)));
    let declarations = declarations_of(&ast);
    assert!(matches!(
        &declarations[1],
        AstNode::TypeDecl { name, type_def: DataType::Array(0), tab_index: 35 } if name == "v"
    ));
    assert!(matches!(&declarations[3], AstNode::TypeDecl { type_def: DataType::Array(3), .. }));
    assert!(matches!(&declarations[5], AstNode::VarDecl { data_type: DataType::Array(0), .. }));
    assert!(matches!(&declarations[6], AstNode::VarDecl { data_type: DataType::Array(5), .. }));
}

#[test]
fn named_types() {
    let (ast, diagnostics, _) = analyze(
        "program P; tipe t = integer; variabel a: t; b: warna; c: boolean; d: char; e: rekaman x: integer selesai; \
         mulai selesai.",
    );
    assert!(diagnostics.is_empty());
    let declarations = declarations_of(&ast);
    assert!(matches!(&declarations[0], AstNode::TypeDecl { type_def: DataType::Integer, .. }));
    assert!(matches!(&declarations[1], AstNode::VarDecl { data_type: DataType::Integer, .. }));
    assert!(matches!(
        &declarations[2],
        AstNode::VarDecl { data_type: DataType::UserDefined(name), .. } if name == "warna"
    ));
    assert!(matches!(&declarations[3], AstNode::VarDecl { data_type: DataType::Boolean, .. }));
    assert!(matches!(&declarations[4], AstNode::VarDecl { data_type: DataType::Char, .. }));
    assert!(matches!(&declarations[5], AstNode::VarDecl { data_type: DataType::Unknown, .. }));
}

#[test]
fn calls_and_statements_that_give_no_node() {
    let (ast, diagnostics, _) = analyze(
        "program P; variabel x: integer; mulai \
         write(x, 1 + 2, 'a'); \
         hilang(x); \
         ulangi x := x + 1 sampai x > 3; \
         mulai x := 0 selesai; \
         ; \
         x \
         selesai.",
    );
    assert_eq!(messages(&diagnostics), vec!["Undeclared identifier 'hilang'"]);
    let statements = body_of(&ast);
    assert_eq!(statements.len(), 3);
    assert!(matches!(
        &statements[0],
        AstNode::ProcCall { name, args, tab_index: 30 } if name == "write" && args.len() == 3
    ));
    assert!(matches!(&statements[1], AstNode::Block { statements } if statements.len() == 1));
    assert!(matches!(&statements[2], AstNode::ProcCall { tab_index: 34, .. }));
}

#[test]
fn diagnostics_pile_up_over_calls() {
    let (tokens, _) = lex("program P; mulai a := 1 selesai.");
    let tree = Parser::new(tokens).parse().unwrap();
    let mut analyzer = SemanticAnalyzer::new();
    let (_, first) = analyzer.analyze(&tree);
    assert_eq!(messages(&first), vec!["Undeclared identifier 'a'"]);
    let (_, second) = analyzer.analyze(&tree);
    assert_eq!(messages(&second), vec!["Undeclared identifier 'a'", "Undeclared identifier 'a'"]);
    assert_eq!(analyzer.errors.len(), 2);
    assert_eq!(analyzer.symbol_table.tab.len(), 35);
}

#[test]
fn a_tree_that_is_no_program_gives_no_node() {
    let mut analyzer = SemanticAnalyzer::new();
    let (ast, diagnostics) = analyzer.analyze(&ParseNode::new(NodeType::Term));
    assert!(matches!(ast, AstNode::Empty));
    assert!(diagnostics.is_empty());
    assert_eq!(analyzer.symbol_table.tab.len(), 33);
    let mut broken = ParseNode::new(NodeType::Program);
    broken.add(ParseNode::new(NodeType::ProgramHeader));
    broken.add(ParseNode::new(NodeType::Factor));
    broken.add(ParseNode::new_terminal(Token { token_type: TokenType::Dot, value: ".".to_string() }));
    let (ast, diagnostics) = analyzer.analyze(&broken);
    assert!(diagnostics.is_empty());
    match ast {
        AstNode::Program { name, declarations, body, tab_index } => {
            assert_eq!(name, "Unknown");
            assert!(declarations.is_empty());
            assert!(matches!(*body, AstNode::Empty));
            assert_eq!(tab_index, Some(33));
        },
        other => panic!("{:?}", other),
    }
}

#[test]
fn the_helpers_of_the_analyzer() {
    let (tokens, _) = lex("program Utama; variabel a, b, c: larik[2..4] dari real; mulai selesai.");
    let tree = Parser::new(tokens).parse().unwrap();
    let mut analyzer = SemanticAnalyzer::new();
    assert_eq!(analyzer.get_program_name(&tree.children[0]), "Utama");
    let group = &tree.children[1].children[0];
    assert_eq!(analyzer.get_identifier_list(&group.children[1]), vec!["a", "b", "c"]);
    let data_type = analyzer.get_type(&group.children[3]);
    assert!(matches!(data_type, DataType::Array(0)));
    let range = &group.children[3].children[0].children[2];
    assert_eq!(analyzer.get_range(range), (2, 4));
    assert_eq!(analyzer.symbol_table.atab.len(), 1);
    let literal = AstNode::Literal { value: LiteralValue::Integer(12), data_type: DataType::Integer };
    assert_eq!(analyzer.get_literal_int(&literal), Some(12));
    let negative = AstNode::UnaryOp {
        op: "-".to_string(),
        operand: Box::new(literal),
        data_type: DataType::Integer,
    };
    assert_eq!(analyzer.get_literal_int(&negative), Some(-12));
    assert!(matches!(analyzer.get_expr_type(&negative), DataType::Integer));
    let big = AstNode::Literal { value: LiteralValue::Integer(1 << 40), data_type: DataType::Integer };
    assert_eq!(analyzer.get_literal_int(&big), None);
    let call = AstNode::ProcCall { name: "string".to_string(), args: Vec::new(), tab_index: 21 };
    assert!(matches!(analyzer.get_expr_type(&call), DataType::String));
    let nowhere = AstNode::ProcCall { name: "x".to_string(), args: Vec::new(), tab_index: 9999 };
    assert!(matches!(analyzer.get_expr_type(&nowhere), DataType::Unknown));
    assert!(matches!(analyzer.get_expr_type(&AstNode::Empty), DataType::Unknown));
    assert_eq!(analyzer.get_literal_int(&AstNode::Empty), None);
}

#[test]
fn parameters_in_several_groups() {
    let (ast, diagnostics, analyzer) = analyze(
        "program P; \
         prosedur p(x: integer; variabel y, z: real; w: larik[1..3] dari char); \
         mulai y := x; z := y selesai; \
         mulai p(1, 2, 3) selesai.",
    );
    assert!(diagnostics.is_empty(), "{:?}", messages(&diagnostics));
    let params = match &declarations_of(&ast)[0] {
        AstNode::ProcDecl { params, tab_index: 34, block_index: 1, .. } => params,
        other => panic!("{:?}", other),
    };
    assert_eq!(params.len(), 3);
    assert!(matches!(
        &params[0],
        AstNode::ParamDecl { names, data_type: DataType::Integer, is_var: false, tab_indices }
            if names == &vec!["x".to_string()] && tab_indices == &vec![35]
    ));
    assert!(matches!(
        &params[1],
        AstNode::ParamDecl { names, data_type: DataType::Real, is_var: false, tab_indices }
            if names == &vec!["y".to_string(), "z".to_string()] && tab_indices == &vec![36, 37]
    ));
    assert!(matches!(
        &params[2],
        AstNode::ParamDecl { data_type: DataType::Array(0), tab_indices, .. } if tab_indices == &vec![38]
    ));
    let table = &analyzer.symbol_table;
    assert_eq!(table.tab[38].name, "w");
    assert_eq!(table.tab[38].link, Some(37));
    assert_eq!(table.tab[35].link, None);
    assert_eq!(table.btab[1].last, 38);
    assert_eq!(table.atab.len(), 1);
    assert!(DataType::Array(0) == table.tab[38].data_type);
}

#[test]
fn earlier_diagnostics_and_records_stay_where_they_are() {
    let (tokens, _) = lex("program P; variabel x: integer; mulai x := y selesai.");
    let tree = Parser::new(tokens).parse().unwrap();
    let mut analyzer = SemanticAnalyzer::new();
    analyzer.report(SemanticError::redeclared("before".to_string(), None));
    let (_, diagnostics) = analyzer.analyze(&tree);
    assert_eq!(diagnostics[0].message, "Identifier 'before' is already declared in this scope");
    assert_eq!(diagnostics.len(), 3);
    assert_eq!(analyzer.symbol_table.tab[0].name, "dan");
    assert_eq!(analyzer.symbol_table.tab[32].name, "read");
    assert_eq!(analyzer.symbol_table.btab.len(), 2);
}

#[test]
fn subprograms_nest() {
    let (ast, diagnostics, analyzer) = analyze(
        "program P; variabel g: integer; \
         fungsi luar: integer; \
           variabel a: integer; \
           prosedur dalam; variabel b: integer; mulai b := a + g selesai; \
         mulai dalam; luar := a selesai; \
         mulai g := luar selesai.",
    );
    assert!(diagnostics.is_empty(), "{:?}", messages(&diagnostics));
    let outer = &declarations_of(&ast)[1];
    let (declarations, body) = match outer {
        AstNode::FuncDecl {
            name,
            params,
            return_type: DataType::Integer,
            declarations,
            body,
            tab_index: 35,
            block_index: 1,
        } => {
            assert_eq!(name, "luar");
            assert!(params.is_empty());
            (declarations, body)
        },
        other => panic!("{:?}", other),
    };
    assert!(matches!(&declarations[0], AstNode::VarDecl { level: 1, tab_indices, .. } if tab_indices == &vec![36]));
    match &declarations[1] {
        AstNode::ProcDecl { name, declarations, body, tab_index: 37, block_index: 2, .. } => {
            assert_eq!(name, "dalam");
            assert!(matches!(&declarations[0], AstNode::VarDecl { level: 2, tab_indices, .. } if tab_indices == &vec![38]));
            match &**body {
                AstNode::Block { statements } => match &statements[0] {
                    AstNode::Assign { target, value, .. } => {
                        assert!(matches!(&**target, AstNode::Var { tab_index: 38, level: 2, .. }));
                        match &**value {
                            AstNode::BinOp { left, right, data_type: DataType::Integer, .. } => {
                                assert!(matches!(&**left, AstNode::Var { tab_index: 36, level: 1, .. }));
                                assert!(matches!(&**right, AstNode::Var { tab_index: 34, level: 0, .. }));
                            },
                            other => panic!("{:?}", other),
                        }
                    },
                    other => panic!("{:?}", other),
                },
                other => panic!("{:?}", other),
            }
        },
        other => panic!("{:?}", other),
    }
    match &**body {
        AstNode::Block { statements } => {
            assert!(matches!(&statements[0], AstNode::ProcCall { tab_index: 37, .. }));
            assert!(matches!(&statements[1], AstNode::Assign { data_type: DataType::Integer, .. }));
        },
        other => panic!("{:?}", other),
    }
    match &body_of(&ast)[0] {
        AstNode::Assign { value, .. } => {
            assert!(matches!(&**value, AstNode::Var { tab_index: 35, data_type: DataType::Integer, .. }));
        },
        other => panic!("{:?}", other),
    }
    let table = &analyzer.symbol_table;
    assert_eq!(table.tab[37].level, 1);
    assert_eq!(table.tab[37].ref_index, Some(2));
    assert_eq!(table.tab[35].ref_index, Some(1));
    assert_eq!(table.btab.len(), 4);
    assert_eq!(table.lookup("a"), None);
    assert_eq!(table.lookup("dalam"), None);
    assert_eq!(table.lookup("luar"), Some(35));
}

fn check_indices(node: &AstNode, tab: usize, btab: usize) {
    let all = |nodes: &Vec<AstNode>| {
        for n in nodes {
            check_indices(n, tab, btab);
        }
    };
    match node {
        AstNode::Program { declarations, body, tab_index, .. } => {
            assert!(tab_index.map_or(true, |i| i < tab));
            all(declarations);
            check_indices(body, tab, btab);
        },
        AstNode::VarDecl { tab_indices, .. } | AstNode::ParamDecl { tab_indices, .. } => {
            assert!(tab_indices.iter().all(|i| *i < tab));
        },
        AstNode::ConstDecl { value, tab_index, .. } => {
            assert!(*tab_index < tab);
            check_indices(value, tab, btab);
        },
        AstNode::TypeDecl { tab_index, .. } | AstNode::Var { tab_index, .. } => {
            assert!(*tab_index < tab);
        },
        AstNode::ProcDecl { params, declarations, body, tab_index, block_index, .. }
        | AstNode::FuncDecl { params, declarations, body, tab_index, block_index, .. } => {
            assert!(*tab_index < tab);
            assert!(*block_index < btab);
            all(params);
            all(declarations);
            check_indices(body, tab, btab);
        },
        AstNode::Block { statements } => all(statements),
        AstNode::Assign { target, value, .. } => {
            check_indices(target, tab, btab);
            check_indices(value, tab, btab);
        },
        AstNode::If { condition, then_stmt, else_stmt } => {
            check_indices(condition, tab, btab);
            check_indices(then_stmt, tab, btab);
            if let Some(stmt) = else_stmt {
                check_indices(stmt, tab, btab);
            }
        },
        AstNode::While { condition, body } => {
            check_indices(condition, tab, btab);
            check_indices(body, tab, btab);
        },
        AstNode::For { start, end, body, tab_index, .. } => {
            assert!(*tab_index < tab);
            check_indices(start, tab, btab);
            check_indices(end, tab, btab);
            check_indices(body, tab, btab);
        },
        AstNode::ProcCall { args, tab_index, .. } => {
            assert!(*tab_index < tab);
            all(args);
        },
        AstNode::BinOp { left, right, .. } => {
            check_indices(left, tab, btab);
            check_indices(right, tab, btab);
        },
        AstNode::UnaryOp { operand, .. } => check_indices(operand, tab, btab),
        AstNode::Literal { .. } | AstNode::Empty => {},
    }
}

#[test]
fn every_index_in_the_tree_is_in_the_table() {
    let (ast, _, analyzer) = analyze(
        "program P; konstanta n = 3; tipe t = larik[1..n] dari integer; variabel x, y: integer; \
         fungsi f(a: integer; variabel b: real): integer; variabel k: integer; \
           prosedur q; mulai k := a selesai; \
         mulai untuk k := 1 ke a lakukan jika k < n maka q selain_itu f := k selesai; \
         mulai x := f(y, 2.5) + z; selama x > 0 lakukan x := x - 1; writeln(x) selesai.",
    );
    let table = &analyzer.symbol_table;
    check_indices(&ast, table.tab.len(), table.btab.len());
    assert!(table.tab.len() > 40);
}

#[test]
fn the_sign_of_a_bound_is_applied_before_its_size_is_tested() {
    let (_, diagnostics, analyzer) = analyze(
        "program P; tipe a = larik[-2147483648..2147483647] dari integer; \
         b = larik[-(2147483648)..+5] dari integer; \
         c = larik[2147483648..5] dari integer; \
         d = larik[-2147483649..5] dari integer; \
         e = larik[-(-3)..-(-(-(2)))] dari integer; \
         mulai selesai.",
    );
    assert_eq!(
        messages(&diagnostics),
        vec!["Invalid array bounds: lower bound must be less than or equal to upper bound"]
    );
    let atab = &analyzer.symbol_table.atab;
    assert_eq!((atab[0].low_bound, atab[0].high_bound), (i32::MIN, i32::MAX));
    assert_eq!((atab[1].low_bound, atab[1].high_bound), (i32::MIN, 5));
    assert_eq!((atab[2].low_bound, atab[2].high_bound), (0, 5));
    assert_eq!((atab[3].low_bound, atab[3].high_bound), (0, 5));
    assert_eq!((atab[4].low_bound, atab[4].high_bound), (3, -2));
    let least = AstNode::UnaryOp {
        op: "-".to_string(),
        operand: Box::new(AstNode::Literal {
            value: LiteralValue::Integer(2147483648),
            data_type: DataType::Integer,
        }),
        data_type: DataType::Integer,
    };
    assert_eq!(analyzer.get_literal_int(&least), Some(i32::MIN));
    assert_eq!(SemanticAnalyzer::literal_value(&least), Some(-2147483648));
    let far = AstNode::UnaryOp {
        op: "-".to_string(),
        operand: Box::new(AstNode::Literal {
            value: LiteralValue::Integer(i64::MIN),
            data_type: DataType::Integer,
        }),
        data_type: DataType::Integer,
    };
    assert_eq!(SemanticAnalyzer::literal_value(&far), Some(9223372036854775808));
    assert_eq!(analyzer.get_literal_int(&far), None);
}
