use turbo_bear::ast::ast::{
    BinaryOp, Block, Decl, DeclKind, Expr, ExprKind, Ident, Lit, LitKind, Program, Stmt, StmtKind,
    TopLevelDecl, TopLevelDeclKind, Ty,
};
use turbo_bear::ast::location::Location;
use turbo_bear::parser::context::ParsingCtx;
use turbo_bear::parser::error::{
    errors_from, ErrorVariant, GrammarError, InputLocation, ParsingError, ParsingErrorKind,
    ParsingErrorLocation,
};
use turbo_bear::parser::grammar::{Pair, Rule};
use turbo_bear::parser::program::{parse, parse_program, parse_top_level_decl};
use turbo_bear::parser::shape::{
    check_block, check_function, check_program, check_spans, check_statement,
};
use turbo_bear::parser::stmt::{parse_block, parse_stmt};

/// The token of `rule` that reads `text` at `start` in `source`.
fn token(source: &str, rule: Rule, start: usize, text: &str) -> Pair {
    assert_eq!(&source[start..start + text.len()], text);
    Pair::new(rule, start, start + text.len(), text, Vec::new())
}

/// The node of `rule` over `source[start..end]`.
fn node(source: &str, rule: Rule, start: usize, end: usize, inner: Vec<Pair>) -> Pair {
    Pair::new(rule, start, end, &source[start..end], inner)
}

/// The node of `rule` that spans exactly its inner nodes.
fn around(source: &str, rule: Rule, inner: Vec<Pair>) -> Pair {
    let start = inner[0].location.start;
    let end = inner[inner.len() - 1].location.end;
    node(source, rule, start, end, inner)
}

/// A leaf or an infix node as the expression that the grammar wraps it in.
fn expression(source: &str, inner: Pair) -> Pair {
    let logical = match inner.rule {
        Rule::Logical => inner,
        Rule::Binary => around(source, Rule::Logical, vec![inner]),
        _ => {
            let call = around(source, Rule::Call, vec![inner]);
            let unary = around(source, Rule::Unary, vec![call]);
            let binary = around(source, Rule::Binary, vec![unary]);
            around(source, Rule::Logical, vec![binary])
        }
    };
    around(source, Rule::Expression, vec![logical])
}

fn operand(source: &str, rule: Rule, start: usize, text: &str) -> Pair {
    let call = around(source, Rule::Call, vec![token(source, rule, start, text)]);
    around(source, Rule::Unary, vec![call])
}

fn integer(value: u64, start: usize, end: usize) -> Expr {
    let location = Location::new(start, end);
    Expr { kind: ExprKind::Lit(Lit { kind: LitKind::Int(value), location }), location }
}

fn name(name: &str, start: usize) -> Expr {
    let location = Location::new(start, start + name.len());
    Expr { kind: ExprKind::Ident(ident(name, start)), location }
}

fn ident(name: &str, start: usize) -> Ident {
    Ident { name: name.to_owned(), location: Location::new(start, start + name.len()) }
}

fn ty(name: &str, start: usize) -> Ty {
    Ty { name: name.to_owned(), location: Location::new(start, start + name.len()) }
}

fn reserved(word: &str, start: usize) -> ParsingError {
    ParsingError {
        kind: ParsingErrorKind::ReservedKeyword(word.to_owned()),
        location: ParsingErrorLocation::Span((start, start + word.len())),
    }
}

fn var_decl(start: usize, end: usize, name: Ident, ty: Option<Ty>, init: Option<Expr>) -> Stmt {
    let location = Location::new(start, end);
    Stmt {
        kind: StmtKind::Decl(Decl { kind: DeclKind::Var(name, ty, init), location }),
        location,
    }
}

#[test]
fn variable_declaration_with_type_and_initializer() {
    let source = "let x: int = 1;";
    let pair = node(
        source,
        Rule::VariableDeclaration,
        0,
        15,
        vec![
            token(source, Rule::Identifier, 4, "x"),
            token(source, Rule::Ty, 7, "int"),
            expression(source, token(source, Rule::Integer, 13, "1")),
        ],
    );
    assert!(check_statement(&pair));
    assert_eq!(
        parse_stmt(&pair),
        Ok(var_decl(0, 15, ident("x", 4), Some(ty("int", 7)), Some(integer(1, 13, 14))))
    );
}

#[test]
fn variable_declaration_with_type_only() {
    let source = "let x: int;";
    let pair = node(
        source,
        Rule::VariableDeclaration,
        0,
        11,
        vec![token(source, Rule::Identifier, 4, "x"), token(source, Rule::Ty, 7, "int")],
    );
    assert!(check_statement(&pair));
    assert_eq!(parse_stmt(&pair), Ok(var_decl(0, 11, ident("x", 4), Some(ty("int", 7)), None)));
}

#[test]
fn variable_declaration_with_initializer_only() {
    let source = "let x = y;";
    let pair = node(
        source,
        Rule::VariableDeclaration,
        0,
        10,
        vec![
            token(source, Rule::Identifier, 4, "x"),
            expression(source, token(source, Rule::Identifier, 8, "y")),
        ],
    );
    assert!(check_statement(&pair));
    assert_eq!(parse_stmt(&pair), Ok(var_decl(0, 10, ident("x", 4), None, Some(name("y", 8)))));
}

#[test]
fn variable_declaration_with_name_only() {
    let source = "let x;";
    let pair =
        node(source, Rule::VariableDeclaration, 0, 6, vec![token(source, Rule::Identifier, 4, "x")]);
    assert!(check_statement(&pair));
    assert_eq!(parse_stmt(&pair), Ok(var_decl(0, 6, ident("x", 4), None, None)));
}

#[test]
fn variable_declaration_fails_on_its_first_failing_part() {
    let source = "let let: if = fn;";
    let pair = node(
        source,
        Rule::VariableDeclaration,
        0,
        17,
        vec![
            token(source, Rule::Identifier, 4, "let"),
            token(source, Rule::Ty, 9, "if"),
            expression(source, token(source, Rule::Identifier, 14, "fn")),
        ],
    );
    assert_eq!(parse_stmt(&pair), Err(vec![reserved("let", 4)]));

    let source = "let a: if = fn;";
    let pair = node(
        source,
        Rule::VariableDeclaration,
        0,
        15,
        vec![
            token(source, Rule::Identifier, 4, "a"),
            token(source, Rule::Ty, 7, "if"),
            expression(source, token(source, Rule::Identifier, 12, "fn")),
        ],
    );
    assert_eq!(parse_stmt(&pair), Err(vec![reserved("if", 7)]));

    let source = "let a: b = fn;";
    let pair = node(
        source,
        Rule::VariableDeclaration,
        0,
        14,
        vec![
            token(source, Rule::Identifier, 4, "a"),
            token(source, Rule::Ty, 7, "b"),
            expression(source, token(source, Rule::Identifier, 11, "fn")),
        ],
    );
    assert_eq!(parse_stmt(&pair), Err(vec![reserved("fn", 11)]));
}

#[test]
fn bare_return() {
    let source = "return;";
    let pair = node(source, Rule::ReturnStatement, 0, 7, Vec::new());
    assert!(check_statement(&pair));
    assert_eq!(
        parse_stmt(&pair),
        Ok(Stmt { kind: StmtKind::Ret(None), location: Location::new(0, 7) })
    );
}

#[test]
fn return_of_a_value() {
    let source = "return a + 1;";
    let sum = around(
        source,
        Rule::Binary,
        vec![
            operand(source, Rule::Identifier, 7, "a"),
            token(source, Rule::Plus, 9, "+"),
            operand(source, Rule::Integer, 11, "1"),
        ],
    );
    let pair = node(source, Rule::ReturnStatement, 0, 13, vec![expression(source, sum)]);
    assert!(check_statement(&pair));
    let location = Location::new(7, 12);
    let value = Expr {
        kind: ExprKind::Binary(
            BinaryOp::Add,
            Box::new(name("a", 7)),
            Box::new(integer(1, 11, 12)),
        ),
        location,
    };
    assert_eq!(
        parse_stmt(&pair),
        Ok(Stmt { kind: StmtKind::Ret(Some(value)), location: Location::new(0, 13) })
    );
}

#[test]
fn expression_statement() {
    let source = "x;";
    let pair = node(
        source,
        Rule::ExpressionStatement,
        0,
        2,
        vec![expression(source, token(source, Rule::Identifier, 0, "x"))],
    );
    assert!(check_statement(&pair));
    assert_eq!(
        parse_stmt(&pair),
        Ok(Stmt { kind: StmtKind::Expr(name("x", 0)), location: Location::new(0, 2) })
    );
    let source = "if;";
    let pair = node(
        source,
        Rule::ExpressionStatement,
        0,
        3,
        vec![expression(source, token(source, Rule::Identifier, 0, "if"))],
    );
    assert_eq!(parse_stmt(&pair), Err(vec![reserved("if", 0)]));
}

#[test]
fn empty_block() {
    let source = "{}";
    let pair = node(source, Rule::Block, 0, 2, Vec::new());
    assert!(check_block(&pair));
    assert_eq!(parse_block(&pair), Ok(Block { stmts: Vec::new(), location: Location::new(0, 2) }));
    assert_eq!(
        parse_stmt(&pair),
        Ok(Stmt {
            kind: StmtKind::Block(Block { stmts: Vec::new(), location: Location::new(0, 2) }),
            location: Location::new(0, 2),
        })
    );
}

fn declaration(source: &str, start: usize, end: usize, name_at: usize, name: &str) -> Pair {
    node(
        source,
        Rule::VariableDeclaration,
        start,
        end,
        vec![token(source, Rule::Identifier, name_at, name)],
    )
}

#[test]
fn block_keeps_its_statements_in_order() {
    let source = "{ let a; let b; return; }";
    let pair = node(
        source,
        Rule::Block,
        0,
        25,
        vec![
            declaration(source, 2, 8, 6, "a"),
            declaration(source, 9, 15, 13, "b"),
            node(source, Rule::ReturnStatement, 16, 23, Vec::new()),
        ],
    );
    assert!(check_block(&pair));
    assert_eq!(
        parse_block(&pair),
        Ok(Block {
            stmts: vec![
                var_decl(2, 8, ident("a", 6), None, None),
                var_decl(9, 15, ident("b", 13), None, None),
                Stmt { kind: StmtKind::Ret(None), location: Location::new(16, 23) },
            ],
            location: Location::new(0, 25),
        })
    );
}

#[test]
fn block_reports_the_errors_of_all_its_statements() {
    let source = "{ let let = 1; let if = 2; }";
    let pair = node(
        source,
        Rule::Block,
        0,
        28,
        vec![
            node(
                source,
                Rule::VariableDeclaration,
                2,
                14,
                vec![
                    token(source, Rule::Identifier, 6, "let"),
                    expression(source, token(source, Rule::Integer, 12, "1")),
                ],
            ),
            node(
                source,
                Rule::VariableDeclaration,
                15,
                26,
                vec![
                    token(source, Rule::Identifier, 19, "if"),
                    expression(source, token(source, Rule::Integer, 24, "2")),
                ],
            ),
        ],
    );
    assert!(check_block(&pair));
    assert_eq!(parse_block(&pair), Err(vec![reserved("let", 6), reserved("if", 19)]));
    assert_eq!(parse_stmt(&pair), Err(vec![reserved("let", 6), reserved("if", 19)]));
}

#[test]
fn block_goes_on_after_a_failure() {
    let source = "{ let a; let fn; let b; let class; { let true; } }";
    let pair = node(
        source,
        Rule::Block,
        0,
        50,
        vec![
            declaration(source, 2, 8, 6, "a"),
            declaration(source, 9, 16, 13, "fn"),
            declaration(source, 17, 23, 21, "b"),
            declaration(source, 24, 34, 28, "class"),
            node(source, Rule::Block, 35, 48, vec![declaration(source, 37, 46, 41, "true")]),
        ],
    );
    assert!(check_block(&pair));
    assert_eq!(
        parse_block(&pair),
        Err(vec![reserved("fn", 13), reserved("class", 28), reserved("true", 41)])
    );
}

#[test]
fn nested_blocks() {
    let source = "{ { let a; } }";
    let pair = node(
        source,
        Rule::Block,
        0,
        14,
        vec![node(source, Rule::Block, 2, 12, vec![declaration(source, 4, 10, 8, "a")])],
    );
    assert_eq!(
        parse_block(&pair),
        Ok(Block {
            stmts: vec![Stmt {
                kind: StmtKind::Block(Block {
                    stmts: vec![var_decl(4, 10, ident("a", 8), None, None)],
                    location: Location::new(2, 12),
                }),
                location: Location::new(2, 12),
            }],
            location: Location::new(0, 14),
        })
    );
}

fn function(source: &str, start: usize, end: usize, inner: Vec<Pair>) -> Pair {
    node(source, Rule::FunctionDeclaration, start, end, inner)
}

const ADD: &str = "fn add(a: int, b: int): int { return a; }";

fn add_function(name: &str, first: &str, second_ty: &str, return_ty: &str, returned: &str) -> (String, Pair) {
    let source = format!(
        "fn {}({}: int, b: {}): {} {{ return {}; }}",
        name, first, second_ty, return_ty, returned
    );
    let s = source.as_str();
    let name_at = 3;
    let first_at = name_at + name.len() + 1;
    let first_ty_at = first_at + first.len() + 2;
    let second_at = first_ty_at + 5;
    let second_ty_at = second_at + 3;
    let params_end = second_ty_at + second_ty.len();
    let return_ty_at = params_end + 3;
    let block_at = return_ty_at + return_ty.len() + 1;
    let return_at = block_at + 2;
    let returned_at = return_at + 7;
    let return_end = returned_at + returned.len() + 1;
    let end = return_end + 2;
    assert_eq!(end, source.len());
    let pair = function(
        s,
        0,
        end,
        vec![
            token(s, Rule::Identifier, name_at, name),
            node(
                s,
                Rule::FunctionParams,
                first_at,
                params_end,
                vec![
                    token(s, Rule::Identifier, first_at, first),
                    token(s, Rule::Ty, first_ty_at, "int"),
                    token(s, Rule::Identifier, second_at, "b"),
                    token(s, Rule::Ty, second_ty_at, second_ty),
                ],
            ),
            token(s, Rule::Ty, return_ty_at, return_ty),
            node(
                s,
                Rule::Block,
                block_at,
                end,
                vec![node(
                    s,
                    Rule::ReturnStatement,
                    return_at,
                    return_end,
                    vec![expression(s, token(s, Rule::Identifier, returned_at, returned))],
                )],
            ),
        ],
    );
    (source, pair)
}

fn add_decl() -> TopLevelDecl {
    TopLevelDecl {
        kind: TopLevelDeclKind::Fn(
            ident("add", 3),
            vec![(ident("a", 7), ty("int", 10)), (ident("b", 15), ty("int", 18))],
            ty("int", 24),
            Block {
                stmts: vec![Stmt {
                    kind: StmtKind::Ret(Some(name("a", 37))),
                    location: Location::new(30, 39),
                }],
                location: Location::new(28, 41),
            },
        ),
        location: Location::new(0, 41),
    }
}

#[test]
fn function_declaration() {
    let (source, pair) = add_function("add", "a", "int", "int", "a");
    assert_eq!(source, ADD);
    assert!(check_function(&pair));
    assert_eq!(parse_top_level_decl(&pair), Ok(add_decl()));
}

#[test]
fn function_without_parameters() {
    let source = "fn f(): int {}";
    let pair = function(
        source,
        0,
        14,
        vec![
            token(source, Rule::Identifier, 3, "f"),
            node(source, Rule::FunctionParams, 5, 5, Vec::new()),
            token(source, Rule::Ty, 8, "int"),
            node(source, Rule::Block, 12, 14, Vec::new()),
        ],
    );
    assert!(check_function(&pair));
    assert_eq!(
        parse_top_level_decl(&pair),
        Ok(TopLevelDecl {
            kind: TopLevelDeclKind::Fn(
                ident("f", 3),
                Vec::new(),
                ty("int", 8),
                Block { stmts: Vec::new(), location: Location::new(12, 14) },
            ),
            location: Location::new(0, 14),
        })
    );
}

#[test]
fn function_fails_on_the_first_failing_part_of_its_signature() {
    let (_, pair) = add_function("fn", "if", "let", "else", "class");
    assert_eq!(parse_top_level_decl(&pair), Err(vec![reserved("fn", 3)]));
    let (_, pair) = add_function("f", "if", "let", "else", "class");
    assert_eq!(parse_top_level_decl(&pair), Err(vec![reserved("if", 5)]));
    let (_, pair) = add_function("f", "a", "let", "else", "class");
    assert_eq!(parse_top_level_decl(&pair), Err(vec![reserved("let", 16)]));
    let (_, pair) = add_function("f", "a", "int", "else", "class");
    assert_eq!(parse_top_level_decl(&pair), Err(vec![reserved("else", 22)]));
    let (_, pair) = add_function("f", "a", "int", "int", "class");
    assert_eq!(parse_top_level_decl(&pair), Err(vec![reserved("class", 35)]));
}

fn shifted(pair: &Pair, by: usize) -> Pair {
    Pair {
        rule: pair.rule,
        location: Location::new(pair.location.start + by, pair.location.end + by),
        text: pair.text.clone(),
        float_bits: pair.float_bits,
        inner: pair.inner.iter().map(|inner| shifted(inner, by)).collect(),
    }
}

fn program(end: usize, functions: Vec<Pair>) -> Pair {
    let mut inner = functions;
    inner.push(Pair::new(Rule::EndOfInput, end, end, "", Vec::new()));
    Pair::new(Rule::Program, 0, end, "", inner)
}

#[test]
fn empty_program() {
    let pair = program(0, Vec::new());
    assert!(check_program(&pair));
    assert_eq!(
        parse_program(&pair),
        Ok(Program { decls: Vec::new(), location: Location::new(0, 0) })
    );
}

#[test]
fn program_without_functions_ends_where_the_source_ends() {
    let pair = program(12, Vec::new());
    assert_eq!(
        parse_program(&pair),
        Ok(Program { decls: Vec::new(), location: Location::new(0, 12) })
    );
}

#[test]
fn program_of_one_function() {
    let (_, function) = add_function("add", "a", "int", "int", "a");
    let pair = program(42, vec![function]);
    assert!(check_program(&pair));
    assert_eq!(
        parse_program(&pair),
        Ok(Program { decls: vec![add_decl()], location: Location::new(0, 42) })
    );
}

#[test]
fn program_reports_the_errors_of_all_its_functions() {
    let (_, first) = add_function("fn", "a", "int", "int", "a");
    let (_, second) = add_function("add", "a", "int", "int", "a");
    let (_, third) = add_function("sub", "a", "int", "int", "if");
    let (_, fourth) = add_function("mul", "a", "let", "class", "a");
    let pair = program(
        200,
        vec![first, shifted(&second, 50), shifted(&third, 100), shifted(&fourth, 150)],
    );
    assert!(check_program(&pair));
    assert_eq!(
        parse_program(&pair),
        Err(vec![reserved("fn", 3), reserved("if", 137), reserved("let", 168)])
    );
}

#[test]
fn parsing_a_program_twice_gives_equal_programs() {
    let (_, first) = add_function("add", "a", "int", "int", "a");
    let (_, second) = add_function("sub", "b", "int", "int", "b");
    let pair = program(100, vec![first, shifted(&second, 50)]);
    let once = parse_program(&pair);
    let twice = parse_program(&pair);
    assert!(once.is_ok());
    assert_eq!(once, twice);
}

#[test]
fn parse_of_a_tree_is_its_program() {
    let (_, function) = add_function("add", "a", "int", "int", "a");
    assert_eq!(
        parse(Ok(program(42, vec![function]))),
        Ok(Program { decls: vec![add_decl()], location: Location::new(0, 42) })
    );
}

#[test]
fn parse_of_a_grammar_failure_is_its_one_error() {
    let failure = GrammarError {
        variant: ErrorVariant::ParsingError {
            positives: vec![Rule::FunctionDeclaration, Rule::EndOfInput],
            negatives: vec![Rule::Whitespace],
        },
        location: InputLocation::Pos(7),
    };
    assert_eq!(
        parse(Err(failure)),
        Err(vec![ParsingError {
            kind: ParsingErrorKind::Grammar(
                "Expected function declaration, end of file, whitespace character.".to_owned()
            ),
            location: ParsingErrorLocation::Position(7),
        }])
    );
}

#[test]
fn shapes_that_are_no_statement() {
    let source = "let x: int = 1;";
    let name = || token(source, Rule::Identifier, 4, "x");
    let ty = || token(source, Rule::Ty, 7, "int");
    let init = || expression(source, token(source, Rule::Integer, 13, "1"));
    let decl = |inner| node(source, Rule::VariableDeclaration, 0, 15, inner);
    assert!(check_statement(&decl(vec![name(), ty(), init()])));
    assert!(!check_statement(&decl(vec![])));
    assert!(!check_statement(&decl(vec![ty()])));
    assert!(!check_statement(&decl(vec![name(), init(), ty()])));
    assert!(!check_statement(&decl(vec![name(), ty(), ty()])));
    assert!(!check_statement(&decl(vec![name(), name()])));
    assert!(!check_statement(&decl(vec![name(), ty(), init(), init()])));
    assert!(!check_statement(&decl(vec![name(), token(source, Rule::Integer, 13, "1")])));
    assert!(!check_statement(&name()));
    assert!(!check_statement(&node(source, Rule::ReturnStatement, 0, 15, vec![init(), init()])));
    assert!(!check_statement(&node(source, Rule::ExpressionStatement, 0, 15, vec![])));
    assert!(!check_statement(&node(source, Rule::Block, 0, 15, vec![name()])));
    assert!(!check_block(&decl(vec![name()])));
}

#[test]
fn shapes_that_are_no_program() {
    let (_, function) = add_function("add", "a", "int", "int", "a");
    assert!(check_function(&function));
    let end = || Pair::new(Rule::EndOfInput, 42, 42, "", Vec::new());
    let root = |inner| Pair::new(Rule::Program, 0, 42, "", inner);
    assert!(check_program(&root(vec![end()])));
    assert!(!check_program(&root(vec![])));
    assert!(!check_program(&root(vec![shifted(&function, 0)])));
    assert!(!check_program(&root(vec![end(), shifted(&function, 0)])));
    assert!(!check_program(&root(vec![end(), end()])));
    assert!(!check_program(&Pair::new(Rule::Block, 0, 42, "", vec![end()])));
    let mut broken = shifted(&function, 0);
    broken.inner.pop();
    assert!(!check_function(&broken));
    let mut odd = shifted(&function, 0);
    odd.inner[1].inner.pop();
    assert!(!check_function(&odd));
    assert!(!check_program(&root(vec![odd, end()])));
}

#[test]
fn context_collects_errors_in_order() {
    let mut ctx = ParsingCtx::new();
    assert!(!ctx.is_failed());
    assert!(ctx.errors.is_empty());
    ctx.record(Vec::new());
    assert!(!ctx.is_failed());
    ctx.record(errors_from(reserved("let", 0)));
    assert!(ctx.is_failed());
    ctx.record(vec![reserved("if", 4), reserved("fn", 8)]);
    assert!(ctx.is_failed());
    assert_eq!(
        ctx.into_errors(),
        vec![reserved("let", 0), reserved("if", 4), reserved("fn", 8)]
    );
}

#[test]
fn list_of_one_error() {
    assert_eq!(errors_from(reserved("let", 3)), vec![reserved("let", 3)]);
}

#[test]
fn spans_nest_and_stand_in_order() {
    let leaf = |start, end| Pair::new(Rule::Identifier, start, end, "", Vec::new());
    let node = |start, end, inner| Pair::new(Rule::Block, start, end, "", inner);
    assert!(check_spans(&leaf(3, 3)));
    assert!(check_spans(&leaf(3, 8)));
    assert!(!check_spans(&leaf(8, 3)));
    assert!(check_spans(&node(0, 10, vec![leaf(0, 4), leaf(4, 4), leaf(4, 10)])));
    assert!(check_spans(&node(0, 10, vec![node(1, 9, vec![leaf(2, 3), leaf(5, 8)])])));
    assert!(!check_spans(&node(0, 10, vec![leaf(0, 5), leaf(4, 10)])));
    assert!(!check_spans(&node(0, 10, vec![leaf(5, 6), leaf(1, 2)])));
    assert!(!check_spans(&node(2, 10, vec![leaf(1, 3)])));
    assert!(!check_spans(&node(2, 10, vec![leaf(9, 11)])));
    assert!(!check_spans(&node(0, 10, vec![leaf(1, 2), leaf(6, 5)])));
    assert!(!check_spans(&node(0, 10, vec![node(1, 9, vec![leaf(0, 3)])])));
    let (_, function) = add_function("add", "a", "int", "int", "a");
    assert!(check_spans(&program(42, vec![function])));
}
