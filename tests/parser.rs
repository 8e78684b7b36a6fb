use vyl::ast::ASTNode;
use vyl::grammar::ParseErrorKind;
use vyl::lexer::{Lexer, Token, TokenType};
use vyl::parser::{ParseError, Parser};

fn parse_source(source: &str) -> Result<ASTNode, ParseError> {
    let mut lexer = Lexer::new(source);
    let tokens = lexer.tokenize().unwrap();
    let mut parser = Parser::new(tokens);
    parser.parse()
}

fn statements(source: &str) -> Vec<ASTNode> {
    match parse_source(source).unwrap() {
        ASTNode::Program(stmts) => stmts,
        other => panic!("not a program: {:?}", other),
    }
}

fn expression_of(source: &str) -> ASTNode {
    let mut stmts = statements(&format!("Int/v/={}", source));
    assert_eq!(stmts.len(), 1);
    match stmts.remove(0) {
        ASTNode::VariableDeclaration { value, .. } => *value,
        other => panic!("not a declaration: {:?}", other),
    }
}

fn s(text: &str) -> String {
    text.to_string()
}

fn lit(text: &str) -> Box<ASTNode> {
    Box::new(ASTNode::Literal(s(text)))
}

fn ident(text: &str) -> Box<ASTNode> {
    Box::new(ASTNode::Identifier(s(text)))
}

fn binary(left: Box<ASTNode>, op: &str, right: Box<ASTNode>) -> Box<ASTNode> {
    Box::new(ASTNode::BinaryExpression { left, operator: s(op), right })
}

fn token(kind: TokenType, text: &str) -> Token {
    Token { token_type: kind, lexeme: s(text), line: 1 }
}

#[test]
fn multiplication_binds_tighter_than_addition() {
    assert_eq!(expression_of("1 + 2 * 3;"), *binary(lit("1"), "+", binary(lit("2"), "*", lit("3"))));
}

#[test]
fn operators_of_one_level_fold_left() {
    assert_eq!(expression_of("1 - 2 - 3;"), *binary(binary(lit("1"), "-", lit("2")), "-", lit("3")));
    assert_eq!(expression_of("8 / 4 * 2;"), *binary(binary(lit("8"), "/", lit("4")), "*", lit("2")));
}

#[test]
fn precedence_ladder() {
    let expected = binary(
        ident("a"),
        "|",
        binary(
            ident("b"),
            "&",
            binary(binary(ident("c"), "<", binary(ident("d"), "+", ident("e"))), "==", ident("f")),
        ),
    );
    assert_eq!(expression_of("a | b & c < d + e == f;"), *expected);
    assert_eq!(expression_of("x >= y != z <= w;"), *binary(binary(ident("x"), ">=", ident("y")), "!=", binary(ident("z"), "<=", ident("w"))));
}

#[test]
fn ternary_is_loosest() {
    assert_eq!(
        expression_of("a | b ? c : d;"),
        ASTNode::ConditionalExpression {
            condition: binary(ident("a"), "|", ident("b")),
            then_expr: ident("c"),
            else_expr: ident("d"),
        }
    );
}

#[test]
fn ternary_nests_to_the_right() {
    assert_eq!(
        expression_of("a ? b : c ? d : e;"),
        ASTNode::ConditionalExpression {
            condition: ident("a"),
            then_expr: ident("b"),
            else_expr: Box::new(ASTNode::ConditionalExpression {
                condition: ident("c"),
                then_expr: ident("d"),
                else_expr: ident("e"),
            }),
        }
    );
}

#[test]
fn postfix_chain_left_to_right() {
    assert_eq!(
        expression_of("obj.a.b(x);"),
        ASTNode::MethodCall {
            object: Box::new(ASTNode::PropertyAccess { object: ident("obj"), property: s("a") }),
            method: s("b"),
            arguments: vec![ASTNode::Identifier(s("x"))],
        }
    );
}

#[test]
fn function_call_and_method_call_arguments() {
    assert_eq!(
        expression_of("f(1, g(), [2, 3]).len();"),
        ASTNode::MethodCall {
            object: Box::new(ASTNode::FunctionCall {
                function: s("f"),
                arguments: vec![
                    ASTNode::Literal(s("1")),
                    ASTNode::FunctionCall { function: s("g"), arguments: vec![] },
                    ASTNode::ArrayLiteral(vec![ASTNode::Literal(s("2")), ASTNode::Literal(s("3"))]),
                ],
            }),
            method: s("len"),
            arguments: vec![],
        }
    );
}

#[test]
fn unary_operators_nest() {
    assert_eq!(
        expression_of("--x;"),
        ASTNode::UnaryExpression {
            operator: s("-"),
            operand: Box::new(ASTNode::UnaryExpression { operator: s("-"), operand: ident("x") }),
        }
    );
    assert_eq!(
        expression_of("!~a * b;"),
        *binary(
            Box::new(ASTNode::UnaryExpression {
                operator: s("!"),
                operand: Box::new(ASTNode::UnaryExpression { operator: s("~"), operand: ident("a") }),
            }),
            "*",
            ident("b"),
        )
    );
}

#[test]
fn type_cast_in_expression() {
    assert_eq!(
        statements("Int/n/=Int/(x + 1);"),
        vec![ASTNode::VariableDeclaration {
            var_type: s("Int"),
            name: s("n"),
            value: Box::new(ASTNode::TypeCast { expression: binary(ident("x"), "+", lit("1")), target_type: s("Int") }),
        }]
    );
}

#[test]
fn object_and_string_literals() {
    assert_eq!(
        expression_of("{ name: \"bob\", age: 3 }.name;"),
        ASTNode::PropertyAccess {
            object: Box::new(ASTNode::ObjectLiteral(vec![(s("name"), ASTNode::Literal(s("bob"))), (s("age"), ASTNode::Literal(s("3")))])),
            property: s("name"),
        }
    );
}

#[test]
fn identifier_slash_is_a_declaration() {
    let tokens = vec![
        token(TokenType::Identifier, "foo"),
        token(TokenType::Slash, "/"),
        token(TokenType::Identifier, "bar"),
        token(TokenType::Slash, "/"),
        token(TokenType::Equal, "="),
        token(TokenType::Number, "1"),
        token(TokenType::Semicolon, ";"),
        token(TokenType::EOF, ""),
    ];
    let mut parser = Parser::new(tokens);
    assert_eq!(
        parser.parse().unwrap(),
        ASTNode::Program(vec![ASTNode::VariableDeclaration { var_type: s("foo"), name: s("bar"), value: lit("1") }])
    );
}

#[test]
fn identifier_paren_is_a_call_statement() {
    let tokens = vec![
        token(TokenType::Identifier, "foo"),
        token(TokenType::LeftParen, "("),
        token(TokenType::Number, "2"),
        token(TokenType::RightParen, ")"),
        token(TokenType::Semicolon, ";"),
        token(TokenType::EOF, ""),
    ];
    let mut parser = Parser::new(tokens);
    assert_eq!(
        parser.parse().unwrap(),
        ASTNode::Program(vec![ASTNode::ExpressionStatement(Box::new(ASTNode::FunctionCall {
            function: s("foo"),
            arguments: vec![ASTNode::Literal(s("2"))],
        }))])
    );
}

#[test]
fn missing_initializer_is_an_expected_expression_error() {
    let err = parse_source("Type/name/=;").unwrap_err();
    assert_eq!(err.kind, ParseErrorKind::ExpectedExpression);
    assert_eq!(err.position, 5);
    assert_eq!(err.found, TokenType::Semicolon);
    assert_eq!(err.line, 1);
    assert!(err.message.contains("Semicolon"));
}

#[test]
fn statement_count_matches_top_level_declarations() {
    let source = "use [io];\nInt/x/=1;\n/main/(Int a, Str b)Int{ return a; }\nclass /point/ { Int/x/=0; }\nprint(x);\n";
    let stmts = statements(source);
    assert_eq!(stmts.len(), 5);
    assert_eq!(stmts[0], ASTNode::UseStatement(s("io")));
}

#[test]
fn empty_program() {
    assert_eq!(parse_source("// nothing\n").unwrap(), ASTNode::Program(vec![]));
}

#[test]
fn function_declaration_keeps_name_type_pairs() {
    assert_eq!(
        statements("/add/(Int a, Int b)Int{ return a + b; }"),
        vec![ASTNode::FunctionDeclaration {
            name: s("add"),
            params: vec![(s("a"), s("Int")), (s("b"), s("Int"))],
            return_type: s("Int"),
            body: vec![ASTNode::ReturnStatement(binary(ident("a"), "+", ident("b")))],
        }]
    );
    assert_eq!(
        statements("/f/()Void{}"),
        vec![ASTNode::FunctionDeclaration { name: s("f"), params: vec![], return_type: s("Void"), body: vec![] }]
    );
}

#[test]
fn if_else_and_while() {
    assert_eq!(
        statements("if (a) { b(); } else { c(); } while (x < 3) { step(); }").len(),
        2
    );
    assert_eq!(
        statements("if (a) { } else { }"),
        vec![ASTNode::IfStatement { condition: ident("a"), then_branch: vec![], else_branch: Some(vec![]) }]
    );
    assert_eq!(
        statements("while (go) { step(); }"),
        vec![ASTNode::WhileLoop {
            condition: ident("go"),
            body: vec![ASTNode::ExpressionStatement(Box::new(ASTNode::FunctionCall { function: s("step"), arguments: vec![] }))],
        }]
    );
}

#[test]
fn for_loop_clauses_may_be_empty() {
    assert_eq!(
        statements("for (;;) {}"),
        vec![ASTNode::ForLoop { initializer: None, condition: None, increment: None, body: vec![] }]
    );
    assert_eq!(
        statements("for (i; i < 3; next(i)) { }"),
        vec![ASTNode::ForLoop {
            initializer: Some(ident("i")),
            condition: Some(binary(ident("i"), "<", lit("3"))),
            increment: Some(Box::new(ASTNode::FunctionCall { function: s("next"), arguments: vec![ASTNode::Identifier(s("i"))] })),
            body: vec![],
        }]
    );
}

#[test]
fn try_catch_bindings() {
    assert_eq!(
        statements("try { a(); } catch (Error e) { } finally { }"),
        vec![ASTNode::TryCatch {
            try_block: vec![ASTNode::ExpressionStatement(Box::new(ASTNode::FunctionCall { function: s("a"), arguments: vec![] }))],
            catch_variable: Some(s("e")),
            catch_block: vec![],
            finally_block: Some(vec![]),
        }]
    );
    assert_eq!(
        statements("try { } catch (e) { }"),
        vec![ASTNode::TryCatch { try_block: vec![], catch_variable: Some(s("e")), catch_block: vec![], finally_block: None }]
    );
    assert_eq!(
        statements("try { } catch () { }"),
        vec![ASTNode::TryCatch { try_block: vec![], catch_variable: None, catch_block: vec![], finally_block: None }]
    );
}

#[test]
fn class_with_parent_and_interfaces() {
    assert_eq!(
        statements("class /circle/ extends Shape implements Draw, Size { Int/r/=1; /area/()Int{ return r; } }"),
        vec![ASTNode::ClassDeclaration {
            name: s("circle"),
            extends: Some(s("Shape")),
            implements: vec![s("Draw"), s("Size")],
            methods: vec![ASTNode::FunctionDeclaration {
                name: s("area"),
                params: vec![],
                return_type: s("Int"),
                body: vec![ASTNode::ReturnStatement(ident("r"))],
            }],
            properties: vec![ASTNode::VariableDeclaration { var_type: s("Int"), name: s("r"), value: lit("1") }],
        }]
    );
}

#[test]
fn class_with_interfaces_only() {
    assert_eq!(
        statements("class /box/ implements Size { }"),
        vec![ASTNode::ClassDeclaration {
            name: s("box"),
            extends: None,
            implements: vec![s("Size")],
            methods: vec![],
            properties: vec![],
        }]
    );
}

#[test]
fn extends_is_an_ordinary_identifier_elsewhere() {
    assert_eq!(statements("extends(1);").len(), 1);
}

#[test]
fn match_expression_statement() {
    assert_eq!(
        statements("match (x) { 1 => { a(); }, 2 => { } }"),
        vec![ASTNode::ExpressionStatement(Box::new(ASTNode::MatchExpression {
            expression: ident("x"),
            cases: vec![
                (
                    ASTNode::Literal(s("1")),
                    vec![ASTNode::ExpressionStatement(Box::new(ASTNode::FunctionCall { function: s("a"), arguments: vec![] }))],
                ),
                (ASTNode::Literal(s("2")), vec![]),
            ],
        }))]
    );
}

#[test]
fn nested_block() {
    assert_eq!(statements("{ { } }"), vec![ASTNode::Block(vec![ASTNode::Block(vec![])])]);
}

#[test]
fn unexpected_token_at_statement_start() {
    let err = parse_source("x; ;").unwrap_err();
    assert_eq!(err.kind, ParseErrorKind::UnexpectedToken);
    assert_eq!(err.position, 2);
    assert_eq!(err.found, TokenType::Semicolon);
}

#[test]
fn expected_token_errors_name_the_kind() {
    let err = parse_source("use io;").unwrap_err();
    assert_eq!(err.kind, ParseErrorKind::Expected(TokenType::LeftBracket));
    assert_eq!(err.position, 1);
    let err = parse_source("x = 1").unwrap_err();
    assert_eq!(err.kind, ParseErrorKind::Expected(TokenType::Semicolon));
    let err = parse_source("if (a) { b();").unwrap_err();
    assert_eq!(err.kind, ParseErrorKind::Expected(TokenType::RightBrace));
    assert_eq!(err.found, TokenType::EOF);
    let err = parse_source("a ? b;").unwrap_err();
    assert_eq!(err.kind, ParseErrorKind::Expected(TokenType::Colon));
    assert!(err.message.starts_with("Expected ':' in ternary expression"));
}

#[test]
fn class_body_rejects_other_members() {
    let err = parse_source("class /c/ { 1; }").unwrap_err();
    assert_eq!(err.kind, ParseErrorKind::ExpectedMember);
    assert_eq!(err.found, TokenType::Number);
}

#[test]
fn errors_carry_the_line() {
    let err = parse_source("Int/x/=1;\n\nInt/y/=;").unwrap_err();
    assert_eq!(err.kind, ParseErrorKind::ExpectedExpression);
    assert_eq!(err.line, 3);
}

#[test]
fn tokens_without_end_marker_parse_too() {
    let tokens = vec![token(TokenType::Identifier, "a"), token(TokenType::Semicolon, ";")];
    let mut parser = Parser::new(tokens);
    assert_eq!(parser.parse().unwrap(), ASTNode::Program(vec![ASTNode::ExpressionStatement(ident("a"))]));
}
