use vstd::prelude::*;
use crate::ast::Ast;
use crate::lexer::{TokenType, TokenView};

verus! {

// The grammar as mathematics: each rule maps the tokens and a starting
// position to the tree it builds and the number of tokens it consumes, or to
// the first syntax error. The rules are opaque; a proof about one reveals it.

/// What went wrong where a parse stops.
#[derive(Debug, Clone, Copy, PartialEq, Eq, Structural)]
pub enum ParseErrorKind {
    /// A token of the given kind was required.
    Expected(TokenType),
    /// No statement starts with the token found.
    UnexpectedToken,
    /// No expression starts with the token found.
    ExpectedExpression,
    /// A class body holds something that is neither a property nor a method.
    ExpectedMember,
}

/// A syntax error: its kind and the index of the offending token.
pub struct SyntaxError {
    pub kind: ParseErrorKind,
    pub at: nat,
}

/// The outcome of a grammar rule applied at a position: the value it builds
/// and the number of tokens it consumes, or the first syntax error.
pub type Parsed<A> = Result<(A, nat), SyntaxError>;

/// The kind of the token at `p`; past the last token the input reads as its
/// end.
pub open spec fn kind_at(t: Seq<TokenView>, p: nat) -> TokenType {
    if p < t.len() { t[p as int].kind } else { TokenType::EOF }
}

/// The text of the token at `p`; empty past the last token.
pub open spec fn text_at(t: Seq<TokenView>, p: nat) -> Seq<char> {
    if p < t.len() { t[p as int].lexeme } else { Seq::empty() }
}

/// The line of the token at `p`; 0 past the last token.
pub open spec fn line_at(t: Seq<TokenView>, p: nat) -> nat {
    if p < t.len() { t[p as int].line } else { 0 }
}

/// The number of tokens left from `p`.
pub open spec fn rem(t: Seq<TokenView>, p: nat) -> nat {
    if p < t.len() { (t.len() - p) as nat } else { 0 }
}

/// A syntax error of kind `kind` at token `at`.
pub open spec fn fail<A>(kind: ParseErrorKind, at: nat) -> Parsed<A> {
    Err(SyntaxError { kind, at })
}

/// The error of a missing token of kind `k` at token `at`.
pub open spec fn expected<A>(k: TokenType, at: nat) -> Parsed<A> {
    fail(ParseErrorKind::Expected(k), at)
}

/// Counts `d` more consumed tokens.
pub open spec fn shift<A>(r: Parsed<A>, d: nat) -> Parsed<A> {
    match r {
        Ok((a, n)) => Ok((a, n + d)),
        Err(e) => Err(e),
    }
}

/// The operator that a token kind stands for at a binary precedence level,
/// from 0 (logical or, loosest) to 5 (multiplicative, tightest).
pub open spec fn binary_op(level: nat, k: TokenType) -> Option<Seq<char>> {
    if level == 0 && k == TokenType::Pipe { Some("|"@) }
    else if level == 1 && k == TokenType::Ampersand { Some("&"@) }
    else if level == 2 && k == TokenType::DoubleEqual { Some("=="@) }
    else if level == 2 && k == TokenType::NotEqual { Some("!="@) }
    else if level == 3 && k == TokenType::LessThan { Some("<"@) }
    else if level == 3 && k == TokenType::GreaterThan { Some(">"@) }
    else if level == 3 && k == TokenType::LessEqual { Some("<="@) }
    else if level == 3 && k == TokenType::GreaterEqual { Some(">="@) }
    else if level == 4 && k == TokenType::Plus { Some("+"@) }
    else if level == 4 && k == TokenType::Minus { Some("-"@) }
    else if level == 5 && k == TokenType::Asterisk { Some("*"@) }
    else if level == 5 && k == TokenType::Slash { Some("/"@) }
    else { None }
}

/// The prefix operator that a token kind stands for.
pub open spec fn unary_op(k: TokenType) -> Option<Seq<char>> {
    if k == TokenType::Minus { Some("-"@) }
    else if k == TokenType::Bang { Some("!"@) }
    else if k == TokenType::Tilde { Some("~"@) }
    else { None }
}

/// Orders the precedence levels for the termination of the rules.
pub open spec fn binary_rank(level: nat) -> nat {
    if level < 5 { (28 - level) as nat } else { 23 }
}

// ---------------------------------------------------------------------------
// Statements. Each rule takes the tokens and the position where it starts,
// just after the keyword that selected it where there is one.
// ---------------------------------------------------------------------------

/// A whole program from `p`: statements up to the end of the input. `acc`
/// holds the statements already read.
///
/// Every statement consumes at least its first token
/// (`statements_consume_tokens`); the `n == 0` branch never applies and only
/// makes the termination of the recursion evident.
#[verifier::opaque]
pub open spec fn program_rest(t: Seq<TokenView>, p: nat, acc: Seq<Ast>) -> Parsed<Seq<Ast>>
    decreases rem(t, p),
{
    if kind_at(t, p) == TokenType::EOF {
        Ok((acc, 0))
    } else {
        match statement(t, p) {
            Ok((s, n)) => if n == 0 {
                fail(ParseErrorKind::UnexpectedToken, p)
            } else {
                shift(program_rest(t, p + n, acc.push(s)), n)
            },
            Err(e) => Err(e),
        }
    }
}

/// The program that the tokens from `p` spell.
pub open spec fn program(t: Seq<TokenView>, p: nat) -> Result<Ast, SyntaxError> {
    match program_rest(t, p, Seq::empty()) {
        Ok((stmts, _)) => Ok(Ast::Program(stmts)),
        Err(e) => Err(e),
    }
}

/// One statement; its first token selects the production.
#[verifier::opaque]
pub open spec fn statement(t: Seq<TokenView>, p: nat) -> Parsed<Ast>
    decreases rem(t, p), 40nat,
{
    let k = kind_at(t, p);
    if k == TokenType::Use {
        shift(use_statement(t, p + 1), 1)
    } else if k == TokenType::Return {
        shift(return_statement(t, p + 1), 1)
    } else if k == TokenType::If {
        shift(if_statement(t, p + 1), 1)
    } else if k == TokenType::While {
        shift(while_statement(t, p + 1), 1)
    } else if k == TokenType::For {
        shift(for_statement(t, p + 1), 1)
    } else if k == TokenType::Try {
        shift(try_statement(t, p + 1), 1)
    } else if k == TokenType::Class {
        shift(class_declaration(t, p + 1), 1)
    } else if k == TokenType::Match {
        match match_expression(t, p + 1) {
            Ok((m, n)) => Ok((Ast::ExpressionStatement(Box::new(m)), n + 1)),
            Err(e) => Err(e),
        }
    } else if k == TokenType::LeftBrace {
        match block_rest(t, p + 1, Seq::empty()) {
            Ok((b, n)) => Ok((Ast::Block(b), n + 1)),
            Err(e) => Err(e),
        }
    } else if k == TokenType::Type {
        variable_declaration(t, p)
    } else if k == TokenType::Identifier {
        if kind_at(t, p + 1) == TokenType::Slash {
            variable_declaration(t, p)
        } else {
            expression_statement(t, p)
        }
    } else if k == TokenType::Slash {
        shift(function_declaration(t, p + 1), 1)
    } else {
        fail(ParseErrorKind::UnexpectedToken, p)
    }
}

/// `[name];` after `use`.
#[verifier::opaque]
pub open spec fn use_statement(t: Seq<TokenView>, p: nat) -> Parsed<Ast> {
    if kind_at(t, p) != TokenType::LeftBracket {
        expected(TokenType::LeftBracket, p)
    } else if kind_at(t, p + 1) != TokenType::Identifier {
        expected(TokenType::Identifier, p + 1)
    } else if kind_at(t, p + 2) != TokenType::RightBracket {
        expected(TokenType::RightBracket, p + 2)
    } else if kind_at(t, p + 3) != TokenType::Semicolon {
        expected(TokenType::Semicolon, p + 3)
    } else {
        Ok((Ast::UseStatement(text_at(t, p + 1)), 4))
    }
}

/// `expr;` after `return`.
#[verifier::opaque]
pub open spec fn return_statement(t: Seq<TokenView>, p: nat) -> Parsed<Ast>
    decreases rem(t, p), 35nat,
{
    match expression(t, p) {
        Ok((e, n)) => if kind_at(t, p + n) != TokenType::Semicolon {
            expected(TokenType::Semicolon, p + n)
        } else {
            Ok((Ast::ReturnStatement(Box::new(e)), n + 1))
        },
        Err(e) => Err(e),
    }
}

/// `Type/name/=expr;`, where the type may also be a plain identifier.
#[verifier::opaque]
pub open spec fn variable_declaration(t: Seq<TokenView>, p: nat) -> Parsed<Ast>
    decreases rem(t, p), 39nat,
{
    if kind_at(t, p) != TokenType::Type && kind_at(t, p) != TokenType::Identifier {
        expected(TokenType::Type, p)
    } else if kind_at(t, p + 1) != TokenType::Slash {
        expected(TokenType::Slash, p + 1)
    } else if kind_at(t, p + 2) != TokenType::Identifier {
        expected(TokenType::Identifier, p + 2)
    } else if kind_at(t, p + 3) != TokenType::Slash {
        expected(TokenType::Slash, p + 3)
    } else if kind_at(t, p + 4) != TokenType::Equal {
        expected(TokenType::Equal, p + 4)
    } else {
        match expression(t, p + 5) {
            Ok((v, n)) => if kind_at(t, p + 5 + n) != TokenType::Semicolon {
                expected(TokenType::Semicolon, p + 5 + n)
            } else {
                Ok((
                    Ast::VariableDeclaration {
                        var_type: text_at(t, p),
                        name: text_at(t, p + 2),
                        value: Box::new(v),
                    },
                    n + 6,
                ))
            },
            Err(e) => Err(e),
        }
    }
}

/// `expr;`
#[verifier::opaque]
pub open spec fn expression_statement(t: Seq<TokenView>, p: nat) -> Parsed<Ast>
    decreases rem(t, p), 38nat,
{
    match expression(t, p) {
        Ok((e, n)) => if kind_at(t, p + n) != TokenType::Semicolon {
            expected(TokenType::Semicolon, p + n)
        } else {
            Ok((Ast::ExpressionStatement(Box::new(e)), n + 1))
        },
        Err(e) => Err(e),
    }
}

/// Statements up to a closing brace, which it consumes. `acc` holds the
/// statements already read. See `program_rest` on the `n == 0` branch.
#[verifier::opaque]
pub open spec fn block_rest(t: Seq<TokenView>, p: nat, acc: Seq<Ast>) -> Parsed<Seq<Ast>>
    decreases rem(t, p), 45nat,
{
    let k = kind_at(t, p);
    if k == TokenType::RightBrace {
        Ok((acc, 1))
    } else if k == TokenType::EOF {
        expected(TokenType::RightBrace, p)
    } else {
        match statement(t, p) {
            Ok((s, n)) => if n == 0 {
                fail(ParseErrorKind::UnexpectedToken, p)
            } else {
                shift(block_rest(t, p + n, acc.push(s)), n)
            },
            Err(e) => Err(e),
        }
    }
}

/// `{ statements }`
#[verifier::opaque]
pub open spec fn braced(t: Seq<TokenView>, p: nat) -> Parsed<Seq<Ast>>
    decreases rem(t, p), 46nat,
{
    if kind_at(t, p) != TokenType::LeftBrace {
        expected(TokenType::LeftBrace, p)
    } else {
        shift(block_rest(t, p + 1, Seq::empty()), 1)
    }
}

/// `Type name (, Type name)*` in a parameter list; each parameter is kept
/// as (name, type).
#[verifier::opaque]
pub open spec fn params_rest(t: Seq<TokenView>, p: nat, acc: Seq<(Seq<char>, Seq<char>)>) -> Parsed<
    Seq<(Seq<char>, Seq<char>)>,
>
    decreases rem(t, p),
{
    if kind_at(t, p) != TokenType::Type {
        expected(TokenType::Type, p)
    } else if kind_at(t, p + 1) != TokenType::Identifier {
        expected(TokenType::Identifier, p + 1)
    } else {
        let acc2 = acc.push((text_at(t, p + 1), text_at(t, p)));
        if kind_at(t, p + 2) == TokenType::Comma {
            shift(params_rest(t, p + 3, acc2), 3)
        } else {
            Ok((acc2, 2))
        }
    }
}

/// The parameters of a function, up to (not including) `)`; none where
/// `)` follows at once.
pub open spec fn parameter_list(t: Seq<TokenView>, p: nat) -> Parsed<Seq<(Seq<char>, Seq<char>)>> {
    if kind_at(t, p) == TokenType::RightParen {
        Ok((Seq::empty(), 0))
    } else {
        params_rest(t, p, Seq::empty())
    }
}

/// `name/(params)ReturnType{ body }` after the leading `/`.
#[verifier::opaque]
pub open spec fn function_declaration(t: Seq<TokenView>, p: nat) -> Parsed<Ast>
    decreases rem(t, p), 35nat,
{
    if kind_at(t, p) != TokenType::Identifier {
        expected(TokenType::Identifier, p)
    } else if kind_at(t, p + 1) != TokenType::Slash {
        expected(TokenType::Slash, p + 1)
    } else if kind_at(t, p + 2) != TokenType::LeftParen {
        expected(TokenType::LeftParen, p + 2)
    } else {
        match parameter_list(t, p + 3) {
            Ok((ps, n)) => {
                let q = p + 3 + n;
                if kind_at(t, q) != TokenType::RightParen {
                    expected(TokenType::RightParen, q)
                } else if kind_at(t, q + 1) != TokenType::Type {
                    expected(TokenType::Type, q + 1)
                } else {
                    match braced(t, q + 2) {
                        Ok((body, m)) => Ok((
                            Ast::FunctionDeclaration {
                                name: text_at(t, p),
                                params: ps,
                                return_type: text_at(t, q + 1),
                                body,
                            },
                            n + m + 5,
                        )),
                        Err(e) => Err(e),
                    }
                }
            },
            Err(e) => Err(e),
        }
    }
}

/// `(expr) { ... } [else { ... }]` after `if`.
#[verifier::opaque]
pub open spec fn if_statement(t: Seq<TokenView>, p: nat) -> Parsed<Ast>
    decreases rem(t, p), 35nat,
{
    if kind_at(t, p) != TokenType::LeftParen {
        expected(TokenType::LeftParen, p)
    } else {
        match expression(t, p + 1) {
            Ok((c, n)) => if kind_at(t, p + 1 + n) != TokenType::RightParen {
                expected(TokenType::RightParen, p + 1 + n)
            } else {
                match braced(t, p + 2 + n) {
                    Ok((th, m)) => {
                        let q = p + 2 + n + m;
                        if kind_at(t, q) == TokenType::Else {
                            match braced(t, q + 1) {
                                Ok((el, k)) => Ok((
                                    Ast::IfStatement {
                                        condition: Box::new(c),
                                        then_branch: th,
                                        else_branch: Some(el),
                                    },
                                    n + m + k + 3,
                                )),
                                Err(e) => Err(e),
                            }
                        } else {
                            Ok((
                                Ast::IfStatement { condition: Box::new(c), then_branch: th, else_branch: None },
                                n + m + 2,
                            ))
                        }
                    },
                    Err(e) => Err(e),
                }
            },
            Err(e) => Err(e),
        }
    }
}

/// `(expr) { ... }` after `while`.
#[verifier::opaque]
pub open spec fn while_statement(t: Seq<TokenView>, p: nat) -> Parsed<Ast>
    decreases rem(t, p), 35nat,
{
    if kind_at(t, p) != TokenType::LeftParen {
        expected(TokenType::LeftParen, p)
    } else {
        match expression(t, p + 1) {
            Ok((c, n)) => if kind_at(t, p + 1 + n) != TokenType::RightParen {
                expected(TokenType::RightParen, p + 1 + n)
            } else {
                match braced(t, p + 2 + n) {
                    Ok((b, m)) => Ok((Ast::WhileLoop { condition: Box::new(c), body: b }, n + m + 2)),
                    Err(e) => Err(e),
                }
            },
            Err(e) => Err(e),
        }
    }
}

/// An expression, or nothing where the token `stop` follows at once.
#[verifier::opaque]
pub open spec fn optional_expression(t: Seq<TokenView>, p: nat, stop: TokenType) -> Parsed<Option<Box<Ast>>>
    decreases rem(t, p), 31nat,
{
    if kind_at(t, p) == stop {
        Ok((None, 0))
    } else {
        match expression(t, p) {
            Ok((e, n)) => Ok((Some(Box::new(e)), n)),
            Err(e) => Err(e),
        }
    }
}

/// `(init?; cond?; incr?) { ... }` after `for`.
#[verifier::opaque]
pub open spec fn for_statement(t: Seq<TokenView>, p: nat) -> Parsed<Ast>
    decreases rem(t, p), 35nat,
{
    if kind_at(t, p) != TokenType::LeftParen {
        expected(TokenType::LeftParen, p)
    } else {
        match optional_expression(t, p + 1, TokenType::Semicolon) {
            Ok((init, n1)) => {
                let a = p + 1 + n1;
                if kind_at(t, a) != TokenType::Semicolon {
                    expected(TokenType::Semicolon, a)
                } else {
                    match optional_expression(t, a + 1, TokenType::Semicolon) {
                        Ok((cond, n2)) => {
                            let b = a + 1 + n2;
                            if kind_at(t, b) != TokenType::Semicolon {
                                expected(TokenType::Semicolon, b)
                            } else {
                                match optional_expression(t, b + 1, TokenType::RightParen) {
                                    Ok((incr, n3)) => {
                                        let d = b + 1 + n3;
                                        if kind_at(t, d) != TokenType::RightParen {
                                            expected(TokenType::RightParen, d)
                                        } else {
                                            match braced(t, d + 1) {
                                                Ok((body, m)) => Ok((
                                                    Ast::ForLoop {
                                                        initializer: init,
                                                        condition: cond,
                                                        increment: incr,
                                                        body,
                                                    },
                                                    n1 + n2 + n3 + m + 4,
                                                )),
                                                Err(e) => Err(e),
                                            }
                                        }
                                    },
                                    Err(e) => Err(e),
                                }
                            }
                        },
                        Err(e) => Err(e),
                    }
                }
            },
            Err(e) => Err(e),
        }
    }
}

/// The binding of a `catch` clause: `Type name`, `name` or nothing. Only the
/// name is kept.
#[verifier::opaque]
pub open spec fn catch_binding(t: Seq<TokenView>, p: nat) -> Parsed<Option<Seq<char>>> {
    if kind_at(t, p) == TokenType::Type {
        if kind_at(t, p + 1) != TokenType::Identifier {
            expected(TokenType::Identifier, p + 1)
        } else {
            Ok((Some(text_at(t, p + 1)), 2))
        }
    } else if kind_at(t, p) == TokenType::Identifier {
        Ok((Some(text_at(t, p)), 1))
    } else {
        Ok((None, 0))
    }
}

/// `{ ... } catch (binding) { ... } [finally { ... }]` after `try`.
#[verifier::opaque]
pub open spec fn try_statement(t: Seq<TokenView>, p: nat) -> Parsed<Ast>
    decreases rem(t, p), 47nat,
{
    match braced(t, p) {
        Ok((tb, n1)) => {
            let q = p + n1;
            if kind_at(t, q) != TokenType::Catch {
                expected(TokenType::Catch, q)
            } else if kind_at(t, q + 1) != TokenType::LeftParen {
                expected(TokenType::LeftParen, q + 1)
            } else {
                match catch_binding(t, q + 2) {
                    Ok((cv, c)) => {
                        let r = q + 2 + c;
                        if kind_at(t, r) != TokenType::RightParen {
                            expected(TokenType::RightParen, r)
                        } else {
                            match braced(t, r + 1) {
                                Ok((cb, n2)) => {
                                    let s = r + 1 + n2;
                                    if kind_at(t, s) == TokenType::Finally {
                                        match braced(t, s + 1) {
                                            Ok((fb, n3)) => Ok((
                                                Ast::TryCatch {
                                                    try_block: tb,
                                                    catch_variable: cv,
                                                    catch_block: cb,
                                                    finally_block: Some(fb),
                                                },
                                                n1 + c + n2 + n3 + 4,
                                            )),
                                            Err(e) => Err(e),
                                        }
                                    } else {
                                        Ok((
                                            Ast::TryCatch {
                                                try_block: tb,
                                                catch_variable: cv,
                                                catch_block: cb,
                                                finally_block: None,
                                            },
                                            n1 + c + n2 + 3,
                                        ))
                                    }
                                },
                                Err(e) => Err(e),
                            }
                        }
                    },
                    Err(e) => Err(e),
                }
            }
        },
        Err(e) => Err(e),
    }
}

/// `extends Parent`, recognised by the identifier's text, or nothing.
#[verifier::opaque]
pub open spec fn class_parent(t: Seq<TokenView>, p: nat) -> Parsed<Option<Seq<char>>> {
    if kind_at(t, p) == TokenType::Identifier && text_at(t, p) == "extends"@ {
        if kind_at(t, p + 1) != TokenType::Type {
            expected(TokenType::Type, p + 1)
        } else {
            Ok((Some(text_at(t, p + 1)), 2))
        }
    } else {
        Ok((None, 0))
    }
}

/// `Type (, Type)*` after `implements`.
#[verifier::opaque]
pub open spec fn interfaces_rest(t: Seq<TokenView>, p: nat, acc: Seq<Seq<char>>) -> Parsed<Seq<Seq<char>>>
    decreases rem(t, p),
{
    if kind_at(t, p) != TokenType::Type {
        expected(TokenType::Type, p)
    } else {
        let acc2 = acc.push(text_at(t, p));
        if kind_at(t, p + 1) == TokenType::Comma {
            shift(interfaces_rest(t, p + 2, acc2), 2)
        } else {
            Ok((acc2, 1))
        }
    }
}

/// `implements Type (, Type)*`, recognised by the identifier's text, or
/// nothing.
#[verifier::opaque]
pub open spec fn class_interfaces(t: Seq<TokenView>, p: nat) -> Parsed<Seq<Seq<char>>> {
    if kind_at(t, p) == TokenType::Identifier && text_at(t, p) == "implements"@ {
        shift(interfaces_rest(t, p + 1, Seq::empty()), 1)
    } else {
        Ok((Seq::empty(), 0))
    }
}

/// Class members up to the closing brace, which it consumes: properties
/// (variable declarations) and methods (`/name/...`). See `program_rest` on
/// the `n == 0` branch.
#[verifier::opaque]
pub open spec fn members_rest(t: Seq<TokenView>, p: nat, methods: Seq<Ast>, props: Seq<Ast>) -> Parsed<
    (Seq<Ast>, Seq<Ast>),
>
    decreases rem(t, p), 41nat,
{
    let k = kind_at(t, p);
    if k == TokenType::RightBrace {
        Ok(((methods, props), 1))
    } else if k == TokenType::EOF {
        expected(TokenType::RightBrace, p)
    } else if k == TokenType::Type || k == TokenType::Identifier {
        match variable_declaration(t, p) {
            Ok((v, n)) => if n == 0 {
                fail(ParseErrorKind::UnexpectedToken, p)
            } else {
                shift(members_rest(t, p + n, methods, props.push(v)), n)
            },
            Err(e) => Err(e),
        }
    } else if k == TokenType::Slash {
        match function_declaration(t, p + 1) {
            Ok((f, n)) => shift(members_rest(t, p + 1 + n, methods.push(f), props), n + 1),
            Err(e) => Err(e),
        }
    } else {
        fail(ParseErrorKind::ExpectedMember, p)
    }
}

/// `/name/ [extends Type] [implements Type, ...] { members }` after `class`.
#[verifier::opaque]
pub open spec fn class_declaration(t: Seq<TokenView>, p: nat) -> Parsed<Ast>
    decreases rem(t, p), 35nat,
{
    if kind_at(t, p) != TokenType::Slash {
        expected(TokenType::Slash, p)
    } else if kind_at(t, p + 1) != TokenType::Identifier {
        expected(TokenType::Identifier, p + 1)
    } else if kind_at(t, p + 2) != TokenType::Slash {
        expected(TokenType::Slash, p + 2)
    } else {
        match class_parent(t, p + 3) {
            Ok((parent, e)) => match class_interfaces(t, p + 3 + e) {
                Ok((ifaces, i)) => {
                    let q = p + 3 + e + i;
                    if kind_at(t, q) != TokenType::LeftBrace {
                        expected(TokenType::LeftBrace, q)
                    } else {
                        match members_rest(t, q + 1, Seq::empty(), Seq::empty()) {
                            Ok(((methods, props), m)) => Ok((
                                Ast::ClassDeclaration {
                                    name: text_at(t, p + 1),
                                    extends: parent,
                                    implements: ifaces,
                                    methods,
                                    properties: props,
                                },
                                e + i + m + 4,
                            )),
                            Err(err) => Err(err),
                        }
                    }
                },
                Err(err) => Err(err),
            },
            Err(err) => Err(err),
        }
    }
}

/// Match cases up to the closing brace, which it consumes:
/// `pattern => { ... }`, each optionally followed by a comma.
#[verifier::opaque]
pub open spec fn cases_rest(t: Seq<TokenView>, p: nat, acc: Seq<(Ast, Seq<Ast>)>) -> Parsed<
    Seq<(Ast, Seq<Ast>)>,
>
    decreases rem(t, p), 36nat,
{
    let k = kind_at(t, p);
    if k == TokenType::RightBrace {
        Ok((acc, 1))
    } else if k == TokenType::EOF {
        expected(TokenType::RightBrace, p)
    } else {
        match expression(t, p) {
            Ok((pat, n)) => if kind_at(t, p + n) != TokenType::Arrow {
                expected(TokenType::Arrow, p + n)
            } else {
                match braced(t, p + n + 1) {
                    Ok((body, m)) => {
                        let q = p + n + 1 + m;
                        let c: nat = if kind_at(t, q) == TokenType::Comma { 1 } else { 0 };
                        shift(cases_rest(t, q + c, acc.push((pat, body))), n + 1 + m + c)
                    },
                    Err(e) => Err(e),
                }
            },
            Err(e) => Err(e),
        }
    }
}

/// `(expr) { cases }` after `match`.
#[verifier::opaque]
pub open spec fn match_expression(t: Seq<TokenView>, p: nat) -> Parsed<Ast>
    decreases rem(t, p), 35nat,
{
    if kind_at(t, p) != TokenType::LeftParen {
        expected(TokenType::LeftParen, p)
    } else {
        match expression(t, p + 1) {
            Ok((e, n)) => if kind_at(t, p + 1 + n) != TokenType::RightParen {
                expected(TokenType::RightParen, p + 1 + n)
            } else if kind_at(t, p + 2 + n) != TokenType::LeftBrace {
                expected(TokenType::LeftBrace, p + 2 + n)
            } else {
                match cases_rest(t, p + 3 + n, Seq::empty()) {
                    Ok((cases, m)) => Ok((Ast::MatchExpression { expression: Box::new(e), cases }, n + m + 3)),
                    Err(err) => Err(err),
                }
            },
            Err(err) => Err(err),
        }
    }
}

// ---------------------------------------------------------------------------
// Expressions, loosest binding first.
// ---------------------------------------------------------------------------

/// An expression: a logical-or expression, optionally followed by
/// `? then : else`, whose branches are again full expressions.
#[verifier::opaque]
pub open spec fn expression(t: Seq<TokenView>, p: nat) -> Parsed<Ast>
    decreases rem(t, p), 30nat,
{
    match binary(t, p, 0) {
        Ok((c, n)) => if kind_at(t, p + n) == TokenType::Question {
            match expression(t, p + n + 1) {
                Ok((th, n2)) => if kind_at(t, p + n + 1 + n2) != TokenType::Colon {
                    expected(TokenType::Colon, p + n + 1 + n2)
                } else {
                    match expression(t, p + n + 2 + n2) {
                        Ok((el, n3)) => Ok((
                            Ast::ConditionalExpression {
                                condition: Box::new(c),
                                then_expr: Box::new(th),
                                else_expr: Box::new(el),
                            },
                            n + n2 + n3 + 2,
                        )),
                        Err(e) => Err(e),
                    }
                },
                Err(e) => Err(e),
            }
        } else {
            Ok((c, n))
        },
        Err(e) => Err(e),
    }
}

/// A left-associative chain of operators of one precedence level; its
/// operands belong to the next tighter level, and below level 5 to the unary
/// rule.
#[verifier::opaque]
pub open spec fn binary(t: Seq<TokenView>, p: nat, level: nat) -> Parsed<Ast>
    decreases rem(t, p), binary_rank(level),
{
    let first = if level < 5 { binary(t, p, level + 1) } else { unary(t, p) };
    match first {
        Ok((left, n)) => shift(binary_rest(t, p + n, level, left), n),
        Err(e) => Err(e),
    }
}

/// The rest of a chain whose operands so far fold into `left`.
#[verifier::opaque]
pub open spec fn binary_rest(t: Seq<TokenView>, p: nat, level: nat, left: Ast) -> Parsed<Ast>
    decreases rem(t, p), 10nat,
{
    match binary_op(level, kind_at(t, p)) {
        None => Ok((left, 0)),
        Some(op) => {
            let right = if level < 5 { binary(t, p + 1, level + 1) } else { unary(t, p + 1) };
            match right {
                Ok((r, n)) => shift(
                    binary_rest(
                        t,
                        p + 1 + n,
                        level,
                        Ast::BinaryExpression { left: Box::new(left), operator: op, right: Box::new(r) },
                    ),
                    n + 1,
                ),
                Err(e) => Err(e),
            }
        },
    }
}

/// Prefix operators (right-associative), then a type cast `Type/(expr)`,
/// else a postfix chain.
#[verifier::opaque]
pub open spec fn unary(t: Seq<TokenView>, p: nat) -> Parsed<Ast>
    decreases rem(t, p), 22nat,
{
    let k = kind_at(t, p);
    match unary_op(k) {
        Some(op) => match unary(t, p + 1) {
            Ok((e, n)) => Ok((Ast::UnaryExpression { operator: op, operand: Box::new(e) }, n + 1)),
            Err(e) => Err(e),
        },
        None => if k == TokenType::Type && kind_at(t, p + 1) == TokenType::Slash {
            type_cast(t, p)
        } else {
            call(t, p)
        },
    }
}

/// `Type/(expr)`
#[verifier::opaque]
pub open spec fn type_cast(t: Seq<TokenView>, p: nat) -> Parsed<Ast>
    decreases rem(t, p), 21nat,
{
    if kind_at(t, p) != TokenType::Type {
        expected(TokenType::Type, p)
    } else if kind_at(t, p + 1) != TokenType::Slash {
        expected(TokenType::Slash, p + 1)
    } else if kind_at(t, p + 2) != TokenType::LeftParen {
        expected(TokenType::LeftParen, p + 2)
    } else {
        match expression(t, p + 3) {
            Ok((e, n)) => if kind_at(t, p + 3 + n) != TokenType::RightParen {
                expected(TokenType::RightParen, p + 3 + n)
            } else {
                Ok((Ast::TypeCast { expression: Box::new(e), target_type: text_at(t, p) }, n + 4))
            },
            Err(e) => Err(e),
        }
    }
}

/// A primary expression followed by `.name` and `.name(args)` suffixes.
#[verifier::opaque]
pub open spec fn call(t: Seq<TokenView>, p: nat) -> Parsed<Ast>
    decreases rem(t, p), 20nat,
{
    match primary(t, p) {
        Ok((e, n)) => shift(call_rest(t, p + n, e), n),
        Err(e) => Err(e),
    }
}

/// The suffixes after `obj`, applied left to right.
#[verifier::opaque]
pub open spec fn call_rest(t: Seq<TokenView>, p: nat, obj: Ast) -> Parsed<Ast>
    decreases rem(t, p), 5nat,
{
    if kind_at(t, p) != TokenType::Dot {
        Ok((obj, 0))
    } else if kind_at(t, p + 1) != TokenType::Identifier {
        expected(TokenType::Identifier, p + 1)
    } else if kind_at(t, p + 2) == TokenType::LeftParen {
        match arguments(t, p + 3, TokenType::RightParen) {
            Ok((args, n)) => if kind_at(t, p + 3 + n) != TokenType::RightParen {
                expected(TokenType::RightParen, p + 3 + n)
            } else {
                shift(
                    call_rest(
                        t,
                        p + 4 + n,
                        Ast::MethodCall { object: Box::new(obj), method: text_at(t, p + 1), arguments: args },
                    ),
                    n + 4,
                )
            },
            Err(e) => Err(e),
        }
    } else {
        shift(call_rest(t, p + 2, Ast::PropertyAccess { object: Box::new(obj), property: text_at(t, p + 1) }), 2)
    }
}

/// An array or object literal, a number or string literal, an identifier,
/// or a call `name(args)`.
#[verifier::opaque]
pub open spec fn primary(t: Seq<TokenView>, p: nat) -> Parsed<Ast>
    decreases rem(t, p), 19nat,
{
    let k = kind_at(t, p);
    if k == TokenType::LeftBracket {
        shift(array(t, p + 1), 1)
    } else if k == TokenType::LeftBrace {
        shift(object(t, p + 1), 1)
    } else if k == TokenType::Number || k == TokenType::String {
        Ok((Ast::Literal(text_at(t, p)), 1))
    } else if k == TokenType::Identifier {
        if kind_at(t, p + 1) == TokenType::LeftParen {
            match arguments(t, p + 2, TokenType::RightParen) {
                Ok((args, n)) => if kind_at(t, p + 2 + n) != TokenType::RightParen {
                    expected(TokenType::RightParen, p + 2 + n)
                } else {
                    Ok((Ast::FunctionCall { function: text_at(t, p), arguments: args }, n + 3))
                },
                Err(e) => Err(e),
            }
        } else {
            Ok((Ast::Identifier(text_at(t, p)), 1))
        }
    } else {
        fail(ParseErrorKind::ExpectedExpression, p)
    }
}

/// Comma-separated expressions; none where `close` follows at once. The
/// closing token is left for the caller.
#[verifier::opaque]
pub open spec fn arguments(t: Seq<TokenView>, p: nat, close: TokenType) -> Parsed<Seq<Ast>>
    decreases rem(t, p), 32nat,
{
    if kind_at(t, p) == close {
        Ok((Seq::empty(), 0))
    } else {
        items_rest(t, p, Seq::empty())
    }
}

/// `expr (, expr)*` after the items in `acc`.
#[verifier::opaque]
pub open spec fn items_rest(t: Seq<TokenView>, p: nat, acc: Seq<Ast>) -> Parsed<Seq<Ast>>
    decreases rem(t, p), 31nat,
{
    match expression(t, p) {
        Ok((e, n)) => if kind_at(t, p + n) == TokenType::Comma {
            shift(items_rest(t, p + n + 1, acc.push(e)), n + 1)
        } else {
            Ok((acc.push(e), n))
        },
        Err(err) => Err(err),
    }
}

/// `elements]` after `[`.
#[verifier::opaque]
pub open spec fn array(t: Seq<TokenView>, p: nat) -> Parsed<Ast>
    decreases rem(t, p), 33nat,
{
    match arguments(t, p, TokenType::RightBracket) {
        Ok((els, n)) => if kind_at(t, p + n) != TokenType::RightBracket {
            expected(TokenType::RightBracket, p + n)
        } else {
            Ok((Ast::ArrayLiteral(els), n + 1))
        },
        Err(e) => Err(e),
    }
}

/// `name: expr (, name: expr)*` after the properties in `acc`.
#[verifier::opaque]
pub open spec fn properties_rest(t: Seq<TokenView>, p: nat, acc: Seq<(Seq<char>, Ast)>) -> Parsed<
    Seq<(Seq<char>, Ast)>,
>
    decreases rem(t, p), 1nat,
{
    if kind_at(t, p) != TokenType::Identifier {
        expected(TokenType::Identifier, p)
    } else if kind_at(t, p + 1) != TokenType::Colon {
        expected(TokenType::Colon, p + 1)
    } else {
        match expression(t, p + 2) {
            Ok((v, n)) => {
                let acc2 = acc.push((text_at(t, p), v));
                if kind_at(t, p + 2 + n) == TokenType::Comma {
                    shift(properties_rest(t, p + 3 + n, acc2), n + 3)
                } else {
                    Ok((acc2, n + 2))
                }
            },
            Err(e) => Err(e),
        }
    }
}

/// `properties }` after `{`.
#[verifier::opaque]
pub open spec fn object(t: Seq<TokenView>, p: nat) -> Parsed<Ast>
    decreases rem(t, p), 34nat,
{
    if kind_at(t, p) == TokenType::RightBrace {
        Ok((Ast::ObjectLiteral(Seq::empty()), 1))
    } else {
        match properties_rest(t, p, Seq::empty()) {
            Ok((props, n)) => if kind_at(t, p + n) != TokenType::RightBrace {
                expected(TokenType::RightBrace, p + n)
            } else {
                Ok((Ast::ObjectLiteral(props), n + 1))
            },
            Err(e) => Err(e),
        }
    }
}

} // verus!
