use vstd::prelude::*;
use crate::ast::{ASTNode, Ast, view_opt_text, view_nodes, view_properties, view_cases, view_texts, view_params};
use crate::ast::{lemma_view_empty, lemma_view_nodes_push, lemma_view_properties_push, lemma_view_cases_push};
use crate::grammar::{ParseErrorKind, SyntaxError, Parsed, kind_at, text_at, line_at, shift};
use crate::grammar::{program, program_rest, statement, use_statement, return_statement};
use crate::grammar::{variable_declaration, expression_statement, block_rest, braced, params_rest};
use crate::grammar::{function_declaration, if_statement, while_statement, optional_expression};
use crate::grammar::{parameter_list, catch_binding, class_parent, class_interfaces};
use crate::grammar::{for_statement, try_statement, interfaces_rest, members_rest, class_declaration};
use crate::grammar::{cases_rest, match_expression, expression, binary, binary_rest, binary_op};
use crate::grammar::{binary_rank, unary, unary_op, type_cast, call, call_rest, primary, arguments};
use crate::grammar::{items_rest, array, properties_rest, object};
use crate::lexer::{Token, TokenType, TokenView, token_views};

verus! {

// Each parsing function implements the grammar rule of the same name in
// `grammar`: its result, read through `node_result` and its kin, is exactly
// what the rule gives at the same position.

/// A syntax error: its kind, the index and kind of the offending token, the
/// line it stands on, and a message for people.
#[derive(Debug)]
pub struct ParseError {
    pub kind: ParseErrorKind,
    pub position: usize,
    pub found: TokenType,
    pub line: usize,
    pub message: String,
}

impl View for ParseError {
    type V = SyntaxError;

    open spec fn view(&self) -> SyntaxError {
        SyntaxError { kind: self.kind, at: self.position as nat }
    }
}

impl ParseError {
    /// The error describes the token of `t` at its position.
    pub open spec fn reports(&self, t: Seq<TokenView>) -> bool {
        &&& self.found == kind_at(t, self.position as nat)
        &&& self.line as nat == line_at(t, self.position as nat)
    }
}

/// The grammar's view of a parse that builds one node and returns the
/// position after it.
pub open spec fn node_result(r: Result<(ASTNode, usize), ParseError>, p: nat) -> Parsed<Ast> {
    match r {
        Ok((n, q)) => Ok((n.view_ast(), (q - p) as nat)),
        Err(e) => Err(e@),
    }
}

/// The same for a parse that builds a list of nodes.
pub open spec fn nodes_result(r: Result<(Vec<ASTNode>, usize), ParseError>, p: nat) -> Parsed<Seq<Ast>> {
    match r {
        Ok((v, q)) => Ok((view_nodes(v@), (q - p) as nat)),
        Err(e) => Err(e@),
    }
}

/// The grammar's view of a result whose payload has the value `f`.
pub open spec fn outcome<A, B>(r: Result<(A, usize), ParseError>, p: nat, f: spec_fn(A) -> B) -> Parsed<B> {
    match r {
        Ok((a, q)) => Ok((f(a), (q - p) as nat)),
        Err(e) => Err(e@),
    }
}

/// The value of an optional node.
pub open spec fn view_option_node(o: Option<Box<ASTNode>>) -> Option<Box<Ast>> {
    match o {
        Some(e) => Some(Box::new(e.view_ast())),
        None => None,
    }
}

/// The same for a parse that builds an optional node.
pub open spec fn option_result(r: Result<(Option<Box<ASTNode>>, usize), ParseError>, p: nat) -> Parsed<
    Option<Box<Ast>>,
> {
    match r {
        Ok((o, q)) => Ok((view_option_node(o), (q - p) as nat)),
        Err(e) => Err(e@),
    }
}

/// A success ends between `p` and the end of the tokens; an error describes
/// the token it names.
pub open spec fn placed<A>(r: Result<(A, usize), ParseError>, t: Seq<TokenView>, p: nat) -> bool {
    match r {
        Ok((_, q)) => p <= q <= t.len(),
        Err(e) => e.reports(t),
    }
}

/// A recursive-descent parser over a sequence of tokens.
#[derive(Debug)]
pub struct Parser {
    tokens: Vec<Token>,
    current: usize,
}

impl Parser {
    /// The tokens being parsed.
    pub closed spec fn tokens_view(&self) -> Seq<TokenView> {
        token_views(self.tokens@)
    }

    /// The index of the next token to parse.
    pub closed spec fn position(&self) -> nat {
        self.current as nat
    }

    /// The position lies within the tokens.
    pub closed spec fn wf(&self) -> bool {
        self.current <= self.tokens.len()
    }

    /// A parser at the first of `tokens`.
    pub fn new(tokens: Vec<Token>) -> (r: Parser)
        ensures
            r.wf(),
            r.tokens_view() == token_views(tokens@),
            r.position() == 0,
    {
        Parser { tokens, current: 0 }
    }

    /// The kind of the token at `pos`; past the last token, the end of input.
    fn kind_at(&self, pos: usize) -> (k: TokenType)
        ensures
            k == kind_at(self.tokens_view(), pos as nat),
            k != TokenType::EOF ==> pos < self.tokens.len(),
    {
        if pos < self.tokens.len() {
            self.tokens[pos].token_type
        } else {
            TokenType::EOF
        }
    }

    /// Whether the token at `pos` is of kind `k`.
    fn check(&self, pos: usize, k: TokenType) -> (r: bool)
        ensures
            r == (kind_at(self.tokens_view(), pos as nat) == k),
            r && k != TokenType::EOF ==> pos < self.tokens.len(),
    {
        self.kind_at(pos) == k
    }

    /// The text of the token at `pos`.
    fn text_at(&self, pos: usize) -> (s: String)
        requires
            pos < self.tokens.len(),
        ensures
            s@ == text_at(self.tokens_view(), pos as nat),
    {
        self.tokens[pos].lexeme.clone()
    }

    /// Whether the token at `pos` spells `word`.
    fn text_is(&self, pos: usize, word: &str) -> (r: bool)
        requires
            pos < self.tokens.len(),
        ensures
            r == (text_at(self.tokens_view(), pos as nat) == word@),
    {
        let w = String::from_str(word);
        self.tokens[pos].lexeme == w
    }

    /// The error of kind `kind` at the token at `pos`.
    fn error(&self, pos: usize, kind: ParseErrorKind, context: &str) -> (e: ParseError)
        ensures
            e@ == (SyntaxError { kind, at: pos as nat }),
            e.reports(self.tokens_view()),
    {
        let found = self.kind_at(pos);
        let line = if pos < self.tokens.len() {
            self.tokens[pos].line
        } else {
            0
        };
        let mut message = String::from_str(context);
        message.append(" - got ");
        message.append(found.name());
        ParseError { kind, position: pos, found, line, message }
    }

    /// Takes the token at `pos`, which must be of kind `k`.
    fn consume(&self, pos: usize, k: TokenType, context: &str) -> (r: Result<usize, ParseError>)
        requires
            k != TokenType::EOF,
        ensures
            match r {
                Ok(q) => kind_at(self.tokens_view(), pos as nat) == k && q == pos + 1 && q
                    <= self.tokens.len(),
                Err(e) => kind_at(self.tokens_view(), pos as nat) != k && e@ == (SyntaxError {
                    kind: ParseErrorKind::Expected(k),
                    at: pos as nat,
                }) && e.reports(self.tokens_view()),
            },
    {
        if self.check(pos, k) {
            Ok(pos + 1)
        } else {
            Err(self.error(pos, ParseErrorKind::Expected(k), context))
        }
    }

    /// The operator that `k` stands for at precedence level `level`.
    fn binary_operator(level: usize, k: TokenType) -> (r: Option<String>)
        ensures
            match r {
                Some(s) => binary_op(level as nat, k) == Some(s@),
                None => binary_op(level as nat, k) is None,
            },
    {
        let op = if level == 0 && k == TokenType::Pipe {
            "|"
        } else if level == 1 && k == TokenType::Ampersand {
            "&"
        } else if level == 2 && k == TokenType::DoubleEqual {
            "=="
        } else if level == 2 && k == TokenType::NotEqual {
            "!="
        } else if level == 3 && k == TokenType::LessThan {
            "<"
        } else if level == 3 && k == TokenType::GreaterThan {
            ">"
        } else if level == 3 && k == TokenType::LessEqual {
            "<="
        } else if level == 3 && k == TokenType::GreaterEqual {
            ">="
        } else if level == 4 && k == TokenType::Plus {
            "+"
        } else if level == 4 && k == TokenType::Minus {
            "-"
        } else if level == 5 && k == TokenType::Asterisk {
            "*"
        } else if level == 5 && k == TokenType::Slash {
            "/"
        } else {
            return None;
        };
        Some(String::from_str(op))
    }

    /// The prefix operator that `k` stands for.
    fn unary_operator(k: TokenType) -> (r: Option<String>)
        ensures
            match r {
                Some(s) => unary_op(k) == Some(s@),
                None => unary_op(k) is None,
            },
    {
        let op = if k == TokenType::Minus {
            "-"
        } else if k == TokenType::Bang {
            "!"
        } else if k == TokenType::Tilde {
            "~"
        } else {
            return None;
        };
        Some(String::from_str(op))
    }

    /// An expression: a logical-or chain, optionally the condition of
    /// `? then : else`.
    #[verifier::spinoff_prover]
    fn parse_expression(&self, pos: usize) -> (r: Result<(ASTNode, usize), ParseError>)
        requires
            pos <= self.tokens.len(),
        ensures
            node_result(r, pos as nat) == expression(self.tokens_view(), pos as nat),
            placed(r, self.tokens_view(), pos as nat),
        decreases self.tokens@.len() - pos, 30int,
    {
        proof {
            reveal_with_fuel(expression, 1);
        }
        let (cond, at1) = self.parse_binary(pos, 0)?;
        if self.check(at1, TokenType::Question) {
            let (then_expr, at2) = self.parse_expression(at1 + 1)?;
            let at3 = self.consume(at2, TokenType::Colon, "Expected ':' in ternary expression")?;
            let (else_expr, at4) = self.parse_expression(at3)?;
            return Ok((
                ASTNode::ConditionalExpression {
                    condition: Box::new(cond),
                    then_expr: Box::new(then_expr),
                    else_expr: Box::new(else_expr),
                },
                at4,
            ));
        }
        Ok((cond, at1))
    }

    /// A left-associative chain of the operators of `level` (0: `|`, 1: `&`,
    /// 2: `== !=`, 3: `< > <= >=`, 4: `+ -`, 5: `* /`).
    #[verifier::spinoff_prover]
    fn parse_binary(&self, pos: usize, level: usize) -> (r: Result<(ASTNode, usize), ParseError>)
        requires
            pos <= self.tokens.len(),
            level <= 5,
        ensures
            node_result(r, pos as nat) == binary(self.tokens_view(), pos as nat, level as nat),
            placed(r, self.tokens_view(), pos as nat),
        decreases self.tokens@.len() - pos, binary_rank(level as nat) as int,
    {
        proof {
            reveal_with_fuel(binary, 1);
            reveal_with_fuel(binary_rest, 1);
        }
        let ghost t = self.tokens_view();
        let (mut expr, mut cur) = if level < 5 {
            self.parse_binary(pos, level + 1)?
        } else {
            self.parse_unary(pos)?
        };
        loop
            invariant
                pos <= cur <= self.tokens.len(),
                level <= 5,
                t == self.tokens_view(),
                binary(t, pos as nat, level as nat) == shift(
                    binary_rest(t, cur as nat, level as nat, expr.view_ast()),
                    (cur - pos) as nat,
                ),
            decreases self.tokens@.len() - cur,
        {
            proof {
                reveal_with_fuel(binary, 1);
                reveal_with_fuel(binary_rest, 1);
            }
            let k = self.kind_at(cur);
            match Self::binary_operator(level, k) {
                None => return Ok((expr, cur)),
                Some(op) => {
                    let (right, next) = if level < 5 {
                        self.parse_binary(cur + 1, level + 1)?
                    } else {
                        self.parse_unary(cur + 1)?
                    };
                    expr = ASTNode::BinaryExpression { left: Box::new(expr), operator: op, right: Box::new(right) };
                    cur = next;
                },
            }
        }
    }

    /// Prefix operators, then a type cast, else a postfix chain.
    #[verifier::spinoff_prover]
    fn parse_unary(&self, pos: usize) -> (r: Result<(ASTNode, usize), ParseError>)
        requires
            pos <= self.tokens.len(),
        ensures
            node_result(r, pos as nat) == unary(self.tokens_view(), pos as nat),
            placed(r, self.tokens_view(), pos as nat),
        decreases self.tokens@.len() - pos, 22int,
    {
        proof {
            reveal_with_fuel(unary, 1);
        }
        let k = self.kind_at(pos);
        if let Some(operator) = Self::unary_operator(k) {
            let (operand, q) = self.parse_unary(pos + 1)?;
            return Ok((ASTNode::UnaryExpression { operator, operand: Box::new(operand) }, q));
        }
        if k == TokenType::Type && self.check(pos + 1, TokenType::Slash) {
            return self.parse_type_cast(pos);
        }
        self.parse_call(pos)
    }

    /// `Type/(expr)`
    #[verifier::spinoff_prover]
    fn parse_type_cast(&self, pos: usize) -> (r: Result<(ASTNode, usize), ParseError>)
        requires
            pos <= self.tokens.len(),
        ensures
            node_result(r, pos as nat) == type_cast(self.tokens_view(), pos as nat),
            placed(r, self.tokens_view(), pos as nat),
        decreases self.tokens@.len() - pos, 21int,
    {
        proof {
            reveal_with_fuel(type_cast, 1);
        }
        let at1 = self.consume(pos, TokenType::Type, "Expected type name")?;
        let target_type = self.text_at(pos);
        let at2 = self.consume(at1, TokenType::Slash, "Expected '/' after type name")?;
        let at3 = self.consume(at2, TokenType::LeftParen, "Expected '(' after type cast")?;
        let (expression, at4) = self.parse_expression(at3)?;
        let at5 = self.consume(at4, TokenType::RightParen, "Expected ')' after type cast expression")?;
        Ok((ASTNode::TypeCast { expression: Box::new(expression), target_type }, at5))
    }

    /// A primary expression followed by `.name` and `.name(args)` suffixes.
    #[verifier::spinoff_prover]
    fn parse_call(&self, pos: usize) -> (r: Result<(ASTNode, usize), ParseError>)
        requires
            pos <= self.tokens.len(),
        ensures
            node_result(r, pos as nat) == call(self.tokens_view(), pos as nat),
            placed(r, self.tokens_view(), pos as nat),
        decreases self.tokens@.len() - pos, 20int,
    {
        proof {
            reveal_with_fuel(call, 1);
            reveal_with_fuel(call_rest, 1);
        }
        let ghost t = self.tokens_view();
        let (mut expr, mut cur) = self.parse_primary(pos)?;
        loop
            invariant
                pos <= cur <= self.tokens.len(),
                t == self.tokens_view(),
                call(t, pos as nat) == shift(call_rest(t, cur as nat, expr.view_ast()), (cur - pos) as nat),
            decreases self.tokens@.len() - cur,
        {
            proof {
                reveal_with_fuel(call, 1);
                reveal_with_fuel(call_rest, 1);
            }
            if !self.check(cur, TokenType::Dot) {
                return Ok((expr, cur));
            }
            let at1 = self.consume(cur + 1, TokenType::Identifier, "Expected property name after '.'")?;
            let name = self.text_at(cur + 1);
            if self.check(at1, TokenType::LeftParen) {
                let (args, at2) = self.parse_arguments(at1 + 1, TokenType::RightParen)?;
                let at3 = self.consume(at2, TokenType::RightParen, "Expected ')' after method arguments")?;
                expr = ASTNode::MethodCall { object: Box::new(expr), method: name, arguments: args };
                cur = at3;
            } else {
                expr = ASTNode::PropertyAccess { object: Box::new(expr), property: name };
                cur = at1;
            }
        }
    }

    /// Comma-separated expressions up to (not including) a token of kind
    /// `close`.
    #[verifier::spinoff_prover]
    fn parse_arguments(&self, pos: usize, close: TokenType) -> (r: Result<(Vec<ASTNode>, usize), ParseError>)
        requires
            pos <= self.tokens.len(),
        ensures
            nodes_result(r, pos as nat) == arguments(self.tokens_view(), pos as nat, close),
            placed(r, self.tokens_view(), pos as nat),
        decreases self.tokens@.len() - pos, 32int,
    {
        proof {
            reveal_with_fuel(arguments, 1);
            reveal_with_fuel(items_rest, 1);
        }
        let ghost t = self.tokens_view();
        let mut items: Vec<ASTNode> = Vec::new();
        proof {
            lemma_view_empty();
        }
        if self.check(pos, close) {
            return Ok((items, pos));
        }
        let mut cur = pos;
        loop
            invariant
                pos <= cur <= self.tokens.len(),
                t == self.tokens_view(),
                arguments(t, pos as nat, close) == shift(
                    items_rest(t, cur as nat, view_nodes(items@)),
                    (cur - pos) as nat,
                ),
            decreases self.tokens@.len() - cur,
        {
            proof {
                reveal_with_fuel(arguments, 1);
                reveal_with_fuel(items_rest, 1);
            }
            let (e, q) = self.parse_expression(cur)?;
            proof {
                lemma_view_nodes_push(items@, e);
            }
            items.push(e);
            if self.check(q, TokenType::Comma) {
                cur = q + 1;
            } else {
                return Ok((items, q));
            }
        }
    }

    /// An array or object literal, a literal, an identifier or a call
    /// `name(args)`.
    #[verifier::spinoff_prover]
    fn parse_primary(&self, pos: usize) -> (r: Result<(ASTNode, usize), ParseError>)
        requires
            pos <= self.tokens.len(),
        ensures
            node_result(r, pos as nat) == primary(self.tokens_view(), pos as nat),
            placed(r, self.tokens_view(), pos as nat),
        decreases self.tokens@.len() - pos, 19int,
    {
        proof {
            reveal_with_fuel(primary, 1);
        }
        let k = self.kind_at(pos);
        if k == TokenType::LeftBracket {
            return self.parse_array(pos + 1);
        }
        if k == TokenType::LeftBrace {
            return self.parse_object(pos + 1);
        }
        if k == TokenType::Number || k == TokenType::String {
            return Ok((ASTNode::Literal(self.text_at(pos)), pos + 1));
        }
        if k == TokenType::Identifier {
            let name = self.text_at(pos);
            if self.check(pos + 1, TokenType::LeftParen) {
                let (args, at1) = self.parse_arguments(pos + 2, TokenType::RightParen)?;
                let at2 = self.consume(at1, TokenType::RightParen, "Expected ')' after function arguments")?;
                return Ok((ASTNode::FunctionCall { function: name, arguments: args }, at2));
            }
            return Ok((ASTNode::Identifier(name), pos + 1));
        }
        Err(self.error(pos, ParseErrorKind::ExpectedExpression, "Expected expression"))
    }

    /// `elements]` after `[`.
    #[verifier::spinoff_prover]
    fn parse_array(&self, pos: usize) -> (r: Result<(ASTNode, usize), ParseError>)
        requires
            pos <= self.tokens.len(),
        ensures
            node_result(r, pos as nat) == array(self.tokens_view(), pos as nat),
            placed(r, self.tokens_view(), pos as nat),
        decreases self.tokens@.len() - pos, 33int,
    {
        proof {
            reveal_with_fuel(array, 1);
        }
        let (elements, at1) = self.parse_arguments(pos, TokenType::RightBracket)?;
        let at2 = self.consume(at1, TokenType::RightBracket, "Expected ']' after array elements")?;
        Ok((ASTNode::ArrayLiteral(elements), at2))
    }

    /// `name: expr, ... }` after `{`.
    #[verifier::spinoff_prover]
    fn parse_object(&self, pos: usize) -> (r: Result<(ASTNode, usize), ParseError>)
        requires
            pos <= self.tokens.len(),
        ensures
            node_result(r, pos as nat) == object(self.tokens_view(), pos as nat),
            placed(r, self.tokens_view(), pos as nat),
        decreases self.tokens@.len() - pos, 34int,
    {
        proof {
            reveal_with_fuel(object, 1);
            reveal_with_fuel(properties_rest, 1);
        }
        let ghost t = self.tokens_view();
        let mut properties: Vec<(String, ASTNode)> = Vec::new();
        proof {
            lemma_view_empty();
        }
        if self.check(pos, TokenType::RightBrace) {
            return Ok((ASTNode::ObjectLiteral(properties), pos + 1));
        }
        let mut cur = pos;
        loop
            invariant
                pos <= cur <= self.tokens.len(),
                t == self.tokens_view(),
                kind_at(t, pos as nat) != TokenType::RightBrace,
                properties_rest(t, pos as nat, Seq::empty()) == shift(
                    properties_rest(t, cur as nat, view_properties(properties@)),
                    (cur - pos) as nat,
                ),
            decreases self.tokens@.len() - cur,
        {
            proof {
                reveal_with_fuel(object, 1);
                reveal_with_fuel(properties_rest, 1);
            }
            let at1 = self.consume(cur, TokenType::Identifier, "Expected property name")?;
            let key = self.text_at(cur);
            let at2 = self.consume(at1, TokenType::Colon, "Expected ':' after property name")?;
            let (value, at3) = self.parse_expression(at2)?;
            proof {
                lemma_view_properties_push(properties@, (key, value));
            }
            properties.push((key, value));
            if self.check(at3, TokenType::Comma) {
                cur = at3 + 1;
            } else {
                let at4 = self.consume(at3, TokenType::RightBrace, "Expected '}' after object properties")?;
                return Ok((ASTNode::ObjectLiteral(properties), at4));
            }
        }
    }

    /// Parses the whole token sequence from the current position into a
    /// `Program`: statements until the end of input. On success the position
    /// moves past the last statement; on failure it stays.
    pub fn parse(&mut self) -> (r: Result<ASTNode, ParseError>)
        requires
            old(self).wf(),
        ensures
            final(self).wf(),
            final(self).tokens_view() == old(self).tokens_view(),
            r is Ok ==> kind_at(final(self).tokens_view(), final(self).position()) == TokenType::EOF,
            r is Err ==> final(self).position() == old(self).position(),
            match r {
                Ok(node) => program(old(self).tokens_view(), old(self).position()) == Ok::<Ast, SyntaxError>(
                    node.view_ast(),
                ),
                Err(e) => program(old(self).tokens_view(), old(self).position()) == Err::<Ast, SyntaxError>(e@)
                    && e.reports(old(self).tokens_view()),
            },
    {
        let ghost t = self.tokens_view();
        let start = self.current;
        let mut cur = self.current;
        let mut statements: Vec<ASTNode> = Vec::new();
        proof {
            lemma_view_empty();
            reveal_with_fuel(program_rest, 1);
        }
        while !self.check(cur, TokenType::EOF)
            invariant
                start <= cur <= self.tokens.len(),
                self.tokens@ == old(self).tokens@,
                self.current == old(self).current,
                start == old(self).current,
                t == self.tokens_view(),
                program_rest(t, start as nat, Seq::empty()) == shift(
                    program_rest(t, cur as nat, view_nodes(statements@)),
                    (cur - start) as nat,
                ),
            decreases self.tokens@.len() - cur,
        {
            proof {
                reveal_with_fuel(program_rest, 1);
            }
            let (stmt, next) = self.parse_statement(cur)?;
            proof {
                lemma_view_nodes_push(statements@, stmt);
            }
            statements.push(stmt);
            cur = next;
        }
        proof {
            reveal_with_fuel(program_rest, 1);
        }
        self.current = cur;
        Ok(ASTNode::Program(statements))
    }

    /// One statement, chosen by its first token.
    #[verifier::spinoff_prover]
    fn parse_statement(&self, pos: usize) -> (r: Result<(ASTNode, usize), ParseError>)
        requires
            pos <= self.tokens.len(),
        ensures
            node_result(r, pos as nat) == statement(self.tokens_view(), pos as nat),
            placed(r, self.tokens_view(), pos as nat),
            r matches Ok((_, q)) ==> q > pos,
        decreases self.tokens@.len() - pos, 40int,
    {
        proof {
            reveal_with_fuel(statement, 1);
        }
        let k = self.kind_at(pos);
        match k {
            TokenType::Use => self.parse_use_statement(pos + 1),
            TokenType::Return => self.parse_return_statement(pos + 1),
            TokenType::If => self.parse_if_statement(pos + 1),
            TokenType::While => self.parse_while_loop(pos + 1),
            TokenType::For => self.parse_for_loop(pos + 1),
            TokenType::Try => self.parse_try_catch(pos + 1),
            TokenType::Class => self.parse_class_declaration(pos + 1),
            TokenType::Match => {
                let (m, q) = self.parse_match_expression(pos + 1)?;
                Ok((ASTNode::ExpressionStatement(Box::new(m)), q))
            },
            TokenType::LeftBrace => {
                let (stmts, q) = self.parse_block(pos + 1, "Expected '}' after block")?;
                Ok((ASTNode::Block(stmts), q))
            },
            TokenType::Type => self.parse_variable_declaration(pos),
            TokenType::Identifier => {
                if self.check(pos + 1, TokenType::Slash) {
                    self.parse_variable_declaration(pos)
                } else {
                    self.parse_expression_statement(pos)
                }
            },
            TokenType::Slash => self.parse_function_declaration(pos + 1),
            _ => Err(self.error(pos, ParseErrorKind::UnexpectedToken, "Unexpected token")),
        }
    }

    /// `[name];` after `use`.
    #[verifier::spinoff_prover]
    fn parse_use_statement(&self, pos: usize) -> (r: Result<(ASTNode, usize), ParseError>)
        requires
            pos <= self.tokens.len(),
        ensures
            node_result(r, pos as nat) == use_statement(self.tokens_view(), pos as nat),
            placed(r, self.tokens_view(), pos as nat),
    {
        proof {
            reveal_with_fuel(use_statement, 1);
        }
        let at1 = self.consume(pos, TokenType::LeftBracket, "Expected '[' after 'use'")?;
        let at2 = self.consume(at1, TokenType::Identifier, "Expected package name")?;
        let package = self.text_at(at1);
        let at3 = self.consume(at2, TokenType::RightBracket, "Expected ']' after package name")?;
        let at4 = self.consume(at3, TokenType::Semicolon, "Expected ';' after use statement")?;
        Ok((ASTNode::UseStatement(package), at4))
    }

    /// `expr;` after `return`.
    #[verifier::spinoff_prover]
    fn parse_return_statement(&self, pos: usize) -> (r: Result<(ASTNode, usize), ParseError>)
        requires
            pos <= self.tokens.len(),
        ensures
            node_result(r, pos as nat) == return_statement(self.tokens_view(), pos as nat),
            placed(r, self.tokens_view(), pos as nat),
        decreases self.tokens@.len() - pos, 35int,
    {
        proof {
            reveal_with_fuel(return_statement, 1);
        }
        let (value, at1) = self.parse_expression(pos)?;
        let at2 = self.consume(at1, TokenType::Semicolon, "Expected ';' after return statement")?;
        Ok((ASTNode::ReturnStatement(Box::new(value)), at2))
    }

    /// `Type/name/=expr;`; a plain identifier may stand for the type.
    #[verifier::spinoff_prover]
    fn parse_variable_declaration(&self, pos: usize) -> (r: Result<(ASTNode, usize), ParseError>)
        requires
            pos <= self.tokens.len(),
        ensures
            node_result(r, pos as nat) == variable_declaration(self.tokens_view(), pos as nat),
            placed(r, self.tokens_view(), pos as nat),
            r matches Ok((_, q)) ==> q > pos,
        decreases self.tokens@.len() - pos, 39int,
    {
        proof {
            reveal_with_fuel(variable_declaration, 1);
        }
        let k = self.kind_at(pos);
        if k != TokenType::Type && k != TokenType::Identifier {
            return Err(
                self.error(pos, ParseErrorKind::Expected(TokenType::Type), "Expected type or identifier"),
            );
        }
        let var_type = self.text_at(pos);
        let at1 = self.consume(pos + 1, TokenType::Slash, "Expected '/' after type name")?;
        let at2 = self.consume(at1, TokenType::Identifier, "Expected variable name")?;
        let name = self.text_at(at1);
        let at3 = self.consume(at2, TokenType::Slash, "Expected '/' after variable name")?;
        let at4 = self.consume(at3, TokenType::Equal, "Expected '=' after variable declaration")?;
        let (value, at5) = self.parse_expression(at4)?;
        let at6 = self.consume(at5, TokenType::Semicolon, "Expected ';' after variable declaration")?;
        Ok((ASTNode::VariableDeclaration { var_type, name, value: Box::new(value) }, at6))
    }

    /// `expr;`
    #[verifier::spinoff_prover]
    fn parse_expression_statement(&self, pos: usize) -> (r: Result<(ASTNode, usize), ParseError>)
        requires
            pos <= self.tokens.len(),
        ensures
            node_result(r, pos as nat) == expression_statement(self.tokens_view(), pos as nat),
            placed(r, self.tokens_view(), pos as nat),
            r matches Ok((_, q)) ==> q > pos,
        decreases self.tokens@.len() - pos, 38int,
    {
        proof {
            reveal_with_fuel(expression_statement, 1);
        }
        let (expr, at1) = self.parse_expression(pos)?;
        let at2 = self.consume(at1, TokenType::Semicolon, "Expected ';' after expression")?;
        Ok((ASTNode::ExpressionStatement(Box::new(expr)), at2))
    }

    /// Statements up to a closing brace, which it consumes.
    #[verifier::spinoff_prover]
    fn parse_block(&self, pos: usize, close_message: &str) -> (r: Result<(Vec<ASTNode>, usize), ParseError>)
        requires
            pos <= self.tokens.len(),
        ensures
            nodes_result(r, pos as nat) == block_rest(self.tokens_view(), pos as nat, Seq::empty()),
            placed(r, self.tokens_view(), pos as nat),
        decreases self.tokens@.len() - pos, 45int,
    {
        let ghost t = self.tokens_view();
        let mut stmts: Vec<ASTNode> = Vec::new();
        let mut cur = pos;
        proof {
            lemma_view_empty();
        }
        loop
            invariant
                pos <= cur <= self.tokens.len(),
                t == self.tokens_view(),
                block_rest(t, pos as nat, Seq::empty()) == shift(
                    block_rest(t, cur as nat, view_nodes(stmts@)),
                    (cur - pos) as nat,
                ),
            decreases self.tokens@.len() - cur,
        {
            proof {
                reveal_with_fuel(block_rest, 1);
            }
            let k = self.kind_at(cur);
            if k == TokenType::RightBrace {
                return Ok((stmts, cur + 1));
            }
            if k == TokenType::EOF {
                return Err(self.error(cur, ParseErrorKind::Expected(TokenType::RightBrace), close_message));
            }
            let (stmt, next) = self.parse_statement(cur)?;
            proof {
                lemma_view_nodes_push(stmts@, stmt);
            }
            stmts.push(stmt);
            cur = next;
        }
    }

    /// `{ statements }`
    #[verifier::spinoff_prover]
    fn parse_braced(&self, pos: usize, open_message: &str, close_message: &str) -> (r: Result<
        (Vec<ASTNode>, usize),
        ParseError,
    >)
        requires
            pos <= self.tokens.len(),
        ensures
            nodes_result(r, pos as nat) == braced(self.tokens_view(), pos as nat),
            placed(r, self.tokens_view(), pos as nat),
        decreases self.tokens@.len() - pos, 46int,
    {
        proof {
            reveal_with_fuel(braced, 1);
        }
        let at1 = self.consume(pos, TokenType::LeftBrace, open_message)?;
        self.parse_block(at1, close_message)
    }

    /// `Type name (, Type name)*` up to (not including) `)`; each parameter is
    /// kept as (name, type).
    #[verifier::spinoff_prover]
    fn parse_parameters(&self, pos: usize) -> (r: Result<(Vec<(String, String)>, usize), ParseError>)
        requires
            pos <= self.tokens.len(),
        ensures
            outcome(r, pos as nat, |v: Vec<(String, String)>| view_params(v@)) == parameter_list(
                self.tokens_view(),
                pos as nat,
            ),
            placed(r, self.tokens_view(), pos as nat),
    {
        let ghost t = self.tokens_view();
        let mut params: Vec<(String, String)> = Vec::new();
        proof {
            assert(view_params(params@) =~= Seq::empty());
        }
        if self.check(pos, TokenType::RightParen) {
            return Ok((params, pos));
        }
        let mut cur = pos;
        loop
            invariant
                pos <= cur <= self.tokens.len(),
                t == self.tokens_view(),
                parameter_list(t, pos as nat) == params_rest(t, pos as nat, Seq::empty()),
                params_rest(t, pos as nat, Seq::empty()) == shift(
                    params_rest(t, cur as nat, view_params(params@)),
                    (cur - pos) as nat,
                ),
            decreases self.tokens@.len() - cur,
        {
            proof {
                reveal_with_fuel(params_rest, 1);
            }
            let q1 = self.consume(cur, TokenType::Type, "Expected parameter type")?;
            let param_type = self.text_at(cur);
            let q2 = self.consume(q1, TokenType::Identifier, "Expected parameter name")?;
            let param_name = self.text_at(q1);
            let ghost before = params@;
            params.push((param_name, param_type));
            proof {
                assert(view_params(params@) =~= view_params(before).push((param_name@, param_type@)));
            }
            if self.check(q2, TokenType::Comma) {
                cur = q2 + 1;
            } else {
                return Ok((params, q2));
            }
        }
    }

    /// Match cases up to the closing brace, which it consumes.
    #[verifier::spinoff_prover]
    fn parse_match_cases(&self, pos: usize) -> (r: Result<(Vec<(ASTNode, Vec<ASTNode>)>, usize), ParseError>)
        requires
            pos <= self.tokens.len(),
        ensures
            outcome(r, pos as nat, |v: Vec<(ASTNode, Vec<ASTNode>)>| view_cases(v@)) == cases_rest(
                self.tokens_view(),
                pos as nat,
                Seq::empty(),
            ),
            placed(r, self.tokens_view(), pos as nat),
        decreases self.tokens@.len() - pos, 37int,
    {
        let ghost t = self.tokens_view();
        let mut cases: Vec<(ASTNode, Vec<ASTNode>)> = Vec::new();
        let mut cur = pos;
        proof {
            lemma_view_empty();
        }
        loop
            invariant
                pos <= cur <= self.tokens.len(),
                t == self.tokens_view(),
                cases_rest(t, pos as nat, Seq::empty()) == shift(
                    cases_rest(t, cur as nat, view_cases(cases@)),
                    (cur - pos) as nat,
                ),
            decreases self.tokens@.len() - cur,
        {
            proof {
                reveal_with_fuel(cases_rest, 1);
            }
            let k = self.kind_at(cur);
            if k == TokenType::RightBrace {
                return Ok((cases, cur + 1));
            }
            if k == TokenType::EOF {
                return Err(
                    self.error(cur, ParseErrorKind::Expected(TokenType::RightBrace), "Expected '}' after match cases"),
                );
            }
            let (pattern, q1) = self.parse_expression(cur)?;
            let q2 = self.consume(q1, TokenType::Arrow, "Expected '=>' after match pattern")?;
            let (body, q3) = self.parse_braced(q2, "Expected '{' before case body", "Expected '}' after case body")?;
            proof {
                lemma_view_cases_push(cases@, (pattern, body));
            }
            cases.push((pattern, body));
            if self.check(q3, TokenType::Comma) {
                cur = q3 + 1;
            } else {
                cur = q3;
            }
        }
    }

    /// `name/(Type name, ...)ReturnType{ body }` after the leading `/`.
    #[verifier::spinoff_prover]
    fn parse_function_declaration(&self, pos: usize) -> (r: Result<(ASTNode, usize), ParseError>)
        requires
            pos <= self.tokens.len(),
        ensures
            node_result(r, pos as nat) == function_declaration(self.tokens_view(), pos as nat),
            placed(r, self.tokens_view(), pos as nat),
        decreases self.tokens@.len() - pos, 35int,
    {
        let ghost t = self.tokens_view();
        proof {
            reveal_with_fuel(function_declaration, 1);
        }
        let at1 = self.consume(pos, TokenType::Identifier, "Expected function name after '/'")?;
        let name = self.text_at(pos);
        let at2 = self.consume(at1, TokenType::Slash, "Expected '/' after function name")?;
        let at3 = self.consume(at2, TokenType::LeftParen, "Expected '(' after function name")?;
        let (params, cur) = self.parse_parameters(at3)?;
        let at4 = self.consume(cur, TokenType::RightParen, "Expected ')' after parameters")?;
        let at5 = self.consume(at4, TokenType::Type, "Expected return type")?;
        let return_type = self.text_at(at4);
        let (body, at6) = self.parse_braced(at5, "Expected '{' before function body", "Expected '}' after function body")?;
        Ok((ASTNode::FunctionDeclaration { name, params, return_type, body }, at6))
    }

    /// `(expr) { ... } [else { ... }]` after `if`.
    #[verifier::spinoff_prover]
    fn parse_if_statement(&self, pos: usize) -> (r: Result<(ASTNode, usize), ParseError>)
        requires
            pos <= self.tokens.len(),
        ensures
            node_result(r, pos as nat) == if_statement(self.tokens_view(), pos as nat),
            placed(r, self.tokens_view(), pos as nat),
        decreases self.tokens@.len() - pos, 35int,
    {
        proof {
            reveal_with_fuel(if_statement, 1);
        }
        let at1 = self.consume(pos, TokenType::LeftParen, "Expected '(' after 'if'")?;
        let (condition, at2) = self.parse_expression(at1)?;
        let at3 = self.consume(at2, TokenType::RightParen, "Expected ')' after if condition")?;
        let (then_branch, at4) = self.parse_braced(at3, "Expected '{' before if branch", "Expected '}' after if branch")?;
        if self.check(at4, TokenType::Else) {
            let (else_branch, at5) = self.parse_braced(
                at4 + 1,
                "Expected '{' before else branch",
                "Expected '}' after else branch",
            )?;
            return Ok((
                ASTNode::IfStatement { condition: Box::new(condition), then_branch, else_branch: Some(else_branch) },
                at5,
            ));
        }
        Ok((ASTNode::IfStatement { condition: Box::new(condition), then_branch, else_branch: None }, at4))
    }

    /// `(expr) { ... }` after `while`.
    #[verifier::spinoff_prover]
    fn parse_while_loop(&self, pos: usize) -> (r: Result<(ASTNode, usize), ParseError>)
        requires
            pos <= self.tokens.len(),
        ensures
            node_result(r, pos as nat) == while_statement(self.tokens_view(), pos as nat),
            placed(r, self.tokens_view(), pos as nat),
        decreases self.tokens@.len() - pos, 35int,
    {
        proof {
            reveal_with_fuel(while_statement, 1);
        }
        let at1 = self.consume(pos, TokenType::LeftParen, "Expected '(' after 'while'")?;
        let (condition, at2) = self.parse_expression(at1)?;
        let at3 = self.consume(at2, TokenType::RightParen, "Expected ')' after while condition")?;
        let (body, at4) = self.parse_braced(at3, "Expected '{' before while body", "Expected '}' after while body")?;
        Ok((ASTNode::WhileLoop { condition: Box::new(condition), body }, at4))
    }

    /// An expression, or nothing where a token of kind `stop` follows at once.
    #[verifier::spinoff_prover]
    fn parse_optional_expression(&self, pos: usize, stop: TokenType) -> (r: Result<
        (Option<Box<ASTNode>>, usize),
        ParseError,
    >)
        requires
            pos <= self.tokens.len(),
        ensures
            option_result(r, pos as nat) == optional_expression(self.tokens_view(), pos as nat, stop),
            placed(r, self.tokens_view(), pos as nat),
        decreases self.tokens@.len() - pos, 31int,
    {
        proof {
            reveal_with_fuel(optional_expression, 1);
        }
        if self.check(pos, stop) {
            return Ok((None, pos));
        }
        let (e, q) = self.parse_expression(pos)?;
        Ok((Some(Box::new(e)), q))
    }

    /// `(init?; cond?; incr?) { ... }` after `for`.
    #[verifier::spinoff_prover]
    fn parse_for_loop(&self, pos: usize) -> (r: Result<(ASTNode, usize), ParseError>)
        requires
            pos <= self.tokens.len(),
        ensures
            node_result(r, pos as nat) == for_statement(self.tokens_view(), pos as nat),
            placed(r, self.tokens_view(), pos as nat),
        decreases self.tokens@.len() - pos, 35int,
    {
        proof {
            reveal_with_fuel(for_statement, 1);
        }
        let at1 = self.consume(pos, TokenType::LeftParen, "Expected '(' after 'for'")?;
        let (initializer, at2) = self.parse_optional_expression(at1, TokenType::Semicolon)?;
        let at3 = self.consume(at2, TokenType::Semicolon, "Expected ';' after for initializer")?;
        let (condition, at4) = self.parse_optional_expression(at3, TokenType::Semicolon)?;
        let at5 = self.consume(at4, TokenType::Semicolon, "Expected ';' after for condition")?;
        let (increment, at6) = self.parse_optional_expression(at5, TokenType::RightParen)?;
        let at7 = self.consume(at6, TokenType::RightParen, "Expected ')' after for clauses")?;
        let (body, at8) = self.parse_braced(at7, "Expected '{' before for body", "Expected '}' after for body")?;
        Ok((ASTNode::ForLoop { initializer, condition, increment, body }, at8))
    }

    /// `{ ... } catch (binding) { ... } [finally { ... }]` after `try`. The
    /// binding is `Type name`, `name` or empty; only the name is kept.
    #[verifier::spinoff_prover]
    fn parse_try_catch(&self, pos: usize) -> (r: Result<(ASTNode, usize), ParseError>)
        requires
            pos <= self.tokens.len(),
        ensures
            node_result(r, pos as nat) == try_statement(self.tokens_view(), pos as nat),
            placed(r, self.tokens_view(), pos as nat),
        decreases self.tokens@.len() - pos, 47int,
    {
        proof {
            reveal_with_fuel(try_statement, 1);
            reveal_with_fuel(catch_binding, 1);
        }
        let (try_block, at1) = self.parse_braced(pos, "Expected '{' after 'try'", "Expected '}' after try block")?;
        let at2 = self.consume(at1, TokenType::Catch, "Expected 'catch' after try block")?;
        let at3 = self.consume(at2, TokenType::LeftParen, "Expected '(' after 'catch'")?;
        let mut catch_variable: Option<String> = None;
        let mut at4 = at3;
        if self.check(at3, TokenType::Type) {
            at4 = self.consume(at3 + 1, TokenType::Identifier, "Expected error variable name")?;
            catch_variable = Some(self.text_at(at3 + 1));
        } else if self.check(at3, TokenType::Identifier) {
            catch_variable = Some(self.text_at(at3));
            at4 = at3 + 1;
        }
        let at5 = self.consume(at4, TokenType::RightParen, "Expected ')' after catch declaration")?;
        let (catch_block, at6) = self.parse_braced(at5, "Expected '{' before catch block", "Expected '}' after catch block")?;
        if self.check(at6, TokenType::Finally) {
            let (finally_block, at7) = self.parse_braced(
                at6 + 1,
                "Expected '{' before finally block",
                "Expected '}' after finally block",
            )?;
            return Ok((
                ASTNode::TryCatch { try_block, catch_variable, catch_block, finally_block: Some(finally_block) },
                at7,
            ));
        }
        Ok((ASTNode::TryCatch { try_block, catch_variable, catch_block, finally_block: None }, at6))
    }

    /// `extends Parent`, or nothing.
    #[verifier::spinoff_prover]
    fn parse_class_parent(&self, pos: usize) -> (r: Result<(Option<String>, usize), ParseError>)
        requires
            pos <= self.tokens.len(),
        ensures
            outcome(r, pos as nat, |o: Option<String>| view_opt_text(o)) == class_parent(
                self.tokens_view(),
                pos as nat,
            ),
            placed(r, self.tokens_view(), pos as nat),
    {
        proof {
            reveal_with_fuel(class_parent, 1);
        }
        if self.check(pos, TokenType::Identifier) && self.text_is(pos, "extends") {
            let q = self.consume(pos + 1, TokenType::Type, "Expected parent class name")?;
            return Ok((Some(self.text_at(pos + 1)), q));
        }
        Ok((None, pos))
    }

    /// `implements Type (, Type)*`, or nothing.
    #[verifier::spinoff_prover]
    fn parse_class_interfaces(&self, pos: usize) -> (r: Result<(Vec<String>, usize), ParseError>)
        requires
            pos <= self.tokens.len(),
        ensures
            outcome(r, pos as nat, |v: Vec<String>| view_texts(v@)) == class_interfaces(
                self.tokens_view(),
                pos as nat,
            ),
            placed(r, self.tokens_view(), pos as nat),
    {
        let ghost t = self.tokens_view();
        proof {
            reveal_with_fuel(class_interfaces, 1);
        }
        let mut implements: Vec<String> = Vec::new();
        proof {
            assert(view_texts(implements@) =~= Seq::empty());
        }
        if !(self.check(pos, TokenType::Identifier) && self.text_is(pos, "implements")) {
            return Ok((implements, pos));
        }
        let first = pos + 1;
        let mut cur = first;
        loop
            invariant
                first <= cur <= self.tokens.len(),
                first == pos + 1,
                t == self.tokens_view(),
                class_interfaces(t, pos as nat) == shift(interfaces_rest(t, first as nat, Seq::empty()), 1),
                interfaces_rest(t, first as nat, Seq::empty()) == shift(
                    interfaces_rest(t, cur as nat, view_texts(implements@)),
                    (cur - first) as nat,
                ),
            decreases self.tokens@.len() - cur,
        {
            proof {
                reveal_with_fuel(interfaces_rest, 1);
            }
            let q = self.consume(cur, TokenType::Type, "Expected interface name")?;
            let ghost before = implements@;
            let interface = self.text_at(cur);
            implements.push(interface);
            proof {
                assert(view_texts(implements@) =~= view_texts(before).push(interface@));
            }
            if self.check(q, TokenType::Comma) {
                cur = q + 1;
            } else {
                return Ok((implements, q));
            }
        }
    }

    /// Properties and methods up to the closing brace, which it consumes.
    #[verifier::spinoff_prover]
    fn parse_class_members(&self, pos: usize) -> (r: Result<((Vec<ASTNode>, Vec<ASTNode>), usize), ParseError>)
        requires
            pos <= self.tokens.len(),
        ensures
            outcome(
                r,
                pos as nat,
                |m: (Vec<ASTNode>, Vec<ASTNode>)| (view_nodes(m.0@), view_nodes(m.1@)),
            ) == members_rest(self.tokens_view(), pos as nat, Seq::empty(), Seq::empty()),
            placed(r, self.tokens_view(), pos as nat),
        decreases self.tokens@.len() - pos, 41int,
    {
        let ghost t = self.tokens_view();
        let mut methods: Vec<ASTNode> = Vec::new();
        let mut properties: Vec<ASTNode> = Vec::new();
        let mut m = pos;
        proof {
            lemma_view_empty();
        }
        loop
            invariant
                pos <= m <= self.tokens.len(),
                t == self.tokens_view(),
                members_rest(t, pos as nat, Seq::empty(), Seq::empty()) == shift(
                    members_rest(t, m as nat, view_nodes(methods@), view_nodes(properties@)),
                    (m - pos) as nat,
                ),
            decreases self.tokens@.len() - m,
        {
            proof {
                reveal_with_fuel(members_rest, 1);
            }
            let k = self.kind_at(m);
            if k == TokenType::RightBrace {
                return Ok(((methods, properties), m + 1));
            }
            if k == TokenType::EOF {
                return Err(
                    self.error(m, ParseErrorKind::Expected(TokenType::RightBrace), "Expected '}' after class body"),
                );
            }
            if k == TokenType::Type || k == TokenType::Identifier {
                let (property, q) = self.parse_variable_declaration(m)?;
                proof {
                    lemma_view_nodes_push(properties@, property);
                }
                properties.push(property);
                m = q;
            } else if k == TokenType::Slash {
                let (method, q) = self.parse_function_declaration(m + 1)?;
                proof {
                    lemma_view_nodes_push(methods@, method);
                }
                methods.push(method);
                m = q;
            } else {
                return Err(
                    self.error(m, ParseErrorKind::ExpectedMember, "Expected property or method declaration"),
                );
            }
        }
    }

    /// `/name/ [extends Type] [implements Type, ...] { members }` after
    /// `class`. `extends` and `implements` are plain identifiers recognised by
    /// their text, so they stay usable as names elsewhere.
    #[verifier::spinoff_prover]
    fn parse_class_declaration(&self, pos: usize) -> (r: Result<(ASTNode, usize), ParseError>)
        requires
            pos <= self.tokens.len(),
        ensures
            node_result(r, pos as nat) == class_declaration(self.tokens_view(), pos as nat),
            placed(r, self.tokens_view(), pos as nat),
        decreases self.tokens@.len() - pos, 42int,
    {
        proof {
            reveal_with_fuel(class_declaration, 1);
        }
        let at1 = self.consume(pos, TokenType::Slash, "Expected '/' after 'class'")?;
        let at2 = self.consume(at1, TokenType::Identifier, "Expected class name")?;
        let name = self.text_at(at1);
        let at3 = self.consume(at2, TokenType::Slash, "Expected '/' after class name")?;
        let (extends, at4) = self.parse_class_parent(at3)?;
        let (implements, at5) = self.parse_class_interfaces(at4)?;
        let at6 = self.consume(at5, TokenType::LeftBrace, "Expected '{' before class body")?;
        let ((methods, properties), at7) = self.parse_class_members(at6)?;
        Ok((ASTNode::ClassDeclaration { name, extends, implements, methods, properties }, at7))
    }

    /// `(expr) { pattern => { ... }, ... }` after `match`.
    #[verifier::spinoff_prover]
    fn parse_match_expression(&self, pos: usize) -> (r: Result<(ASTNode, usize), ParseError>)
        requires
            pos <= self.tokens.len(),
        ensures
            node_result(r, pos as nat) == match_expression(self.tokens_view(), pos as nat),
            placed(r, self.tokens_view(), pos as nat),
        decreases self.tokens@.len() - pos, 35int,
    {
        let ghost t = self.tokens_view();
        proof {
            reveal_with_fuel(match_expression, 1);
        }
        let at1 = self.consume(pos, TokenType::LeftParen, "Expected '(' after 'match'")?;
        let (scrutinee, at2) = self.parse_expression(at1)?;
        let at3 = self.consume(at2, TokenType::RightParen, "Expected ')' after match expression")?;
        let at4 = self.consume(at3, TokenType::LeftBrace, "Expected '{' before match cases")?;
        let (cases, at5) = self.parse_match_cases(at4)?;
        Ok((ASTNode::MatchExpression { expression: Box::new(scrutinee), cases }, at5))
    }
}

} // verus!
