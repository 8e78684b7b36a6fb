use vstd::prelude::*;
use crate::ast::Ast;
use crate::grammar::{SyntaxError, kind_at, text_at, program, program_rest, statement};
use crate::grammar::{variable_declaration, expression_statement};
use crate::lexer::{TokenType, TokenView, eof_token};
use crate::scanning::{Step, lex, step, skip, scan, tokens_of, ident_end, digits_end, number_end, is_blank, is_digit, is_ident_start};
use crate::scanning::{is_ident_char, single_symbol, double_symbol, word_kind, comment_end, lemma_comment_end, lemma_skip, lemma_ident_end, lemma_digits_end, lemma_step_advances, lemma_scan_kind};

verus! {

// Laws that relate several calls of the scanner and the parser.

/// The shape of every successful scan: one end-of-input token, last, and no
/// unknown token anywhere.
pub open spec fn ends_in_single_eof(ts: Seq<TokenView>) -> bool {
    &&& ts.len() >= 1
    &&& ts.last().kind == TokenType::EOF
    &&& forall|k: int|
        0 <= k < ts.len() - 1 ==> ts[k].kind != TokenType::EOF && ts[k].kind != TokenType::Unknown
}

proof fn lemma_lex_shape(cs: Seq<char>, i: nat, line: nat)
    requires
        i <= cs.len(),
    ensures
        lex(cs, i, line) matches Ok(ts) ==> ends_in_single_eof(ts),
    decreases cs.len() - i,
{
    lemma_step_advances(cs, i, line);
    lemma_scan_kind(cs, i, line);
    if let Step::Produced { token, end, line: l } = step(cs, i, line) {
        lemma_lex_shape(cs, end, l);
        if let Ok(rest) = lex(cs, end, l) {
            if token.kind != TokenType::Unknown {
                let ts = seq![token] + rest;
                assert forall|k: int| 0 <= k < ts.len() - 1 implies ts[k].kind != TokenType::EOF
                    && ts[k].kind != TokenType::Unknown by {
                    if k > 0 {
                        assert(ts[k] == rest[k - 1]);
                    }
                }
                assert(ts.last() == rest.last());
            }
        }
    }
}

/// Scanning always ends: whatever characters the text holds, a successful
/// scan yields a sequence that ends in exactly one end-of-input token and
/// holds no unknown token. The scan fails only where a string literal never
/// closes.
pub proof fn tokenizing_ends_in_one_eof(source: Seq<char>)
    ensures
        tokens_of(source) matches Ok(ts) ==> ends_in_single_eof(ts),
        tokens_of(source) is Err ==> exists|i: nat, line: nat| step(source, i, line) is Unterminated,
{
    lemma_lex_shape(source, 0, 1);
    lemma_lex_error(source, 0, 1);
}

proof fn lemma_lex_error(cs: Seq<char>, i: nat, line: nat)
    requires
        i <= cs.len(),
    ensures
        lex(cs, i, line) is Err ==> exists|j: nat, l: nat| step(cs, j, l) is Unterminated,
    decreases cs.len() - i,
{
    lemma_step_advances(cs, i, line);
    match step(cs, i, line) {
        Step::Produced { end, line: l, .. } => {
            lemma_lex_error(cs, end, l);
        },
        Step::Unterminated { .. } => {
            assert(step(cs, i, line) is Unterminated);
        },
        Step::End { .. } => {},
    }
}

// ---------------------------------------------------------------------------
// Re-scanning the text of a token on its own.
// ---------------------------------------------------------------------------

/// Where a skip stops, no blank, newline or comment starts.
proof fn lemma_skip_stops(cs: Seq<char>, i: nat, line: nat)
    requires
        i <= cs.len(),
    ensures
        skip(cs, i, line).0 < cs.len() ==> ({
            let j = skip(cs, i, line).0;
            &&& !is_blank(cs[j as int])
            &&& cs[j as int] != '\n'
            &&& !(cs[j as int] == '/' && j + 1 < cs.len() && cs[j + 1 as int] == '/')
        }),
    decreases cs.len() - i,
{
    if i < cs.len() {
        if is_blank(cs[i as int]) || cs[i as int] == '\n' {
            lemma_skip_stops(cs, i + 1, if cs[i as int] == '\n' { line + 1 } else { line });
        } else if cs[i as int] == '/' && i + 1 < cs.len() && cs[i + 1 as int] == '/' {
            lemma_comment_end(cs, i + 2);
            lemma_skip_stops(cs, comment_end(cs, i + 2), line);
        }
    }
}

/// A run of identifier characters ends at the same place within a slice
/// that reaches at least to the run's end.
proof fn lemma_ident_end_slice(cs: Seq<char>, a: nat, b: nat, k: nat)
    requires
        a <= k <= b <= cs.len(),
        ident_end(cs, k) <= b,
    ensures
        ident_end(cs.subrange(a as int, b as int), (k - a) as nat) == ident_end(cs, k) - a,
    decreases b - k,
{
    let w = cs.subrange(a as int, b as int);
    lemma_ident_end(cs, k);
    if k < b && is_ident_char(cs[k as int]) {
        assert(w[k - a] == cs[k as int]);
        lemma_ident_end_slice(cs, a, b, k + 1);
        assert((k - a) as nat + 1 == (k + 1 - a) as nat);
    } else if k < b {
        assert(w[k - a] == cs[k as int]);
    }
}

/// The same for runs of digits.
proof fn lemma_digits_end_slice(cs: Seq<char>, a: nat, b: nat, k: nat)
    requires
        a <= k <= b <= cs.len(),
        digits_end(cs, k) <= b,
    ensures
        digits_end(cs.subrange(a as int, b as int), (k - a) as nat) == digits_end(cs, k) - a,
    decreases b - k,
{
    let w = cs.subrange(a as int, b as int);
    lemma_digits_end(cs, k);
    if k < b && is_digit(cs[k as int]) {
        assert(w[k - a] == cs[k as int]);
        lemma_digits_end_slice(cs, a, b, k + 1);
        assert((k - a) as nat + 1 == (k + 1 - a) as nat);
    } else if k < b {
        assert(w[k - a] == cs[k as int]);
    }
}

/// The tokens that scanning the text of `token` on its own must give: the
/// same token on line 1, then the end of input.
pub open spec fn relexes(token: TokenView) -> bool {
    lex(token.lexeme, 0, 1) == Ok::<Seq<TokenView>, nat>(
        seq![TokenView { kind: token.kind, lexeme: token.lexeme, line: 1 }, eof_token(1)],
    )
}

/// Scanning `w` from `0` gives one token of kind `kind` that spans all of it.
proof fn lemma_single_token(w: Seq<char>, kind: TokenType)
    requires
        w.len() > 0,
        kind != TokenType::Unknown,
        skip(w, 0, 1) == (0nat, 1nat),
        scan(w, 0, 1) == (Step::Produced {
            token: TokenView { kind, lexeme: w.subrange(0, w.len() as int), line: 1 },
            end: w.len(),
            line: 1,
        }),
    ensures
        relexes(TokenView { kind, lexeme: w, line: 0 }),
{
    assert(w.subrange(0, w.len() as int) =~= w);
    assert(skip(w, w.len(), 1) == (w.len(), 1nat));
    assert(step(w, w.len(), 1) == Step::End { line: 1 });
    assert(lex(w, w.len(), 1) == Ok::<Seq<TokenView>, nat>(seq![eof_token(1)]));
    assert(step(w, 0, 1) == scan(w, 0, 1));
    let tok = TokenView { kind, lexeme: w, line: 1 };
    assert(seq![tok] + seq![eof_token(1)] =~= seq![tok, eof_token(1)]);
}

/// A token other than a string literal, scanned where a skip stops, comes
/// back alone and of the same kind when its text is scanned on its own.
proof fn lemma_scan_relexes(cs: Seq<char>, j: nat, l: nat)
    requires
        j < cs.len(),
        !is_blank(cs[j as int]),
        cs[j as int] != '\n',
        !(cs[j as int] == '/' && j + 1 < cs.len() && cs[j + 1 as int] == '/'),
    ensures
        scan(cs, j, l) matches Step::Produced { token, .. } ==> (token.kind == TokenType::String || token.kind
            == TokenType::Unknown || relexes(token)),
{
    let c = cs[j as int];
    if c == '"' {
    } else if j + 1 < cs.len() && double_symbol(c, cs[j + 1 as int]) is Some {
        let w = cs.subrange(j as int, j + 2 as int);
        let kind = double_symbol(c, cs[j + 1 as int])->0;
        assert(w[0] == c && w[1] == cs[j + 1 as int]);
        assert(skip(w, 0, 1) == (0nat, 1nat));
        lemma_single_token(w, kind);
    } else if single_symbol(c) is Some {
        let w = cs.subrange(j as int, j + 1 as int);
        let kind = single_symbol(c)->0;
        assert(w[0] == c);
        assert(skip(w, 0, 1) == (0nat, 1nat));
        lemma_single_token(w, kind);
    } else if is_ident_start(c) {
        lemma_ident_end(cs, j + 1);
        let e = ident_end(cs, j + 1);
        let w = cs.subrange(j as int, e as int);
        assert(w[0] == c);
        if w.len() > 1 {
            assert(w[1] == cs[j + 1 as int]);
        }
        assert(skip(w, 0, 1) == (0nat, 1nat));
        lemma_ident_end_slice(cs, j, e, j + 1);
        assert(ident_end(w, 1) == w.len());
        assert(w.subrange(0, w.len() as int) =~= w);
        lemma_single_token(w, word_kind(w));
    } else if is_digit(c) {
        lemma_digits_end(cs, j + 1);
        let d = digits_end(cs, j + 1);
        let e = number_end(cs, j + 1);
        if d + 1 < cs.len() && cs[d as int] == '.' && is_digit(cs[d + 1 as int]) {
            lemma_digits_end(cs, d + 1);
            assert(digits_end(cs, d + 1) == digits_end(cs, d + 2));
            lemma_digits_end(cs, d + 2);
        }
        let w = cs.subrange(j as int, e as int);
        assert(w[0] == c);
        if w.len() > 1 {
            assert(w[1] == cs[j + 1 as int]);
        }
        assert(skip(w, 0, 1) == (0nat, 1nat));
        lemma_digits_end_slice(cs, j, e, j + 1);
        assert(digits_end(w, 1) == d - j);
        if d + 1 < cs.len() && cs[d as int] == '.' && is_digit(cs[d + 1 as int]) {
            assert(w[d - j] == cs[d as int]);
            assert(w[d - j + 1] == cs[d + 1 as int]);
            lemma_digits_end_slice(cs, j, e, d + 1);
            assert(number_end(w, 1) == w.len());
        } else {
            assert(number_end(w, 1) == w.len());
        }
        lemma_single_token(w, TokenType::Number);
    }
}

proof fn lemma_lex_relexes(cs: Seq<char>, i: nat, line: nat)
    requires
        i <= cs.len(),
    ensures
        lex(cs, i, line) matches Ok(ts) ==> forall|k: int|
            0 <= k < ts.len() && ts[k].kind != TokenType::EOF && ts[k].kind != TokenType::String
                ==> #[trigger] relexes(ts[k]),
    decreases cs.len() - i,
{
    lemma_step_advances(cs, i, line);
    lemma_skip(cs, i, line);
    lemma_skip_stops(cs, i, line);
    let (j, l) = skip(cs, i, line);
    if j < cs.len() {
        lemma_scan_relexes(cs, j, l);
    }
    if let Step::Produced { token, end, line: l2 } = step(cs, i, line) {
        lemma_lex_relexes(cs, end, l2);
        if let Ok(rest) = lex(cs, end, l2) {
            if token.kind != TokenType::Unknown {
                let ts = seq![token] + rest;
                assert forall|k: int|
                    0 <= k < ts.len() && ts[k].kind != TokenType::EOF && ts[k].kind != TokenType::String
                        implies #[trigger] relexes(ts[k]) by {
                    if k > 0 {
                        assert(ts[k] == rest[k - 1]);
                    }
                }
            }
        }
    }
}

/// Scanning the text of any token on its own gives back that one token, of
/// the same kind, followed by the end of input. String literals are left out:
/// their token holds the text between the quotes, which scans as something
/// else.
pub proof fn relexing_a_token_keeps_its_kind(source: Seq<char>, k: int)
    requires
        tokens_of(source) is Ok,
        0 <= k < tokens_of(source)->Ok_0.len(),
        tokens_of(source)->Ok_0[k].kind != TokenType::EOF,
        tokens_of(source)->Ok_0[k].kind != TokenType::String,
    ensures
        relexes(tokens_of(source)->Ok_0[k]),
{
    lemma_lex_relexes(source, 0, 1);
}

proof fn lemma_program_suffix(t: Seq<TokenView>, stmts: Seq<Ast>, bounds: Seq<nat>, m: nat)
    requires
        bounds.len() == stmts.len() + 1,
        m <= stmts.len(),
        forall|k: int|
            0 <= k < stmts.len() ==> bounds[k] < bounds[k + 1] && kind_at(t, bounds[k]) != TokenType::EOF
                && statement(t, bounds[k]) == Ok::<(Ast, nat), SyntaxError>(
                (stmts[k], (bounds[k + 1] - bounds[k]) as nat),
            ),
        kind_at(t, bounds.last()) == TokenType::EOF,
    ensures
        bounds[m as int] <= bounds.last(),
        program_rest(t, bounds[m as int], stmts.subrange(0, m as int)) == Ok::<(Seq<Ast>, nat), SyntaxError>(
            (stmts, (bounds.last() - bounds[m as int]) as nat),
        ),
    decreases stmts.len() - m,
{
    reveal_with_fuel(program_rest, 1);
    if m == stmts.len() {
        assert(stmts.subrange(0, m as int) =~= stmts);
    } else {
        lemma_program_suffix(t, stmts, bounds, m + 1);
        assert(stmts.subrange(0, m as int).push(stmts[m as int]) =~= stmts.subrange(0, m + 1 as int));
    }
}

/// A program accepted by the grammar parses whole, with one top-level
/// statement for each top-level declaration: if the tokens of `source` split
/// at `bounds` into statements `stmts`, each starting before the end of input,
/// and the last bound is the end of input, then the program is exactly
/// `Program(stmts)`.
pub proof fn parsing_keeps_every_top_level_statement(
    source: Seq<char>,
    t: Seq<TokenView>,
    stmts: Seq<Ast>,
    bounds: Seq<nat>,
)
    requires
        tokens_of(source) == Ok::<Seq<TokenView>, nat>(t),
        bounds.len() == stmts.len() + 1,
        bounds[0] == 0,
        forall|k: int|
            0 <= k < stmts.len() ==> bounds[k] < bounds[k + 1] && kind_at(t, bounds[k]) != TokenType::EOF
                && statement(t, bounds[k]) == Ok::<(Ast, nat), SyntaxError>(
                (stmts[k], (bounds[k + 1] - bounds[k]) as nat),
            ),
        kind_at(t, bounds.last()) == TokenType::EOF,
    ensures
        program(t, 0) == Ok::<Ast, SyntaxError>(Ast::Program(stmts)),
        program(t, 0) matches Ok(Ast::Program(top)) && top.len() == stmts.len(),
{
    lemma_program_suffix(t, stmts, bounds, 0);
    assert(stmts.subrange(0, 0) =~= Seq::<Ast>::empty());
}

/// A statement that starts with an identifier followed by `/` is a variable
/// declaration whose type is that identifier's text; one that starts with an
/// identifier followed by anything else is read again from the same token as
/// an expression statement.
pub proof fn identifier_statements_are_told_apart(t: Seq<TokenView>, p: nat)
    requires
        kind_at(t, p) == TokenType::Identifier,
    ensures
        kind_at(t, p + 1) == TokenType::Slash ==> statement(t, p) == variable_declaration(t, p),
        kind_at(t, p + 1) == TokenType::Slash ==> (statement(t, p) matches Ok((d, _)) ==> d matches Ast::VariableDeclaration {
            var_type,
            name,
            ..
        } && var_type == text_at(t, p) && name == text_at(t, p + 2)),
        kind_at(t, p + 1) != TokenType::Slash ==> statement(t, p) == expression_statement(t, p),
{
    reveal_with_fuel(statement, 1);
    reveal_with_fuel(variable_declaration, 1);
}

/// Every statement, and every variable declaration, that parses consumes at
/// least one token: the `n == 0` branches of the statement loops never apply.
pub proof fn statements_consume_tokens(t: Seq<TokenView>, p: nat)
    ensures
        statement(t, p) matches Ok((_, n)) ==> n >= 1,
        variable_declaration(t, p) matches Ok((_, n)) ==> n >= 1,
{
    reveal_with_fuel(statement, 1);
    reveal_with_fuel(variable_declaration, 1);
    reveal_with_fuel(expression_statement, 1);
}

} // verus!
