use vstd::prelude::*;
use crate::lexer::{TokenType, TokenView, alphabetic, uppercase, eof_token};

verus! {

// The scanner as mathematics: positions index a sequence of characters, and
// `lex` gives the tokens that `Lexer::tokenize` must produce.

/// Blanks: space, tab and carriage return.
pub open spec fn is_blank(c: char) -> bool {
    c == ' ' || c == '\t' || c == '\r'
}

/// Decimal digits.
pub open spec fn is_digit(c: char) -> bool {
    '0' <= c && c <= '9'
}

/// Characters that may start a word: letters and `_`.
pub open spec fn is_ident_start(c: char) -> bool {
    alphabetic(c) || c == '_'
}

/// Characters that may continue a word: letters, `_` and digits.
pub open spec fn is_ident_char(c: char) -> bool {
    is_ident_start(c) || is_digit(c)
}

/// The kind of a one-character symbol.
pub open spec fn single_symbol(c: char) -> Option<TokenType> {
    if c == '/' { Some(TokenType::Slash) }
    else if c == '=' { Some(TokenType::Equal) }
    else if c == ';' { Some(TokenType::Semicolon) }
    else if c == '[' { Some(TokenType::LeftBracket) }
    else if c == ']' { Some(TokenType::RightBracket) }
    else if c == '(' { Some(TokenType::LeftParen) }
    else if c == ')' { Some(TokenType::RightParen) }
    else if c == '{' { Some(TokenType::LeftBrace) }
    else if c == '}' { Some(TokenType::RightBrace) }
    else if c == ',' { Some(TokenType::Comma) }
    else if c == ':' { Some(TokenType::Colon) }
    else if c == '*' { Some(TokenType::Asterisk) }
    else if c == '.' { Some(TokenType::Dot) }
    else if c == '+' { Some(TokenType::Plus) }
    else if c == '-' { Some(TokenType::Minus) }
    else if c == '?' { Some(TokenType::Question) }
    else if c == '|' { Some(TokenType::Pipe) }
    else if c == '&' { Some(TokenType::Ampersand) }
    else if c == '<' { Some(TokenType::LessThan) }
    else if c == '>' { Some(TokenType::GreaterThan) }
    else if c == '!' { Some(TokenType::Bang) }
    else if c == '~' { Some(TokenType::Tilde) }
    else { None }
}

/// The kind of a two-character operator.
pub open spec fn double_symbol(c: char, d: char) -> Option<TokenType> {
    if c == '=' && d == '=' { Some(TokenType::DoubleEqual) }
    else if c == '!' && d == '=' { Some(TokenType::NotEqual) }
    else if c == '<' && d == '=' { Some(TokenType::LessEqual) }
    else if c == '>' && d == '=' { Some(TokenType::GreaterEqual) }
    else if c == '=' && d == '>' { Some(TokenType::Arrow) }
    else { None }
}

/// The keyword that a word spells, if any.
pub open spec fn keyword(w: Seq<char>) -> Option<TokenType> {
    if w == seq!['u', 's', 'e'] { Some(TokenType::Use) }
    else if w == seq!['r', 'e', 't', 'u', 'r', 'n'] { Some(TokenType::Return) }
    else if w == seq!['i', 'f'] { Some(TokenType::If) }
    else if w == seq!['e', 'l', 's', 'e'] { Some(TokenType::Else) }
    else if w == seq!['w', 'h', 'i', 'l', 'e'] { Some(TokenType::While) }
    else if w == seq!['f', 'o', 'r'] { Some(TokenType::For) }
    else if w == seq!['t', 'r', 'y'] { Some(TokenType::Try) }
    else if w == seq!['c', 'a', 't', 'c', 'h'] { Some(TokenType::Catch) }
    else if w == seq!['f', 'i', 'n', 'a', 'l', 'l', 'y'] { Some(TokenType::Finally) }
    else if w == seq!['c', 'l', 'a', 's', 's'] { Some(TokenType::Class) }
    else if w == seq!['m', 'a', 't', 'c', 'h'] { Some(TokenType::Match) }
    else { None }
}

/// A word is a keyword, else a type name when it starts with an uppercase
/// letter (`starts_uppercase`), else an identifier.
pub open spec fn classify(w: Seq<char>, starts_uppercase: bool) -> TokenType {
    match keyword(w) {
        Some(k) => k,
        None => if starts_uppercase { TokenType::Type } else { TokenType::Identifier },
    }
}

/// The kind of a scanned word.
pub open spec fn word_kind(w: Seq<char>) -> TokenType {
    classify(w, w.len() > 0 && uppercase(w[0]))
}

/// Where a line comment that goes on at `i` ends: at the next newline or at
/// the end of the input.
pub open spec fn comment_end(cs: Seq<char>, i: nat) -> nat
    decreases cs.len() - i,
{
    if i >= cs.len() || cs[i as int] == '\n' { i } else { comment_end(cs, i + 1) }
}

/// Skips blanks, newlines (counting them) and line comments.
/// Returns the position and the line reached.
pub open spec fn skip(cs: Seq<char>, i: nat, line: nat) -> (nat, nat)
    decreases cs.len() - i,
{
    if i >= cs.len() {
        (i, line)
    } else if is_blank(cs[i as int]) {
        skip(cs, i + 1, line)
    } else if cs[i as int] == '\n' {
        skip(cs, i + 1, line + 1)
    } else if cs[i as int] == '/' && i + 1 < cs.len() && cs[i + 1 as int] == '/' {
        proof {
            lemma_comment_end(cs, i + 2);
        }
        skip(cs, comment_end(cs, i + 2), line)
    } else {
        (i, line)
    }
}

/// The end of the run of identifier characters that starts at `i`.
pub open spec fn ident_end(cs: Seq<char>, i: nat) -> nat
    decreases cs.len() - i,
{
    if i < cs.len() && is_ident_char(cs[i as int]) { ident_end(cs, i + 1) } else { i }
}

/// The end of the run of decimal digits that starts at `i`.
pub open spec fn digits_end(cs: Seq<char>, i: nat) -> nat
    decreases cs.len() - i,
{
    if i < cs.len() && is_digit(cs[i as int]) { digits_end(cs, i + 1) } else { i }
}

/// The end of a number whose first digit stands just before `i`: digits,
/// then at most one `.` that a digit follows, then digits.
pub open spec fn number_end(cs: Seq<char>, i: nat) -> nat {
    let j = digits_end(cs, i);
    if j + 1 < cs.len() && cs[j as int] == '.' && is_digit(cs[j + 1 as int]) {
        digits_end(cs, j + 1)
    } else {
        j
    }
}

/// Scans the body of a string literal from `i`, just after its opening
/// quote. A backslash escapes the character after it. Returns the position of
/// the closing quote and the line reached there, or `None` when the input
/// ends first.
pub open spec fn string_close(cs: Seq<char>, i: nat, line: nat) -> Option<(nat, nat)>
    decreases cs.len() - i,
{
    if i >= cs.len() {
        None
    } else if cs[i as int] == '"' {
        Some((i, line))
    } else if cs[i as int] == '\\' && i + 1 < cs.len() {
        string_close(cs, i + 2, if cs[i + 1 as int] == '\n' { line + 1 } else { line })
    } else {
        string_close(cs, i + 1, if cs[i as int] == '\n' { line + 1 } else { line })
    }
}

/// One step of the scanner.
pub enum Step {
    /// Only blanks and comments were left; `line` is the last line.
    End { line: nat },
    /// A token, the position after it, and the line reached.
    Produced { token: TokenView, end: nat, line: nat },
    /// A string literal opened on `line` never closes.
    Unterminated { line: nat },
}

/// The token that starts at `i` (where no blank or comment starts).
pub open spec fn scan(cs: Seq<char>, i: nat, line: nat) -> Step {
    let c = cs[i as int];
    if c == '"' {
        match string_close(cs, i + 1, line) {
            Some((close, l)) => Step::Produced {
                token: TokenView { kind: TokenType::String, lexeme: cs.subrange(i + 1 as int, close as int), line: l },
                end: close + 1,
                line: l,
            },
            None => Step::Unterminated { line },
        }
    } else if i + 1 < cs.len() && double_symbol(c, cs[i + 1 as int]) is Some {
        Step::Produced {
            token: TokenView { kind: double_symbol(c, cs[i + 1 as int])->0, lexeme: cs.subrange(i as int, i + 2 as int), line },
            end: i + 2,
            line,
        }
    } else if single_symbol(c) is Some {
        Step::Produced {
            token: TokenView { kind: single_symbol(c)->0, lexeme: cs.subrange(i as int, i + 1 as int), line },
            end: i + 1,
            line,
        }
    } else if is_ident_start(c) {
        let e = ident_end(cs, i + 1);
        Step::Produced {
            token: TokenView { kind: word_kind(cs.subrange(i as int, e as int)), lexeme: cs.subrange(i as int, e as int), line },
            end: e,
            line,
        }
    } else if is_digit(c) {
        let e = number_end(cs, i + 1);
        Step::Produced {
            token: TokenView { kind: TokenType::Number, lexeme: cs.subrange(i as int, e as int), line },
            end: e,
            line,
        }
    } else {
        Step::Produced {
            token: TokenView { kind: TokenType::Unknown, lexeme: seq![c], line },
            end: i + 1,
            line,
        }
    }
}

/// Skips what carries no token, then scans one token.
pub open spec fn step(cs: Seq<char>, i: nat, line: nat) -> Step {
    let (j, l) = skip(cs, i, line);
    if j >= cs.len() { Step::End { line: l } } else { scan(cs, j, l) }
}

/// The tokens of `cs` from position `i` on line `line`: every token but the
/// unknown ones, then one end-of-input token; or the line of a string literal
/// that never closes.
pub open spec fn lex(cs: Seq<char>, i: nat, line: nat) -> Result<Seq<TokenView>, nat>
    decreases cs.len() - i,
{
    match step(cs, i, line) {
        Step::End { line } => Ok(seq![eof_token(line)]),
        Step::Unterminated { line } => Err(line),
        Step::Produced { token, end, line: l } => {
            proof {
                lemma_step_advances(cs, i, line);
            }
            match lex(cs, end, l) {
                Ok(rest) => Ok(if token.kind == TokenType::Unknown { rest } else { seq![token] + rest }),
                Err(e) => Err(e),
            }
        }
    }
}

/// The tokens of a whole source text, starting on line 1.
pub open spec fn tokens_of(source: Seq<char>) -> Result<Seq<TokenView>, nat> {
    lex(source, 0, 1)
}

// ---------------------------------------------------------------------------
// Facts about the scanning functions.
// ---------------------------------------------------------------------------

/// A comment ends between its start and the end of the text.
pub proof fn lemma_comment_end(cs: Seq<char>, i: nat)
    requires
        i <= cs.len(),
    ensures
        i <= comment_end(cs, i) <= cs.len(),
    decreases cs.len() - i,
{
    if i < cs.len() && cs[i as int] != '\n' {
        lemma_comment_end(cs, i + 1);
    }
}

/// Skipping moves forward within the text, and the line grows by at most
/// the number of characters skipped.
pub proof fn lemma_skip(cs: Seq<char>, i: nat, line: nat)
    requires
        i <= cs.len(),
    ensures
        i <= skip(cs, i, line).0 <= cs.len(),
        line <= skip(cs, i, line).1,
        skip(cs, i, line).1 <= line + (skip(cs, i, line).0 - i),
    decreases cs.len() - i,
{
    if i < cs.len() {
        if is_blank(cs[i as int]) || cs[i as int] == '\n' {
            lemma_skip(cs, i + 1, if cs[i as int] == '\n' { line + 1 } else { line });
        } else if cs[i as int] == '/' && i + 1 < cs.len() && cs[i + 1 as int] == '/' {
            lemma_comment_end(cs, i + 2);
            lemma_skip(cs, comment_end(cs, i + 2), line);
        }
    }
}

/// A run of word characters ends within the text.
pub proof fn lemma_ident_end(cs: Seq<char>, i: nat)
    requires
        i <= cs.len(),
    ensures
        i <= ident_end(cs, i) <= cs.len(),
    decreases cs.len() - i,
{
    if i < cs.len() && is_ident_char(cs[i as int]) {
        lemma_ident_end(cs, i + 1);
    }
}

/// A run of digits ends within the text.
pub proof fn lemma_digits_end(cs: Seq<char>, i: nat)
    requires
        i <= cs.len(),
    ensures
        i <= digits_end(cs, i) <= cs.len(),
    decreases cs.len() - i,
{
    if i < cs.len() && is_digit(cs[i as int]) {
        lemma_digits_end(cs, i + 1);
    }
}

/// A closing quote lies within the text, and the line grows by at most the
/// number of characters passed.
pub proof fn lemma_string_close(cs: Seq<char>, i: nat, line: nat)
    requires
        i <= cs.len(),
    ensures
        string_close(cs, i, line) matches Some((close, l)) ==> i <= close < cs.len() && line <= l
            && l <= line + (close - i),
    decreases cs.len() - i,
{
    if i < cs.len() && cs[i as int] != '"' {
        if cs[i as int] == '\\' && i + 1 < cs.len() {
            lemma_string_close(cs, i + 2, if cs[i + 1 as int] == '\n' { line + 1 } else { line });
        } else {
            lemma_string_close(cs, i + 1, if cs[i as int] == '\n' { line + 1 } else { line });
        }
    }
}

/// A step that produces a token moves forward, and the line grows by at
/// most the number of characters passed.
pub proof fn lemma_step_advances(cs: Seq<char>, i: nat, line: nat)
    requires
        i <= cs.len(),
    ensures
        step(cs, i, line) matches Step::Produced { end, line: l, .. } ==> i < end <= cs.len()
            && line <= l <= line + (end - i),
        step(cs, i, line) matches Step::End { line: l } ==> line <= l <= line + (cs.len() - i),
{
    lemma_skip(cs, i, line);
    let (j, l) = skip(cs, i, line);
    if j < cs.len() {
        lemma_string_close(cs, j + 1, l);
        lemma_ident_end(cs, j + 1);
        lemma_digits_end(cs, j + 1);
        let d = digits_end(cs, j + 1);
        if d + 1 < cs.len() {
            lemma_digits_end(cs, d + 1);
        }
    }
}

/// A produced token is never the end-of-input token.
pub proof fn lemma_scan_kind(cs: Seq<char>, i: nat, line: nat)
    ensures
        step(cs, i, line) matches Step::Produced { token, .. } ==> token.kind != TokenType::EOF,
{
}

} // verus!
