use vstd::prelude::*;
use vstd::slice::slice_subrange;
use crate::scanning::{Step, lex, step, skip, ident_end, digits_end, number_end, string_close, comment_end};
use crate::scanning::{classify, keyword, word_kind, single_symbol, double_symbol, is_ident_start, is_digit};
use crate::scanning::{lemma_scan_kind, lemma_skip, lemma_step_advances};

verus! {

/// The kinds of token the scanner produces.
#[derive(Debug, Clone, Copy, PartialEq, Eq, Structural)]
pub enum TokenType {
    // keywords
    Use,
    Return,
    If,
    Else,
    While,
    For,
    Try,
    Catch,
    Finally,
    Class,
    Match,
    // names and literals
    Identifier,
    Type,
    Number,
    String,
    // punctuation and operators
    Slash,
    Equal,
    Semicolon,
    LeftBracket,
    RightBracket,
    LeftParen,
    RightParen,
    LeftBrace,
    RightBrace,
    Comma,
    Colon,
    Asterisk,
    Dot,
    Plus,
    Minus,
    Question,
    Pipe,
    Ampersand,
    DoubleEqual,
    NotEqual,
    LessThan,
    GreaterThan,
    LessEqual,
    GreaterEqual,
    Bang,
    Tilde,
    Arrow,
    // sentinels
    EOF,
    Unknown,
}

impl TokenType {
    /// The name of the kind, as diagnostics print it.
    pub(crate) fn name(&self) -> &'static str {
        match self {
            TokenType::Use => "Use",
            TokenType::Return => "Return",
            TokenType::If => "If",
            TokenType::Else => "Else",
            TokenType::While => "While",
            TokenType::For => "For",
            TokenType::Try => "Try",
            TokenType::Catch => "Catch",
            TokenType::Finally => "Finally",
            TokenType::Class => "Class",
            TokenType::Match => "Match",
            TokenType::Identifier => "Identifier",
            TokenType::Type => "Type",
            TokenType::Number => "Number",
            TokenType::String => "String",
            TokenType::Slash => "Slash",
            TokenType::Equal => "Equal",
            TokenType::Semicolon => "Semicolon",
            TokenType::LeftBracket => "LeftBracket",
            TokenType::RightBracket => "RightBracket",
            TokenType::LeftParen => "LeftParen",
            TokenType::RightParen => "RightParen",
            TokenType::LeftBrace => "LeftBrace",
            TokenType::RightBrace => "RightBrace",
            TokenType::Comma => "Comma",
            TokenType::Colon => "Colon",
            TokenType::Asterisk => "Asterisk",
            TokenType::Dot => "Dot",
            TokenType::Plus => "Plus",
            TokenType::Minus => "Minus",
            TokenType::Question => "Question",
            TokenType::Pipe => "Pipe",
            TokenType::Ampersand => "Ampersand",
            TokenType::DoubleEqual => "DoubleEqual",
            TokenType::NotEqual => "NotEqual",
            TokenType::LessThan => "LessThan",
            TokenType::GreaterThan => "GreaterThan",
            TokenType::LessEqual => "LessEqual",
            TokenType::GreaterEqual => "GreaterEqual",
            TokenType::Bang => "Bang",
            TokenType::Tilde => "Tilde",
            TokenType::Arrow => "Arrow",
            TokenType::EOF => "EOF",
            TokenType::Unknown => "Unknown",
        }
    }
}

/// Relies on `char::is_alphabetic`: whether `c` has the Unicode Alphabetic property.
pub uninterp spec fn alphabetic(c: char) -> bool;

/// Relies on `char::is_uppercase`: whether `c` has the Unicode Uppercase property.
pub uninterp spec fn uppercase(c: char) -> bool;

/// `a`-`z` and `A`-`Z`.
pub open spec fn is_ascii_letter(c: char) -> bool {
    ('a' <= c && c <= 'z') || ('A' <= c && c <= 'Z')
}

/// Relies on `char::is_alphabetic`. In the ASCII range exactly the letters
/// `a`-`z` and `A`-`Z` are alphabetic.
#[verifier::external_body]
fn char_is_alphabetic(c: char) -> (r: bool)
    ensures
        r == alphabetic(c),
        (c as u32) < 128 ==> (r <==> is_ascii_letter(c)),
{
    c.is_alphabetic()
}

/// Relies on `char::is_uppercase`. In the ASCII range exactly `A`-`Z` are
/// uppercase.
#[verifier::external_body]
fn char_is_uppercase(c: char) -> (r: bool)
    ensures
        r == uppercase(c),
        (c as u32) < 128 ==> (r <==> ('A' <= c && c <= 'Z')),
{
    c.is_uppercase()
}

/// A token as the parser reads it.
#[derive(Debug, Clone, PartialEq, Eq)]
pub struct Token {
    pub token_type: TokenType,
    pub lexeme: String,
    pub line: usize,
}

/// The mathematical value of a token.
pub struct TokenView {
    pub kind: TokenType,
    pub lexeme: Seq<char>,
    pub line: nat,
}

impl View for Token {
    type V = TokenView;

    open spec fn view(&self) -> TokenView {
        TokenView { kind: self.token_type, lexeme: self.lexeme@, line: self.line as nat }
    }
}

/// The values of a sequence of tokens.
pub open spec fn token_views(v: Seq<Token>) -> Seq<TokenView> {
    v.map_values(|t: Token| t@)
}

/// The end-of-input token on line `line`.
pub open spec fn eof_token(line: nat) -> TokenView {
    TokenView { kind: TokenType::EOF, lexeme: Seq::empty(), line }
}

/// The one error the scanner raises: a string literal that is still open
/// when the input ends. `line` is the line on which the literal starts.
#[derive(Debug, Clone, Copy, PartialEq, Eq, Structural)]
pub enum LexError {
    UnterminatedString { line: usize },
}

impl LexError {
    /// The line that the error reports.
    pub open spec fn line_of(self) -> nat {
        match self {
            LexError::UnterminatedString { line } => line as nat,
        }
    }
}

/// Relies on `str::chars` and `Iterator::collect`: the characters of `s`, in order.
#[verifier::external_body]
fn chars_of(s: &str) -> (r: Vec<char>)
    ensures
        r@ == s@,
{
    s.chars().collect()
}

/// Relies on `String::from_iter`: a string of exactly the given characters.
#[verifier::external_body]
fn string_of(cs: &[char]) -> (r: String)
    ensures
        r@ == cs@,
{
    String::from_iter(cs.iter())
}

/// Whether two character sequences are equal.
fn same_chars(a: &[char], b: &[char]) -> (r: bool)
    ensures
        r == (a@ == b@),
{
    if a.len() != b.len() {
        return false;
    }
    let mut i: usize = 0;
    while i < a.len()
        invariant
            a@.len() == b@.len(),
            i <= a@.len(),
            a@.subrange(0, i as int) == b@.subrange(0, i as int),
        decreases a@.len() - i,
    {
        if a[i] != b[i] {
            assert(a@[i as int] != b@[i as int]);
            return false;
        }
        assert(a@.subrange(0, i + 1 as int) =~= a@.subrange(0, i as int).push(a@[i as int]));
        assert(b@.subrange(0, i + 1 as int) =~= b@.subrange(0, i as int).push(b@[i as int]));
        i = i + 1;
    }
    assert(a@ =~= a@.subrange(0, i as int));
    assert(b@ =~= b@.subrange(0, i as int));
    true
}

/// The keyword that `w` spells, if any.
fn keyword_kind(w: &[char]) -> (r: Option<TokenType>)
    ensures
        r == keyword(w@),
{
    let k_use: &[char] = &['u', 's', 'e'];
    let k_return: &[char] = &['r', 'e', 't', 'u', 'r', 'n'];
    let k_if: &[char] = &['i', 'f'];
    let k_else: &[char] = &['e', 'l', 's', 'e'];
    let k_while: &[char] = &['w', 'h', 'i', 'l', 'e'];
    let k_for: &[char] = &['f', 'o', 'r'];
    let k_try: &[char] = &['t', 'r', 'y'];
    let k_catch: &[char] = &['c', 'a', 't', 'c', 'h'];
    let k_finally: &[char] = &['f', 'i', 'n', 'a', 'l', 'l', 'y'];
    let k_class: &[char] = &['c', 'l', 'a', 's', 's'];
    let k_match: &[char] = &['m', 'a', 't', 'c', 'h'];
    assert(k_use@ == seq!['u', 's', 'e']);
    assert(k_return@ == seq!['r', 'e', 't', 'u', 'r', 'n']);
    assert(k_if@ == seq!['i', 'f']);
    assert(k_else@ == seq!['e', 'l', 's', 'e']);
    assert(k_while@ == seq!['w', 'h', 'i', 'l', 'e']);
    assert(k_for@ == seq!['f', 'o', 'r']);
    assert(k_try@ == seq!['t', 'r', 'y']);
    assert(k_catch@ == seq!['c', 'a', 't', 'c', 'h']);
    assert(k_finally@ == seq!['f', 'i', 'n', 'a', 'l', 'l', 'y']);
    assert(k_class@ == seq!['c', 'l', 'a', 's', 's']);
    assert(k_match@ == seq!['m', 'a', 't', 'c', 'h']);
    if same_chars(w, k_use) {
        Some(TokenType::Use)
    } else if same_chars(w, k_return) {
        Some(TokenType::Return)
    } else if same_chars(w, k_if) {
        Some(TokenType::If)
    } else if same_chars(w, k_else) {
        Some(TokenType::Else)
    } else if same_chars(w, k_while) {
        Some(TokenType::While)
    } else if same_chars(w, k_for) {
        Some(TokenType::For)
    } else if same_chars(w, k_try) {
        Some(TokenType::Try)
    } else if same_chars(w, k_catch) {
        Some(TokenType::Catch)
    } else if same_chars(w, k_finally) {
        Some(TokenType::Finally)
    } else if same_chars(w, k_class) {
        Some(TokenType::Class)
    } else if same_chars(w, k_match) {
        Some(TokenType::Match)
    } else {
        None
    }
}

/// The kind of the word `word`: its keyword, else `Type` where it starts
/// with an uppercase letter, else `Identifier`.
pub fn classify_word(word: &[char], starts_uppercase: bool) -> (r: TokenType)
    ensures
        r == classify(word@, starts_uppercase),
{
    match keyword_kind(word) {
        Some(k) => k,
        None => if starts_uppercase {
            TokenType::Type
        } else {
            TokenType::Identifier
        },
    }
}

fn single_symbol_kind(c: char) -> (r: Option<TokenType>)
    ensures
        r == single_symbol(c),
{
    match c {
        '/' => Some(TokenType::Slash),
        '=' => Some(TokenType::Equal),
        ';' => Some(TokenType::Semicolon),
        '[' => Some(TokenType::LeftBracket),
        ']' => Some(TokenType::RightBracket),
        '(' => Some(TokenType::LeftParen),
        ')' => Some(TokenType::RightParen),
        '{' => Some(TokenType::LeftBrace),
        '}' => Some(TokenType::RightBrace),
        ',' => Some(TokenType::Comma),
        ':' => Some(TokenType::Colon),
        '*' => Some(TokenType::Asterisk),
        '.' => Some(TokenType::Dot),
        '+' => Some(TokenType::Plus),
        '-' => Some(TokenType::Minus),
        '?' => Some(TokenType::Question),
        '|' => Some(TokenType::Pipe),
        '&' => Some(TokenType::Ampersand),
        '<' => Some(TokenType::LessThan),
        '>' => Some(TokenType::GreaterThan),
        '!' => Some(TokenType::Bang),
        '~' => Some(TokenType::Tilde),
        _ => None,
    }
}

fn double_symbol_kind(c: char, d: char) -> (r: Option<TokenType>)
    ensures
        r == double_symbol(c, d),
{
    if c == '=' && d == '=' {
        Some(TokenType::DoubleEqual)
    } else if c == '!' && d == '=' {
        Some(TokenType::NotEqual)
    } else if c == '<' && d == '=' {
        Some(TokenType::LessEqual)
    } else if c == '>' && d == '=' {
        Some(TokenType::GreaterEqual)
    } else if c == '=' && d == '>' {
        Some(TokenType::Arrow)
    } else {
        None
    }
}

/// The tokens `prefix` followed by those of a scan, or the scan's error.
pub open spec fn join(prefix: Seq<TokenView>, r: Result<Seq<TokenView>, nat>) -> Result<Seq<TokenView>, nat> {
    match r {
        Ok(rest) => Ok(prefix + rest),
        Err(e) => Err(e),
    }
}

/// A scanner over one source text: the characters, the position reached and
/// the current line.
#[derive(Debug)]
pub struct Lexer {
    chars: Vec<char>,
    current: usize,
    line: usize,
}

impl Lexer {
    /// The characters being scanned.
    pub closed spec fn text(&self) -> Seq<char> {
        self.chars@
    }

    /// The position of the next character to scan.
    pub closed spec fn position(&self) -> nat {
        self.current as nat
    }

    /// The line that the next character stands on.
    pub closed spec fn line_number(&self) -> nat {
        self.line as nat
    }

    /// The position lies within the text, and the line count stays below the
    /// largest `usize`.
    pub closed spec fn wf(&self) -> bool {
        &&& self.current <= self.chars.len()
        &&& self.line <= self.current + 1
        &&& self.chars.len() < usize::MAX
    }

    /// A scanner at the start of `source`, on line 1.
    pub fn new(source: &str) -> (r: Lexer)
        requires
            source@.len() < usize::MAX,
        ensures
            r.wf(),
            r.text() == source@,
            r.position() == 0,
            r.line_number() == 1,
    {
        Lexer { chars: chars_of(source), current: 0, line: 1 }
    }

    /// Scans the rest of the text. On success the tokens are those of `lex`:
    /// every token but the unknown characters, ending in exactly one
    /// end-of-input token. The one failure is a string literal that never
    /// closes, reported with the line on which it opens.
    pub fn tokenize(&mut self) -> (r: Result<Vec<Token>, LexError>)
        requires
            old(self).wf(),
        ensures
            final(self).wf(),
            final(self).text() == old(self).text(),
            r is Ok ==> final(self).position() == final(self).text().len(),
            match r {
                Ok(v) => lex(old(self).text(), old(self).position(), old(self).line_number()) == Ok::<
                    Seq<TokenView>,
                    nat,
                >(token_views(v@)),
                Err(e) => lex(old(self).text(), old(self).position(), old(self).line_number()) == Err::<
                    Seq<TokenView>,
                    nat,
                >(e.line_of()),
            },
    {
        let ghost cs = self.chars@;
        let ghost start = self.current as nat;
        let ghost start_line = self.line as nat;
        let mut tokens: Vec<Token> = Vec::new();
        loop
            invariant
                self.wf(),
                self.chars@ == cs,
                cs == old(self).chars@,
                start == old(self).current,
                start_line == old(self).line,
                lex(cs, start, start_line) == join(token_views(tokens@), lex(cs, self.current as nat, self.line as nat)),
            decreases cs.len() - self.current,
        {
            let ghost before = self.current as nat;
            let ghost before_line = self.line as nat;
            proof {
                lemma_step_advances(cs, before, before_line);
                lemma_scan_kind(cs, before, before_line);
            }
            let token = self.next_token()?;
            if token.token_type == TokenType::EOF {
                let ghost prefix = token_views(tokens@);
                tokens.push(token);
                assert(token_views(tokens@) =~= prefix.push(token@));
                assert(prefix.push(token@) =~= prefix + seq![token@]);
                return Ok(tokens);
            }
            if token.token_type != TokenType::Unknown {
                let ghost prefix = token_views(tokens@);
                tokens.push(token);
                assert(token_views(tokens@) =~= prefix.push(token@));
                assert forall|rest: Seq<TokenView>| prefix.push(token@) + rest =~= prefix + (seq![token@] + rest) by {}
            }
        }
    }

    /// Skips blanks and comments, then scans one token; at the end of the
    /// text gives the end-of-input token.
    fn next_token(&mut self) -> (r: Result<Token, LexError>)
        requires
            old(self).wf(),
        ensures
            final(self).wf(),
            final(self).chars@ == old(self).chars@,
            match step(old(self).chars@, old(self).current as nat, old(self).line as nat) {
                Step::End { line } => r matches Ok(t) && t@ == eof_token(line)
                    && final(self).current == final(self).chars.len() && final(self).line == line,
                Step::Produced { token, end, line } => r matches Ok(t) && t@ == token
                    && final(self).current == end && final(self).line == line,
                Step::Unterminated { line } => r matches Err(e) && e.line_of() == line,
            },
    {
        let ghost cs = self.chars@;
        self.skip_whitespace();
        if self.is_at_end() {
            return Ok(Token { token_type: TokenType::EOF, lexeme: String::new(), line: self.line });
        }
        let start = self.current;
        proof {
            lemma_skip(cs, start as nat, self.line as nat);
        }
        let c = self.advance();
        if c == '"' {
            return self.string(start);
        }
        if !self.is_at_end() {
            let d = self.peek();
            if let Some(kind) = double_symbol_kind(c, d) {
                self.advance();
                return Ok(self.make_token(kind, start));
            }
        }
        if let Some(kind) = single_symbol_kind(c) {
            return Ok(self.make_token(kind, start));
        }
        if self.is_alpha(c) {
            return Ok(self.identifier_or_keyword(start));
        }
        if self.is_digit(c) {
            return Ok(self.number(start));
        }
        let t = self.make_token(TokenType::Unknown, start);
        assert(cs.subrange(start as int, start + 1) =~= seq![c]);
        Ok(t)
    }

    /// The token of kind `kind` whose text runs from `start` to the current
    /// position.
    fn make_token(&self, kind: TokenType, start: usize) -> (r: Token)
        requires
            start <= self.current <= self.chars.len(),
        ensures
            r@ == (TokenView {
                kind,
                lexeme: self.chars@.subrange(start as int, self.current as int),
                line: self.line as nat,
            }),
    {
        let text = slice_subrange(self.chars.as_slice(), start, self.current);
        Token { token_type: kind, lexeme: string_of(text), line: self.line }
    }

    /// Scans the rest of a word whose first character stands at `start`.
    fn identifier_or_keyword(&mut self, start: usize) -> (r: Token)
        requires
            old(self).wf(),
            start + 1 == old(self).current,
        ensures
            final(self).wf(),
            final(self).chars@ == old(self).chars@,
            final(self).line == old(self).line,
            final(self).current == ident_end(old(self).chars@, old(self).current as nat),
            r@ == (TokenView {
                kind: word_kind(old(self).chars@.subrange(start as int, final(self).current as int)),
                lexeme: old(self).chars@.subrange(start as int, final(self).current as int),
                line: old(self).line as nat,
            }),
    {
        let ghost cs = self.chars@;
        let ghost from = self.current as nat;
        while !self.is_at_end() && (self.is_alpha(self.peek()) || self.is_digit(self.peek()))
            invariant
                self.wf(),
                self.chars@ == cs,
                self.line == old(self).line,
                start < self.current,
                ident_end(cs, self.current as nat) == ident_end(cs, from),
            decreases cs.len() - self.current,
        {
            self.advance();
        }
        let word = slice_subrange(self.chars.as_slice(), start, self.current);
        let kind = classify_word(word, char_is_uppercase(self.chars[start]));
        Token { token_type: kind, lexeme: string_of(word), line: self.line }
    }

    /// Scans the rest of a number whose first digit stands at `start`.
    fn number(&mut self, start: usize) -> (r: Token)
        requires
            old(self).wf(),
            start + 1 == old(self).current,
        ensures
            final(self).wf(),
            final(self).chars@ == old(self).chars@,
            final(self).line == old(self).line,
            final(self).current == number_end(old(self).chars@, old(self).current as nat),
            r@ == (TokenView {
                kind: TokenType::Number,
                lexeme: old(self).chars@.subrange(start as int, final(self).current as int),
                line: old(self).line as nat,
            }),
    {
        let ghost cs = self.chars@;
        let ghost from = self.current as nat;
        while !self.is_at_end() && self.is_digit(self.peek())
            invariant
                self.wf(),
                self.chars@ == cs,
                self.line == old(self).line,
                start < self.current,
                digits_end(cs, self.current as nat) == digits_end(cs, from),
            decreases cs.len() - self.current,
        {
            self.advance();
        }
        if !self.is_at_end() && self.peek() == '.' && self.is_digit(self.peek_next()) {
            self.advance();
            let ghost point = self.current as nat;
            while !self.is_at_end() && self.is_digit(self.peek())
                invariant
                    self.wf(),
                    self.chars@ == cs,
                    self.line == old(self).line,
                    start < self.current,
                    digits_end(cs, self.current as nat) == digits_end(cs, point),
                decreases cs.len() - self.current,
            {
                self.advance();
            }
        }
        self.make_token(TokenType::Number, start)
    }

    /// Scans a string literal whose opening quote stands at `start`.
    fn string(&mut self, start: usize) -> (r: Result<Token, LexError>)
        requires
            old(self).wf(),
            start + 1 == old(self).current,
        ensures
            final(self).wf(),
            final(self).chars@ == old(self).chars@,
            match string_close(old(self).chars@, old(self).current as nat, old(self).line as nat) {
                Some((close, l)) => r matches Ok(t) && t@ == (TokenView {
                    kind: TokenType::String,
                    lexeme: old(self).chars@.subrange(start + 1, close as int),
                    line: l,
                }) && final(self).current == close + 1 && final(self).line == l,
                None => r matches Err(e) && e.line_of() == old(self).line,
            },
    {
        let ghost cs = self.chars@;
        let ghost from = self.current as nat;
        let open_line = self.line;
        while !self.is_at_end() && self.peek() != '"'
            invariant
                self.wf(),
                self.chars@ == cs,
                start < self.current,
                string_close(cs, self.current as nat, self.line as nat) == string_close(cs, from, open_line as nat),
            decreases cs.len() - self.current,
        {
            let c = self.advance();
            if c == '\\' && !self.is_at_end() {
                let e = self.advance();
                if e == '\n' {
                    self.line = self.line + 1;
                }
            } else if c == '\n' {
                self.line = self.line + 1;
            }
        }
        if self.is_at_end() {
            return Err(LexError::UnterminatedString { line: open_line });
        }
        let t = self.make_token(TokenType::String, start + 1);
        self.advance();
        Ok(t)
    }

    /// The next character, which must exist.
    fn advance(&mut self) -> (c: char)
        requires
            old(self).current < old(self).chars.len(),
        ensures
            c == old(self).chars@[old(self).current as int],
            final(self).current == old(self).current + 1,
            final(self).chars@ == old(self).chars@,
            final(self).line == old(self).line,
    {
        let c = self.chars[self.current];
        self.current = self.current + 1;
        c
    }

    /// The character at the current position, or `'\0'` at the end.
    fn peek(&self) -> (c: char)
        requires
            self.current <= self.chars.len(),
        ensures
            c == if self.current < self.chars.len() { self.chars@[self.current as int] } else { '\0' },
    {
        if self.is_at_end() {
            '\0'
        } else {
            self.chars[self.current]
        }
    }

    /// The character after the current one, or `'\0'` past the end.
    fn peek_next(&self) -> (c: char)
        requires
            self.wf(),
        ensures
            c == if self.current + 1 < self.chars.len() { self.chars@[self.current + 1] } else { '\0' },
    {
        if self.current + 1 >= self.chars.len() {
            '\0'
        } else {
            self.chars[self.current + 1]
        }
    }

    fn is_at_end(&self) -> (r: bool)
        ensures
            r == (self.current >= self.chars.len()),
    {
        self.current >= self.chars.len()
    }

    /// Whether `c` may start a word: a letter or an underscore.
    fn is_alpha(&self, c: char) -> (r: bool)
        ensures
            r == is_ident_start(c),
    {
        char_is_alphabetic(c) || c == '_'
    }

    /// Whether `c` is a decimal digit.
    fn is_digit(&self, c: char) -> (r: bool)
        ensures
            r == is_digit(c),
    {
        '0' <= c && c <= '9'
    }

    /// Skips blanks, newlines and line comments, counting the lines.
    fn skip_whitespace(&mut self)
        requires
            old(self).wf(),
        ensures
            final(self).wf(),
            final(self).chars@ == old(self).chars@,
            (final(self).current as nat, final(self).line as nat) == skip(
                old(self).chars@,
                old(self).current as nat,
                old(self).line as nat,
            ),
    {
        let ghost cs = self.chars@;
        let ghost from = (self.current as nat, self.line as nat);
        while !self.is_at_end()
            invariant
                self.wf(),
                self.chars@ == cs,
                cs == old(self).chars@,
                from == (old(self).current as nat, old(self).line as nat),
                skip(cs, self.current as nat, self.line as nat) == skip(cs, from.0, from.1),
            ensures
                self.wf(),
                self.chars@ == cs,
                skip(cs, from.0, from.1) == (self.current as nat, self.line as nat),
            decreases cs.len() - self.current,
        {
            let c = self.peek();
            let ghost l = self.line;
            if c == ' ' || c == '\t' || c == '\r' {
                self.advance();
            } else if c == '\n' {
                self.line = self.line + 1;
                self.advance();
            } else if c == '/' && self.peek_next() == '/' {
                self.advance();
                self.advance();
                let ghost body = self.current as nat;
                while !self.is_at_end() && self.peek() != '\n'
                    invariant
                        self.wf(),
                        self.chars@ == cs,
                        body <= self.current,
                        self.line == l,
                        comment_end(cs, self.current as nat) == comment_end(cs, body),
                    decreases cs.len() - self.current,
                {
                    self.advance();
                }
            } else {
                break;
            }
        }
    }
}

} // verus!
