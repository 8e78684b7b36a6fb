use vyl::lexer::{LexError, Lexer, Token, TokenType};

fn lex(source: &str) -> Result<Vec<Token>, LexError> {
    let mut lexer = Lexer::new(source);
    lexer.tokenize()
}

fn kinds(source: &str) -> Vec<TokenType> {
    lex(source).unwrap().iter().map(|t| t.token_type).collect()
}

fn lexemes(source: &str) -> Vec<String> {
    lex(source).unwrap().iter().map(|t| t.lexeme.clone()).collect()
}

#[test]
fn empty_input_gives_only_eof() {
    let tokens = lex("").unwrap();
    assert_eq!(tokens.len(), 1);
    assert_eq!(tokens[0].token_type, TokenType::EOF);
    assert_eq!(tokens[0].lexeme, "");
    assert_eq!(tokens[0].line, 1);
}

#[test]
fn variable_declaration_tokens() {
    assert_eq!(
        kinds("Int/x/=42;"),
        vec![
            TokenType::Type,
            TokenType::Slash,
            TokenType::Identifier,
            TokenType::Slash,
            TokenType::Equal,
            TokenType::Number,
            TokenType::Semicolon,
            TokenType::EOF,
        ]
    );
    assert_eq!(lexemes("Int/x/=42;"), vec!["Int", "/", "x", "/", "=", "42", ";", ""]);
}

#[test]
fn keywords_are_recognised() {
    assert_eq!(
        kinds("use return if else while for try catch finally class match"),
        vec![
            TokenType::Use,
            TokenType::Return,
            TokenType::If,
            TokenType::Else,
            TokenType::While,
            TokenType::For,
            TokenType::Try,
            TokenType::Catch,
            TokenType::Finally,
            TokenType::Class,
            TokenType::Match,
            TokenType::EOF,
        ]
    );
}

#[test]
fn words_that_only_resemble_keywords() {
    assert_eq!(
        kinds("user Use extends _x returns"),
        vec![
            TokenType::Identifier,
            TokenType::Type,
            TokenType::Identifier,
            TokenType::Identifier,
            TokenType::Identifier,
            TokenType::EOF,
        ]
    );
}

#[test]
fn two_character_operators_are_greedy() {
    assert_eq!(
        kinds("== != <= >= => = ! < >"),
        vec![
            TokenType::DoubleEqual,
            TokenType::NotEqual,
            TokenType::LessEqual,
            TokenType::GreaterEqual,
            TokenType::Arrow,
            TokenType::Equal,
            TokenType::Bang,
            TokenType::LessThan,
            TokenType::GreaterThan,
            TokenType::EOF,
        ]
    );
    assert_eq!(lexemes("a<=b"), vec!["a", "<=", "b", ""]);
}

#[test]
fn single_character_punctuation() {
    assert_eq!(
        kinds("[](){},:*.+-?|&~"),
        vec![
            TokenType::LeftBracket,
            TokenType::RightBracket,
            TokenType::LeftParen,
            TokenType::RightParen,
            TokenType::LeftBrace,
            TokenType::RightBrace,
            TokenType::Comma,
            TokenType::Colon,
            TokenType::Asterisk,
            TokenType::Dot,
            TokenType::Plus,
            TokenType::Minus,
            TokenType::Question,
            TokenType::Pipe,
            TokenType::Ampersand,
            TokenType::Tilde,
            TokenType::EOF,
        ]
    );
}

#[test]
fn numbers_take_one_fraction() {
    assert_eq!(lexemes("3.14"), vec!["3.14", ""]);
    assert_eq!(kinds("1.2.3"), vec![TokenType::Number, TokenType::Dot, TokenType::Number, TokenType::EOF]);
    assert_eq!(lexemes("1.2.3"), vec!["1.2", ".", "3", ""]);
    assert_eq!(kinds("7.x"), vec![TokenType::Number, TokenType::Dot, TokenType::Identifier, TokenType::EOF]);
}

#[test]
fn comments_and_newlines_count_lines() {
    let tokens = lex("a // note\n\nb\r\n\tc").unwrap();
    let lines: Vec<usize> = tokens.iter().map(|t| t.line).collect();
    assert_eq!(lexemes("a // note\n\nb\r\n\tc"), vec!["a", "b", "c", ""]);
    assert_eq!(lines, vec![1, 3, 4, 4]);
}

#[test]
fn unknown_characters_are_dropped() {
    assert_eq!(kinds("a @ # b"), vec![TokenType::Identifier, TokenType::Identifier, TokenType::EOF]);
}

#[test]
fn trailing_whitespace_gives_exactly_one_eof() {
    let tokens = lex("x   \n  // done\n   ").unwrap();
    let eofs = tokens.iter().filter(|t| t.token_type == TokenType::EOF).count();
    assert_eq!(eofs, 1);
    assert_eq!(tokens.last().unwrap().token_type, TokenType::EOF);
    assert_eq!(tokens.last().unwrap().line, 3);
}

#[test]
fn strings_keep_their_enclosed_text() {
    let tokens = lex("\"hello world\"").unwrap();
    assert_eq!(tokens[0].token_type, TokenType::String);
    assert_eq!(tokens[0].lexeme, "hello world");
    let escaped = lex(r#""say \"hi\" \\ ok""#).unwrap();
    assert_eq!(escaped[0].token_type, TokenType::String);
    assert_eq!(escaped[0].lexeme, r#"say \"hi\" \\ ok"#);
    assert_eq!(escaped.len(), 2);
}

#[test]
fn unterminated_string_fails() {
    assert_eq!(lex("x\n\"abc"), Err(LexError::UnterminatedString { line: 2 }));
    assert_eq!(lex("\"ends in escape\\\""), Err(LexError::UnterminatedString { line: 1 }));
    assert_eq!(lex("\""), Err(LexError::UnterminatedString { line: 1 }));
}

#[test]
fn unterminated_string_fails_the_same_way_every_time() {
    let first = lex("a = \"open");
    let second = lex("a = \"open");
    assert_eq!(first, second);
    assert!(first.is_err());
}

#[test]
fn relexing_a_lexeme_gives_the_same_kind() {
    let source = "class /Shape/ extends Base { Int/x/=1.5; } a <= b => c != 42 ! ~ use";
    let tokens = lex(source).unwrap();
    for token in &tokens {
        if token.token_type == TokenType::EOF || token.token_type == TokenType::String {
            continue;
        }
        let again = lex(&token.lexeme).unwrap();
        assert_eq!(again.len(), 2, "{:?}", token);
        assert_eq!(again[0].token_type, token.token_type);
        assert_eq!(again[0].lexeme, token.lexeme);
        assert_eq!(again[1].token_type, TokenType::EOF);
    }
}

#[test]
fn non_ascii_letters_start_words() {
    assert_eq!(kinds("été Été"), vec![TokenType::Identifier, TokenType::Type, TokenType::EOF]);
}

#[test]
fn words_are_classified_by_keyword_then_case() {
    assert_eq!(vyl::lexer::classify_word(&['u', 's', 'e'], false), TokenType::Use);
    assert_eq!(vyl::lexer::classify_word(&['m', 'a', 't', 'c', 'h'], false), TokenType::Match);
    assert_eq!(vyl::lexer::classify_word(&['F', 'o', 'o'], true), TokenType::Type);
    assert_eq!(vyl::lexer::classify_word(&['f', 'o', 'o'], false), TokenType::Identifier);
    assert_eq!(vyl::lexer::classify_word(&['u', 's', 'e', 'r'], false), TokenType::Identifier);
}
