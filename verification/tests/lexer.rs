use flycatcher::lexer::scan::read_token;
use flycatcher::lexer::{Lexer, Token};

fn tokens(source: &str) -> Vec<(Token, usize, usize, String)> {
    let mut lexer = Lexer::new(source);
    let mut found = Vec::new();
    while let Some(token) = lexer.next() {
        let span = lexer.span();
        found.push((token, span.start, span.end, lexer.slice().to_string()));
    }
    found
}

fn kinds(source: &str) -> Vec<Token> {
    tokens(source).into_iter().map(|t| t.0).collect()
}

fn slices(source: &str) -> Vec<String> {
    tokens(source).into_iter().map(|t| t.3).collect()
}

#[test]
fn a_statement_is_split_into_tokens_with_spans() {
    let found = tokens("x = 1;");
    assert_eq!(
        found,
        vec![
            (Token::Identifier, 0, 1, "x".to_string()),
            (Token::Equals, 2, 3, "=".to_string()),
            (Token::Number, 4, 5, "1".to_string()),
            (Token::Semicolon, 5, 6, ";".to_string()),
        ]
    );
}

#[test]
fn keywords_win_over_identifiers_only_when_they_are_the_whole_word() {
    assert_eq!(
        kinds("true false as declare pub priv if else while"),
        vec![
            Token::TrueKeyword,
            Token::FalseKeyword,
            Token::AsKeyword,
            Token::DeclareKeyword,
            Token::PubKeyword,
            Token::PrivKeyword,
            Token::IfKeyword,
            Token::ElseKeyword,
            Token::WhileKeyword,
        ]
    );
    assert_eq!(
        kinds("truex iffy _if $ a1 whil"),
        vec![Token::Identifier; 6]
    );
}

#[test]
fn operators_of_two_characters_win_over_their_first_character() {
    assert_eq!(
        kinds("== != >= <= >> << && ||"),
        vec![
            Token::EqualsEquals,
            Token::ExclamationEquals,
            Token::GreaterEquals,
            Token::LessEquals,
            Token::GreaterGreater,
            Token::LessLess,
            Token::AndAnd,
            Token::OrOr,
        ]
    );
    assert_eq!(
        kinds(">>= =! |&"),
        vec![
            Token::GreaterGreater,
            Token::Equals,
            Token::Equals,
            Token::Exclamation,
            Token::Or,
            Token::And,
        ]
    );
}

#[test]
fn every_punctuation_character_has_its_token() {
    assert_eq!(
        kinds("; { } [ ] ( ) > < . , : ! & | ^ ~ = + - * / %"),
        vec![
            Token::Semicolon,
            Token::LCurly,
            Token::RCurly,
            Token::LBrack,
            Token::RBrack,
            Token::LParen,
            Token::RParen,
            Token::Greater,
            Token::Less,
            Token::Period,
            Token::Comma,
            Token::Colon,
            Token::Exclamation,
            Token::And,
            Token::Or,
            Token::Caret,
            Token::Not,
            Token::Equals,
            Token::Plus,
            Token::Minus,
            Token::Asterisk,
            Token::Slash,
            Token::Percent,
        ]
    );
}

#[test]
fn numbers_run_as_far_as_their_pattern_allows() {
    assert_eq!(slices("42 4.2 4.2e1 4.2e+1 .42 7E-3"), vec!["42", "4.2", "4.2e1", "4.2e+1", ".42", "7E-3"]);
    assert_eq!(kinds("42 4.2 4.2e1 4.2e+1 .42 7E-3"), vec![Token::Number; 6]);
    assert_eq!(slices("1."), vec!["1", "."]);
    assert_eq!(kinds("1."), vec![Token::Number, Token::Period]);
    assert_eq!(slices("1e"), vec!["1", "e"]);
    assert_eq!(kinds("1e+"), vec![Token::Number, Token::Identifier, Token::Plus]);
    assert_eq!(slices("1.2.3"), vec!["1.2", ".3"]);
    assert_eq!(slices("0_identifier"), vec!["0", "_identifier"]);
}

#[test]
fn a_string_keeps_its_quotes_and_its_escapes() {
    let found = tokens(r#""a\"b" 'c' "d'e""#);
    assert_eq!(found[0], (Token::String, 0, 6, r#""a\"b""#.to_string()));
    assert_eq!(found[1], (Token::String, 7, 10, "'c'".to_string()));
    assert_eq!(found[2], (Token::String, 11, 16, r#""d'e""#.to_string()));
    assert_eq!(found.len(), 3);
}

#[test]
fn an_unclosed_string_is_an_invalid_string() {
    assert_eq!(
        tokens("\"unterminated"),
        vec![(Token::InvalidString, 0, 13, "\"unterminated".to_string())]
    );
    assert_eq!(kinds("'"), vec![Token::InvalidString]);
    assert_eq!(
        tokens("\"ab\\"),
        vec![
            (Token::InvalidString, 0, 3, "\"ab".to_string()),
            (Token::Invalid, 3, 4, "\\".to_string()),
        ]
    );
}

#[test]
fn construct_and_preprocessor_names_need_a_name_behind_the_sign() {
    assert_eq!(
        kinds("@func #include @ # @1"),
        vec![
            Token::ConstructIdentifier,
            Token::PreprocessorIdentifier,
            Token::Invalid,
            Token::Invalid,
            Token::Invalid,
            Token::Number,
        ]
    );
    assert_eq!(slices("@func #include"), vec!["@func", "#include"]);
}

#[test]
fn comments_are_skipped_and_documentation_comments_are_not() {
    let found = tokens("// plain\n/// doc\nx / y");
    assert_eq!(
        found,
        vec![
            (Token::DocComment, 9, 16, "/// doc".to_string()),
            (Token::Identifier, 17, 18, "x".to_string()),
            (Token::Slash, 19, 20, "/".to_string()),
            (Token::Identifier, 21, 22, "y".to_string()),
        ]
    );
}

#[test]
fn white_space_of_any_width_is_skipped() {
    let source = "a\t\u{0b}\u{0c} \u{85}\u{a0}\u{1680}\u{2000}\u{200a}\u{2028}\u{2029}\u{202f}\u{205f}\u{3000}\r\nb";
    assert_eq!(slices(source), vec!["a", "b"]);
}

#[test]
fn a_character_that_starts_no_token_is_invalid_as_a_whole() {
    let found = tokens("a\u{e9}\u{20ac}\u{1f600}?");
    assert_eq!(
        found,
        vec![
            (Token::Identifier, 0, 1, "a".to_string()),
            (Token::Invalid, 1, 3, "\u{e9}".to_string()),
            (Token::Invalid, 3, 6, "\u{20ac}".to_string()),
            (Token::Invalid, 6, 10, "\u{1f600}".to_string()),
            (Token::Invalid, 10, 11, "?".to_string()),
        ]
    );
}

#[test]
fn peek_tells_what_next_yields_and_moves_nothing() {
    let mut lexer = Lexer::new("  alpha // note\n + 2");
    loop {
        let before = lexer.span();
        let first = lexer.peek();
        let second = lexer.peek();
        assert_eq!(first, second);
        assert_eq!(lexer.span(), before);
        let taken = lexer.next();
        assert_eq!(taken, first);
        if taken.is_none() {
            break;
        }
    }
    assert_eq!(lexer.span(), 20..20);
    assert_eq!(lexer.slice(), "");
}

#[test]
fn a_fresh_lexer_stands_at_the_start() {
    let mut lexer = Lexer::new("ab");
    assert_eq!(lexer.span(), 0..0);
    assert_eq!(lexer.slice(), "");
    assert_eq!(lexer.next(), Some(Token::Identifier));
    assert_eq!(lexer.span(), 0..2);
    assert_eq!(lexer.next(), None);
    assert_eq!(lexer.span(), 2..2);
    assert_eq!(lexer.next(), None);
}

#[test]
fn the_tokens_tile_the_source() {
    let source = "/// doc\nx = \"s\" + 4.5e3; // c\n@f(\u{e9}) 'open\n";
    let bytes = source.as_bytes();
    let mut at = 0;
    let mut joined = Vec::new();
    while at < bytes.len() {
        let (_, end) = read_token(bytes, at);
        assert!(at < end && end <= bytes.len());
        joined.extend_from_slice(&bytes[at..end]);
        at = end;
    }
    assert_eq!(at, bytes.len());
    assert_eq!(joined, bytes);
}

#[test]
fn tokens_have_spellings_and_names() {
    assert_eq!(Token::LCurly.as_string(), Some("{".to_string()));
    assert_eq!(Token::EqualsEquals.as_string(), Some("==".to_string()));
    assert_eq!(Token::TrueKeyword.as_string(), Some("true".to_string()));
    assert_eq!(Token::Identifier.as_string(), None);
    assert_eq!(Token::Semicolon.as_string(), None);
    assert_eq!(Token::TrueKeyword.as_name(), Some("a boolean".to_string()));
    assert_eq!(Token::Identifier.as_name(), Some("a name".to_string()));
    assert_eq!(Token::ConstructIdentifier.as_name(), Some("a construct name".to_string()));
    assert_eq!(Token::PreprocessorIdentifier.as_name(), Some("a preprocessor name".to_string()));
    assert_eq!(Token::String.as_name(), Some("a string".to_string()));
    assert_eq!(Token::Number.as_name(), Some("a number".to_string()));
    assert_eq!(Token::DeclareKeyword.as_name(), Some("'declare'".to_string()));
    assert_eq!(Token::RBrack.as_name(), Some("']'".to_string()));
    assert_eq!(Token::Whitespace.as_name(), None);
}
