use flycatcher::ast::{Ast, AstMeta, Opcode};
use flycatcher::compiler::lexer::{
    is_iden_continue, is_iden_start, is_line_term, is_punctuator, is_white_space, InvalidStrType,
    Lexer, Token,
};
use flycatcher::lexer::Token as SourceToken;
use flycatcher::link::{link_arguments, LinkerOptions};
use flycatcher::mem::{AllocString, FlycatcherString};
use flycatcher::resolve::{get_debug_name, module_file_name, strip_verbatim};
use flycatcher::text::{parse_decimal, slice_text};

#[test]
fn mod_test() {
    // This test reads all tokens of the lexer, which is initialized below.
    let mut lexer = Lexer::new("/// Hello, world!\n".to_string());
    let mut found = Vec::new();

    loop {
        let item = lexer.next();

        if item == None {
            // If there is no token left in the lexer, then we must end the loop.
            break;
        }

        let loc = lexer.loc();
        println!("{:#?}@{}:{} '{}'", item, loc.start, loc.end, lexer.slice());
        found.push((item.unwrap(), loc.start, loc.end, lexer.slice().to_string()));
    }

    assert_eq!(
        found,
        vec![
            (Token::DocComment, 0, 17, "/// Hello, world!".to_string()),
            (Token::LineTerm, 17, 18, "\n".to_string()),
        ]
    );
}

#[test]
fn string_index() {
    // Initialize a FlycatcherString.
    let str = AllocString::from_str("Hello, world!");

    assert_eq!(str.get(0), Some('H'));
    assert_eq!(str.get(1), Some('e'));
    assert_eq!(str.get(2), Some('l'));
    assert_eq!(str.get(3), Some('l'));
    assert_eq!(str.get(4), Some('o'));
    assert_eq!(str.get(5), Some(','));
    assert_eq!(str.get(6), Some(' '));
    assert_eq!(str.get(7), Some('w'));
    assert_eq!(str.get(8), Some('o'));
    assert_eq!(str.get(9), Some('r'));
    assert_eq!(str.get(10), Some('l'));
    assert_eq!(str.get(11), Some('d'));
    assert_eq!(str.get(12), Some('!'));
}

#[test]
fn a_string_is_read_and_written_by_index() {
    let mut text = AllocString::from_str("ab");
    assert_eq!(text.len(), 2);
    assert_eq!(text.get(2), None);
    text.put(1, 'z');
    text.put(5, 'q');
    text.push('!');
    assert_eq!(text.len(), 3);
    assert_eq!(text.get(0), Some('a'));
    assert_eq!(text.get(1), Some('z'));
    assert_eq!(text.get(2), Some('!'));
    let bytes = AllocString::from_str("\u{e9}");
    assert_eq!(bytes.len(), 2);
    assert_eq!(bytes.get(0), Some('\u{c3}'));
    assert_eq!(bytes.get(1), Some('\u{a9}'));
}

#[test]
fn characters_have_their_classes() {
    for c in ['\t', ' ', '\u{a0}', '\u{1680}', '\u{2000}', '\u{2005}', '\u{200a}', '\u{202f}', '\u{205f}', '\u{3000}'] {
        assert!(is_white_space(c));
        assert!(!is_line_term(c));
    }
    for c in ['\n', '\u{b}', '\u{c}', '\r', '\u{85}', '\u{2028}', '\u{2029}'] {
        assert!(is_line_term(c));
        assert!(!is_white_space(c));
    }
    for c in ['a', '\u{200b}', '\u{1fff}', '\u{e}', '\u{9f}'] {
        assert!(!is_white_space(c));
        assert!(!is_line_term(c));
    }
    for c in ";,.(){}[]@#~?:$=!<>-&|+*/^%".chars() {
        assert!(is_punctuator(c));
    }
    for c in ['a', '0', '_', ' ', '"', '\'', '\\', '`'] {
        assert!(!is_punctuator(c));
    }
    for c in ['a', 'Z', '_', '\u{e9}', '\u{3b1}'] {
        assert!(is_iden_start(c));
        assert!(is_iden_continue(c));
    }
    for c in ['0', '9', '\u{300}'] {
        assert!(!is_iden_start(c));
        assert!(is_iden_continue(c));
    }
    for c in ['$', ' ', '-', '\u{20ac}'] {
        assert!(!is_iden_start(c));
        assert!(!is_iden_continue(c));
    }
}

fn scan(source: &str) -> Vec<(Token, usize, usize)> {
    let mut lexer = Lexer::new(source.to_string());
    let mut found = Vec::new();
    while let Some(token) = lexer.next() {
        let loc = lexer.loc();
        found.push((token, loc.start, loc.end));
    }
    assert_eq!(lexer.next(), None);
    found
}

#[test]
fn the_lexer_over_characters_knows_comments_punctuation_and_strings() {
    assert_eq!(
        scan("+ //c\n/"),
        vec![
            (Token::Punctuator, 0, 1),
            (Token::WhiteSpace, 1, 2),
            (Token::LineComment, 2, 5),
            (Token::LineTerm, 5, 6),
            (Token::Punctuator, 6, 7),
        ]
    );
    assert_eq!(scan("//"), vec![(Token::LineComment, 0, 2)]);
    assert_eq!(scan("///"), vec![(Token::DocComment, 0, 3)]);
    assert_eq!(
        scan("\"a\\\"b\"'c'"),
        vec![(Token::Str { prefix: None }, 0, 6), (Token::Str { prefix: None }, 6, 9)]
    );
    assert_eq!(
        scan("'ab"),
        vec![(Token::InvalidStr { ty: InvalidStrType::UnclosedEOF, error_loc: 2..3 }, 0, 3)]
    );
    assert_eq!(
        scan("'ab\n"),
        vec![
            (Token::InvalidStr { ty: InvalidStrType::UnclosedLine, error_loc: 2..3 }, 0, 3),
            (Token::LineTerm, 3, 4),
        ]
    );
    assert_eq!(
        scan("'a\\"),
        vec![(Token::InvalidStr { ty: InvalidStrType::UnclosedEOF, error_loc: 2..3 }, 0, 3)]
    );
    assert_eq!(
        scan("'a\\\n"),
        vec![
            (Token::InvalidStr { ty: InvalidStrType::UnclosedLine, error_loc: 2..3 }, 0, 3),
            (Token::LineTerm, 3, 4),
        ]
    );
    assert_eq!(
        scan("a\u{e9}"),
        vec![(Token::Invalid, 0, 1), (Token::Invalid, 1, 2)]
    );
}

#[test]
fn tokens_of_the_lexer_over_characters_tell_their_kind() {
    assert!(Token::WhiteSpace.is_white_space());
    assert!(!Token::LineTerm.is_white_space());
    assert!(Token::LineTerm.is_line_term());
    assert!(!Token::WhiteSpace.is_line_term());
    assert!(Token::LineComment.is_comment());
    assert!(Token::DocComment.is_comment());
    assert!(!Token::Punctuator.is_comment());
    assert!(Token::Punctuator.is_punctuator());
    assert!(!Token::Invalid.is_punctuator());
    assert!(!Token::Str { prefix: None }.is_comment());
    let mut lexer = Lexer::new("a\u{e9}b".to_string());
    assert_eq!(lexer.loc(), 0..0);
    assert_eq!(lexer.slice(), "");
    lexer.next();
    lexer.next();
    assert_eq!(lexer.slice(), "\u{e9}");
}

#[test]
fn operators_have_their_binding_powers() {
    let table = [
        (Opcode::Period, Some((100, 99)), None, None),
        (Opcode::Subscript, None, None, Some(100)),
        (Opcode::Call, None, None, Some(98)),
        (Opcode::Exclamation, Some((93, 94)), Some(98), None),
        (Opcode::Not, Some((93, 94)), None, None),
        (Opcode::Asterisk, Some((91, 92)), None, None),
        (Opcode::Slash, Some((91, 92)), None, None),
        (Opcode::Percent, Some((91, 92)), None, None),
        (Opcode::Plus, Some((89, 90)), Some(97), None),
        (Opcode::Minus, Some((89, 90)), Some(97), None),
        (Opcode::GreaterGreater, Some((87, 88)), None, None),
        (Opcode::LessLess, Some((87, 88)), None, None),
        (Opcode::Greater, Some((85, 86)), None, None),
        (Opcode::Less, Some((85, 86)), None, None),
        (Opcode::GreaterEquals, Some((85, 86)), None, None),
        (Opcode::LessEquals, Some((85, 86)), None, None),
        (Opcode::EqualsEquals, Some((83, 84)), None, None),
        (Opcode::ExclamationEquals, Some((83, 84)), None, None),
        (Opcode::And, Some((81, 82)), None, None),
        (Opcode::Caret, Some((79, 80)), None, None),
        (Opcode::Or, Some((77, 78)), None, None),
        (Opcode::AndAnd, Some((75, 76)), None, None),
        (Opcode::OrOr, Some((73, 74)), None, None),
        (Opcode::Colon, Some((71, 72)), None, None),
        (Opcode::Equals, Some((69, 70)), None, None),
    ];
    for (op, infix, prefix, postfix) in table {
        assert_eq!(op.infix_precedence(), infix);
        assert_eq!(op.prefix_precedence(), prefix);
        assert_eq!(op.postfix_precedence(), postfix);
    }
    assert_eq!(Opcode::Period.type_infix_precedence(), Some((100, 99)));
    assert_eq!(Opcode::Plus.type_infix_precedence(), Some((97, 98)));
    assert_eq!(Opcode::Colon.type_infix_precedence(), Some((95, 96)));
    assert_eq!(Opcode::Minus.type_infix_precedence(), None);
    assert_eq!(Opcode::Subscript.type_postfix_precedence(), Some(100));
    assert_eq!(Opcode::Less.type_postfix_precedence(), Some(99));
    assert_eq!(Opcode::Call.type_postfix_precedence(), None);
}

#[test]
fn tokens_stand_for_operators() {
    assert_eq!(Opcode::from_token(SourceToken::LBrack), Some(Opcode::Subscript));
    assert_eq!(Opcode::from_token(SourceToken::LParen), Some(Opcode::Call));
    assert_eq!(Opcode::from_token(SourceToken::Period), Some(Opcode::Period));
    assert_eq!(Opcode::from_token(SourceToken::Not), Some(Opcode::Not));
    assert_eq!(Opcode::from_token(SourceToken::Exclamation), Some(Opcode::Exclamation));
    assert_eq!(Opcode::from_token(SourceToken::GreaterGreater), Some(Opcode::GreaterGreater));
    assert_eq!(Opcode::from_token(SourceToken::And), Some(Opcode::And));
    assert_eq!(Opcode::from_token(SourceToken::Equals), Some(Opcode::Equals));
    assert_eq!(Opcode::from_token(SourceToken::Semicolon), None);
    assert_eq!(Opcode::from_token(SourceToken::Identifier), None);
    assert_eq!(Opcode::from_token(SourceToken::RBrack), None);
}

#[test]
fn nodes_are_built_and_marked() {
    let mut node = AstMeta::new(3..7, Ast::BooleanLiteral(true));
    assert_eq!(node.range, 3..7);
    assert!(!node.semicolon && !node.parenthesis && node.comments.is_empty());
    node.semicolon();
    assert!(node.semicolon && !node.parenthesis);
    node.parenthesis();
    assert!(node.semicolon && node.parenthesis);
    let node = node.with_comments(vec!["doc".to_string()]);
    assert_eq!(node.comments, vec!["doc"]);
    assert!(node.semicolon && node.parenthesis);
    assert_eq!(node.range, 3..7);
    let boxed = AstMeta::boxed(1..2, Ast::IntegerLiteral(5));
    assert_eq!(boxed.range, 1..2);
    assert!(matches!(boxed.item, Ast::IntegerLiteral(5)));
    let again = node.as_box();
    assert!(matches!(again.item, Ast::BooleanLiteral(true)));
}

#[test]
fn text_is_sliced_between_characters_only() {
    let s = "a\u{e9}\u{20ac}b";
    assert_eq!(slice_text(s, 0, 1), "a");
    assert_eq!(slice_text(s, 1, 3), "\u{e9}");
    assert_eq!(slice_text(s, 1, 6), "\u{e9}\u{20ac}");
    assert_eq!(slice_text(s, 0, 7), s);
    assert_eq!(slice_text(s, 7, 7), "");
    assert_eq!(slice_text(s, 2, 3), "");
    assert_eq!(slice_text(s, 1, 4), "");
    assert_eq!(slice_text(s, 3, 1), "");
    assert_eq!(slice_text(s, 0, 8), "");
}

#[test]
fn digits_are_read_as_a_number_that_fits() {
    let s = b"x0123 18446744073709551615 18446744073709551616 12a";
    assert_eq!(parse_decimal(s, 1, 5), Some(123));
    assert_eq!(parse_decimal(s, 2, 3), Some(1));
    assert_eq!(parse_decimal(s, 6, 26), Some(u64::MAX));
    assert_eq!(parse_decimal(s, 27, 47), None);
    assert_eq!(parse_decimal(s, 48, 51), None);
    assert_eq!(parse_decimal(s, 0, 2), None);
    assert_eq!(parse_decimal(s, 3, 3), None);
}

#[test]
fn the_linker_gets_the_files_and_the_output_path() {
    let files = vec!["a.o".to_string(), "b.o".to_string()];
    assert_eq!(
        link_arguments(files.clone(), LinkerOptions { output_path: Some("out".to_string()) }),
        vec!["a.o", "b.o", "-o", "out"]
    );
    assert_eq!(link_arguments(files, LinkerOptions { output_path: None }), vec!["a.o", "b.o"]);
}

#[test]
fn module_names_get_their_extension_once() {
    assert_eq!(module_file_name("main"), "main.flyc");
    assert_eq!(module_file_name("main.flyc"), "main.flyc");
    assert_eq!(module_file_name(".flyc"), ".flyc");
    assert_eq!(module_file_name("flyc"), "flyc.flyc");
    assert_eq!(module_file_name(""), ".flyc");
    assert_eq!(strip_verbatim("\\\\?\\C:\\src\\a.flyc"), "C:\\src\\a.flyc");
    assert_eq!(strip_verbatim("C:\\src"), "C:\\src");
    assert_eq!(strip_verbatim("\\\\?"), "\\\\?");
    assert_eq!(strip_verbatim("\\\\?\\"), "");
}

#[test]
fn a_path_is_shown_as_it_is_reached_from_a_directory() {
    assert_eq!(get_debug_name("/a/b/c.flyc", "/a"), Some("b/c.flyc".to_string()));
    assert_eq!(get_debug_name("/a/b", "/a/c"), Some("../b".to_string()));
    assert_eq!(get_debug_name("/a", "/a"), Some("".to_string()));
    assert_eq!(get_debug_name("b", "/a"), None);
    assert_eq!(get_debug_name("\\\\?\\/a/b", "/a"), Some("b".to_string()));
}
