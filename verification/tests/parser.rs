use flycatcher::ast::{Ast, AstMeta, Opcode};
use flycatcher::diagnostic::{Context, Diagnostic, LabelStyle, Severity};
use flycatcher::lexer::Token;
use flycatcher::parser::Parser;

fn operator(op: &Opcode) -> &'static str {
    match op {
        Opcode::Period => ".",
        Opcode::Subscript => "[]",
        Opcode::Call => "()",
        Opcode::Colon => ":",
        Opcode::GreaterGreater => ">>",
        Opcode::LessLess => "<<",
        Opcode::EqualsEquals => "==",
        Opcode::ExclamationEquals => "!=",
        Opcode::GreaterEquals => ">=",
        Opcode::LessEquals => "<=",
        Opcode::AndAnd => "&&",
        Opcode::OrOr => "||",
        Opcode::Greater => ">",
        Opcode::Less => "<",
        Opcode::And => "&",
        Opcode::Or => "|",
        Opcode::Caret => "^",
        Opcode::Not => "~",
        Opcode::Equals => "=",
        Opcode::Plus => "+",
        Opcode::Minus => "-",
        Opcode::Asterisk => "*",
        Opcode::Slash => "/",
        Opcode::Percent => "%",
        Opcode::Exclamation => "!",
    }
}

fn list(nodes: &[AstMeta]) -> String {
    nodes.iter().map(show).collect::<Vec<_>>().join(" ")
}

fn show(node: &AstMeta) -> String {
    let text = match &node.item {
        Ast::IdentifierLiteral(name) => name.clone(),
        Ast::BooleanLiteral(b) => format!("{}", b),
        Ast::StringLiteral(s) => format!("{:?}", s),
        Ast::IntegerLiteral(i) => format!("{}", i),
        Ast::FloatLiteral(t) => format!("f{}", t),
        Ast::ArrayLiteral(items) => format!("[{}]", list(items)),
        Ast::UnaryExpr(op, a) => format!("({} {})", operator(op), show(a)),
        Ast::BinaryExpr(op, a, b) => format!("({} {} {})", operator(op), show(a), show(b)),
        Ast::SubscriptExpr(a, None) => format!("(index {})", show(a)),
        Ast::SubscriptExpr(a, Some(b)) => format!("(index {} {})", show(a), show(b)),
        Ast::CallExpr(a, args) => format!("(call {} [{}])", show(a), list(args)),
        Ast::IfStmnt { expr, block, branches } => {
            format!("(if {} {{{}}} [{}])", show(expr), list(block), list(branches))
        }
        Ast::WhileStmnt { expr, block } => format!("(while {} {{{}}})", show(expr), list(block)),
        Ast::Block(block) => format!("{{{}}}", list(block)),
        _ => "?".to_string(),
    };
    let text = if node.parenthesis { format!("<{}>", text) } else { text };
    if node.semicolon {
        format!("{};", text)
    } else {
        text
    }
}

struct Outcome {
    shown: Option<String>,
    spans: Vec<(usize, usize)>,
    codes: Vec<String>,
    successful: bool,
    diagnostics: Vec<Diagnostic>,
}

fn parse(source: &str) -> Outcome {
    let mut parser = Parser::new(Context::new("test.flyc", source));
    let ast = parser.parse();
    Outcome {
        shown: ast.as_ref().map(|nodes| list(nodes)),
        spans: ast
            .as_ref()
            .map(|nodes| nodes.iter().map(|n| (n.range.start, n.range.end)).collect())
            .unwrap_or_default(),
        codes: parser.context.diagnostics.iter().map(|d| d.code.clone()).collect(),
        successful: parser.successful,
        diagnostics: parser.context.diagnostics,
    }
}

fn shown(source: &str) -> String {
    let outcome = parse(source);
    assert!(outcome.successful, "{:?}", outcome.codes);
    assert!(outcome.codes.is_empty());
    outcome.shown.unwrap()
}

fn codes(source: &str) -> Vec<String> {
    let outcome = parse(source);
    assert!(!outcome.successful);
    assert!(outcome.shown.is_none());
    assert!(!outcome.codes.is_empty());
    outcome.codes
}

fn spans_lie_within(node: &AstMeta, len: usize) {
    assert!(node.range.start <= node.range.end && node.range.end <= len);
    match &node.item {
        Ast::ArrayLiteral(v) | Ast::Block(v) => v.iter().for_each(|n| spans_lie_within(n, len)),
        Ast::UnaryExpr(_, a) => spans_lie_within(a, len),
        Ast::BinaryExpr(_, a, b) => {
            spans_lie_within(a, len);
            spans_lie_within(b, len);
        }
        Ast::SubscriptExpr(a, b) => {
            spans_lie_within(a, len);
            if let Some(b) = b {
                spans_lie_within(b, len);
            }
        }
        Ast::CallExpr(a, v) => {
            spans_lie_within(a, len);
            v.iter().for_each(|n| spans_lie_within(n, len));
        }
        Ast::IfStmnt { expr, block, branches } => {
            spans_lie_within(expr, len);
            block.iter().for_each(|n| spans_lie_within(n, len));
            branches.iter().for_each(|n| spans_lie_within(n, len));
        }
        Ast::WhileStmnt { expr, block } => {
            spans_lie_within(expr, len);
            block.iter().for_each(|n| spans_lie_within(n, len));
        }
        _ => {}
    }
}

#[test]
fn multiplying_binds_tighter_than_adding() {
    assert_eq!(shown("a + b * c"), "(+ a (* b c))");
    assert_eq!(shown("a * b + c"), "(+ (* a b) c)");
    assert_eq!(shown("a - b - c"), "(- (- a b) c)");
    assert_eq!(shown("a == b + c * d"), "(== a (+ b (* c d)))");
    assert_eq!(shown("a || b && c | d ^ e & f"), "(|| a (&& b (| c (^ d (& e f)))))");
    assert_eq!(shown("a << b < c"), "(< (<< a b) c)");
}

#[test]
fn assignments_group_by_their_binding_powers() {
    assert_eq!(shown("a = b = c"), "(= (= a b) c)");
    assert_eq!(shown("a = b + c"), "(= a (+ b c))");
    assert_eq!(shown("a : b = c"), "(= (: a b) c)");
}

#[test]
fn member_access_binds_tighter_than_a_sign() {
    assert_eq!(shown("-a.b"), "(- (. a b))");
    assert_eq!(shown("-a + b"), "(+ (- a) b)");
    assert_eq!(shown("!a.b.c"), "(! (. a (. b c)))");
    assert_eq!(shown("- - a"), "(- (- a))");
    assert_eq!(shown("+a * b"), "(* (+ a) b)");
}

#[test]
fn postfix_operators_chain_and_member_access_binds_tightest() {
    assert_eq!(
        shown("fn()(arg1, arg2)[0].field"),
        "(. (index (call (call fn []) [arg1 arg2]) 0) field)"
    );
    assert_eq!(shown("a[]"), "(index a)");
    assert_eq!(shown("a[b[c]]"), "(index a (index b c))");
    assert_eq!(shown("f(a, b,)"), "(call f [a b])");
    assert_eq!(shown("-f(x)"), "(- (call f [x]))");
}

#[test]
fn an_if_statement_holds_its_branches() {
    let outcome = parse("if 1 == 1 { } else if 2 == 2 { } else { }");
    assert!(outcome.successful);
    assert_eq!(
        outcome.shown.unwrap(),
        "(if (== 1 1) {} [(if (== 2 2) {} []) {}])"
    );
    assert_eq!(outcome.spans, vec![(0, 41)]);
    let mut parser = Parser::new(Context::new("t", "if 1 == 1 { } else if 2 == 2 { } else { }"));
    let ast = parser.parse().unwrap();
    assert_eq!(ast.len(), 1);
    match &ast[0].item {
        Ast::IfStmnt { block, branches, .. } => {
            assert!(block.is_empty());
            assert_eq!(branches.len(), 2);
            assert_eq!(branches[0].range, 14..32);
            assert_eq!(branches[1].range, 33..41);
            match &branches[0].item {
                Ast::IfStmnt { branches: nested, .. } => assert!(nested.is_empty()),
                _ => panic!("the first branch is no if statement"),
            }
            assert!(matches!(&branches[1].item, Ast::Block(b) if b.is_empty()));
        }
        _ => panic!("no if statement"),
    }
}

#[test]
fn statements_blocks_and_semicolons() {
    assert_eq!(shown("x = 1; y = x + 2;"), "(= x 1); (= y (+ x 2));");
    assert_eq!(shown("x = 1 y = 2"), "(= x 1) (= y 2)");
    assert_eq!(shown(";; a ; ; b"), "a; b");
    assert_eq!(shown(""), "");
    assert_eq!(shown("while a < 3 { a = a + 1; ; b }"), "(while (< a 3) {(= a (+ a 1)); b})");
    assert_eq!(shown("if a { b } c"), "(if a {b} []) c");
    assert_eq!(shown("if a { } else { b; } c"), "(if a {} [{b;}]) c");
}

#[test]
fn literals_become_items() {
    assert_eq!(shown("true false"), "true false");
    assert_eq!(shown("\"hi\" 'a\\'b' \"\""), "\"hi\" \"a\\\\'b\" \"\"");
    assert_eq!(shown("18446744073709551615"), "18446744073709551615");
    assert_eq!(shown("007"), "7");
    assert_eq!(shown("4.2 .5 1e3 2E-2"), "f4.2 f.5 f1e3 f2E-2");
    assert_eq!(shown("[1, [2, 3], []]"), "[1 [2 3] []]");
    assert_eq!(shown("(a + b) * c"), "(* <(+ a b)> c)");
    assert_eq!(shown("((a))"), "<a>");
}

#[test]
fn documentation_comments_are_passed_over() {
    assert_eq!(shown("/// about x\nx = /// inside\n 1;"), "(= x 1);");
}

fn comments(source: &str) -> Vec<Vec<String>> {
    let mut parser = Parser::new(Context::new("t", source));
    let ast = parser.parse().unwrap();
    assert!(parser.comments.is_empty());
    ast.into_iter().map(|node| node.comments).collect()
}

#[test]
fn documentation_comments_are_attached_to_the_statement_that_follows() {
    let found = comments("/// about x\n///more\nx = 1;\n// plain\n/// about y\ny = 2 /// for z\n z\n/// none");
    assert_eq!(
        found,
        vec![
            vec!["about x".to_string(), "more".to_string()],
            vec!["about y".to_string()],
            vec!["for z".to_string()],
        ]
    );
    assert_eq!(comments("x = /// inside\n 1; y"), vec![Vec::<String>::new(), vec![]]);
    assert_eq!(comments("/// lost\n; x"), vec![Vec::<String>::new()]);
    let mut parser = Parser::new(Context::new("t", "/// outer\nif a { /// inner\n b; /// next\n c }"));
    let ast = parser.parse().unwrap();
    assert_eq!(ast[0].comments, vec!["outer"]);
    match &ast[0].item {
        Ast::IfStmnt { block, .. } => {
            assert_eq!(block[0].comments, vec!["inner"]);
            assert_eq!(block[1].comments, vec!["next"]);
        }
        _ => panic!("no if statement"),
    }
}

#[test]
fn every_span_lies_within_the_source() {
    let source = "if a[1](b, -c) { x = [1, 2.5, \"s\"]; } else if !d { } else { while e { f.g } }";
    let mut parser = Parser::new(Context::new("t", source));
    let ast = parser.parse().unwrap();
    for node in &ast {
        spans_lie_within(node, source.len());
    }
    assert_eq!(ast[0].range, 0..source.len());
    let mut parser = Parser::new(Context::new("t", "  a + (b)  "));
    let ast = parser.parse().unwrap();
    assert_eq!(ast[0].range, 2..9);
    match &ast[0].item {
        Ast::BinaryExpr(_, a, b) => {
            assert_eq!(a.range, 2..3);
            assert_eq!(b.range, 6..9);
        }
        _ => panic!("no binary expression"),
    }
}

#[test]
fn an_unclosed_string_is_reported_with_both_labels() {
    let outcome = parse("\"unterminated");
    assert!(!outcome.successful);
    assert!(outcome.shown.is_none());
    assert_eq!(outcome.codes, vec!["E0001"]);
    let diagnostic = &outcome.diagnostics[0];
    assert_eq!(diagnostic.severity, Severity::Error);
    assert_eq!(diagnostic.message, "unclosed string.");
    assert_eq!(diagnostic.labels.len(), 2);
    assert_eq!(diagnostic.labels[0].style, LabelStyle::Primary);
    assert_eq!(diagnostic.labels[0].range, 0..13);
    assert_eq!(diagnostic.labels[1].style, LabelStyle::Secondary);
    assert_eq!(diagnostic.labels[1].range, 0..1);
}

#[test]
fn each_fault_has_its_code() {
    assert_eq!(codes("if x \"abc"), vec!["E0001", "E0002"]);
    assert_eq!(codes("if x"), vec!["E0003"]);
    assert_eq!(codes("\u{a7}"), vec!["E0005"]);
    assert_eq!(codes("if x ;"), vec!["E0006"]);
    assert_eq!(codes("99999999999999999999"), vec!["E0007"]);
    assert_eq!(codes("18446744073709551616"), vec!["E0007"]);
    assert_eq!(codes("1 +"), vec!["E0008"]);
    assert_eq!(codes("-"), vec!["E0008"]);
    assert_eq!(codes("a["), vec!["E0009"]);
    assert_eq!(codes("if"), vec!["E0010"]);
    assert_eq!(codes("while"), vec!["E0010"]);
    assert_eq!(codes("if x {"), vec!["E0011"]);
    assert_eq!(codes("while x { y;"), vec!["E0011"]);
    assert_eq!(codes("if x {} else 5"), vec!["E0012"]);
    assert_eq!(codes("if x {} else"), vec!["E0012"]);
    assert_eq!(codes(")"), vec!["E0013"]);
    assert_eq!(codes("}"), vec!["E0013"]);
    assert_eq!(codes("x = declare"), vec!["E0013"]);
    assert_eq!(codes("[1, 2"), vec!["E0014"]);
    assert_eq!(codes("f(a"), vec!["E0014"]);
    assert_eq!(codes("[1 2]"), vec!["E0006"]);
    assert_eq!(codes("(a"), vec!["E0003"]);
    assert_eq!(codes("(a]"), vec!["E0006"]);
    assert_eq!(codes("a[1"), vec!["E0003"]);
    assert_eq!(codes("a = = b"), vec!["E0013"]);
}

#[test]
fn the_parser_gives_up_at_the_first_fault_and_never_hangs() {
    for source in ["@", "#", "\\", "a + + ; b", "if { }", "[[[", "a.(", "else", "1 2 3 )", "'"] {
        let outcome = parse(source);
        assert!(!outcome.successful, "{}", source);
        assert!(outcome.shown.is_none());
        assert!(!outcome.codes.is_empty());
        for diagnostic in &outcome.diagnostics {
            assert_eq!(diagnostic.severity, Severity::Error);
            for label in &diagnostic.labels {
                assert!(label.range.start <= label.range.end && label.range.end <= source.len());
            }
        }
    }
}

#[test]
fn a_parser_that_has_failed_stays_unsuccessful() {
    let mut parser = Parser::new(Context::new("t", ") a"));
    assert!(parser.parse().is_none());
    assert_eq!(parser.context.diagnostics.len(), 1);
    assert!(parser.parse().is_none());
    assert!(!parser.successful);
}

#[test]
fn parse_binary_stops_before_an_operator_that_binds_too_weakly() {
    let mut parser = Parser::new(Context::new("t", "a * b + c"));
    let node = parser.parse_binary(91).unwrap();
    assert_eq!(show(&node), "(* a b)");
    assert_eq!(parser.peek_token(), Some(Token::Plus));
    let mut parser = Parser::new(Context::new("t", ""));
    assert!(parser.parse_expression().is_none());
    assert!(parser.successful);
    assert!(parser.context.diagnostics.is_empty());
}

#[test]
fn eat_consumes_the_expected_token() {
    let mut parser = Parser::new(Context::new("t", "; x"));
    assert!(parser.eat(Token::Semicolon, false));
    assert!(parser.successful);
    assert!(!parser.eat(Token::Semicolon, false));
    assert!(!parser.successful);
    let codes: Vec<_> = parser.context.diagnostics.iter().map(|d| d.code.clone()).collect();
    assert_eq!(codes, vec!["E0006"]);
    assert_eq!(parser.context.diagnostics[0].message, "unexpected 'x'");
    assert!(!parser.eat(Token::LCurly, false));
    assert_eq!(parser.context.diagnostics[1].code, "E0003");
    assert_eq!(
        parser.context.diagnostics[1].message,
        "expected '{', instead we found the end of the file."
    );
}

#[test]
fn eat_gathers_documentation_comments() {
    let mut parser = Parser::new(Context::new("t", "/// first\n///second\n//// third \n{"));
    assert!(parser.eat(Token::LCurly, true));
    assert!(parser.successful);
    assert_eq!(parser.comments, vec!["first", "second", "third "]);
    assert!(parser.context.diagnostics.is_empty());

    let mut parser = Parser::new(Context::new("t", "/// no\n{"));
    assert!(parser.eat(Token::LCurly, false));
    assert!(!parser.successful);
    assert_eq!(parser.comments, vec!["no"]);
    assert_eq!(parser.context.diagnostics.len(), 1);
    assert_eq!(parser.context.diagnostics[0].code, "E0004");
    assert_eq!(parser.context.diagnostics[0].labels[0].range, 0..6);
}

#[test]
fn eat_reports_what_it_finds_instead() {
    let mut parser = Parser::new(Context::new("t", "'abc"));
    assert!(!parser.eat(Token::Identifier, false));
    let diagnostics = &parser.context.diagnostics;
    assert_eq!(diagnostics.len(), 2);
    assert_eq!(diagnostics[0].code, "E0001");
    assert_eq!(diagnostics[1].code, "E0002");
    assert_eq!(diagnostics[1].message, "expected a name, found string.");

    let mut parser = Parser::new(Context::new("t", "'abc"));
    assert!(!parser.eat(Token::String, false));
    assert_eq!(parser.context.diagnostics.len(), 1);

    let mut parser = Parser::new(Context::new("t", "?"));
    assert!(!parser.eat(Token::Comma, false));
    let diagnostic = &parser.context.diagnostics[0];
    assert_eq!(diagnostic.code, "E0005");
    assert_eq!(diagnostic.message, "invalid character: '?'");
    assert_eq!(diagnostic.labels.len(), 2);
    assert_eq!(diagnostic.labels[0].message, "unexpected '?' (invalid character)");
    assert_eq!(diagnostic.labels[1].message, "expected ','");
    assert_eq!(diagnostic.labels[1].style, LabelStyle::Secondary);

    let mut parser = Parser::new(Context::new("t", "1"));
    assert!(!parser.eat(Token::TrueKeyword, false));
    assert_eq!(parser.context.diagnostics[0].message, "expected 'true', found '1'.");
}

#[test]
fn eat_optional_leaves_other_tokens_where_they_are() {
    let mut parser = Parser::new(Context::new("t", "/// doc\nx ;"));
    assert!(!parser.eat_optional(Token::Semicolon, true));
    assert!(parser.successful);
    assert_eq!(parser.comments, vec!["doc"]);
    assert!(parser.eat_optional(Token::Identifier, true));
    assert!(parser.eat_optional(Token::Semicolon, true));
    assert!(!parser.eat_optional(Token::Semicolon, true));
    assert!(parser.successful);
    assert!(parser.context.diagnostics.is_empty());

    let mut parser = Parser::new(Context::new("t", "? x"));
    assert!(!parser.eat_optional(Token::Identifier, true));
    assert!(!parser.successful);
    assert_eq!(parser.context.diagnostics[0].code, "E0005");
    assert!(parser.eat_optional(Token::Identifier, true));
}

fn only_fault(source: &str) -> (String, String, usize, usize, String) {
    let outcome = parse(source);
    assert_eq!(outcome.diagnostics.len(), 1, "{}", source);
    let diagnostic = &outcome.diagnostics[0];
    assert_eq!(diagnostic.severity, Severity::Error);
    assert_eq!(diagnostic.labels.len(), 1);
    assert_eq!(diagnostic.labels[0].style, LabelStyle::Primary);
    assert!(diagnostic.notes.is_empty());
    (
        diagnostic.code.clone(),
        diagnostic.message.clone(),
        diagnostic.labels[0].range.start,
        diagnostic.labels[0].range.end,
        diagnostic.labels[0].message.clone(),
    )
}

fn fault(code: &str, message: &str, start: usize, end: usize, label: &str) -> (String, String, usize, usize, String) {
    (code.to_string(), message.to_string(), start, end, label.to_string())
}

#[test]
fn faults_point_at_their_cause() {
    assert_eq!(
        only_fault("if x"),
        fault(
            "E0003",
            "expected '{', instead we found the end of the file.",
            4,
            4,
            "unexpected end of file."
        )
    );
    assert_eq!(
        only_fault("if x ;"),
        fault("E0006", "expected '{', found ';'.", 5, 6, "unexpected ';'")
    );
    assert_eq!(
        only_fault(" 99999999999999999999"),
        fault("E0007", "invalid number (too large).", 1, 21, "this number is too large to handle.")
    );
    assert_eq!(
        only_fault("1 +"),
        fault(
            "E0008",
            "expected expression after operator",
            2,
            3,
            "expected expression [here] after '+' operator"
        )
    );
    assert_eq!(
        only_fault("a = !"),
        fault(
            "E0008",
            "expected expression after operator",
            4,
            5,
            "expected expression [here] after '!' operator"
        )
    );
    assert_eq!(
        only_fault("ab["),
        fault("E0009", "expected expression after operator", 2, 3, "expected a ']' here")
    );
    assert_eq!(
        only_fault("if"),
        fault(
            "E0010",
            "expected expression in 'if' statement.",
            0,
            2,
            "expected expression in 'if' statement (here)."
        )
    );
    assert_eq!(only_fault("x; while").2, 3);
    assert_eq!(only_fault("x; while").3, 8);
    assert_eq!(
        only_fault("if x {"),
        fault("E0011", "unclosed block statement.", 6, 6, "expected a closing '}' here.")
    );
    assert_eq!(
        only_fault("if x {} else 5"),
        fault("E0012", "expected '{' or 'if'", 8, 12, "expected one of '{' or 'if' after 'else'.")
    );
    assert_eq!(
        only_fault("x )"),
        fault("E0013", "expected a value.", 2, 3, "expected a value here, got )")
    );
    assert_eq!(
        only_fault("[1, 2"),
        fault("E0014", "expected a closing ']'", 5, 5, "expected a closing ']', found end of file")
    );
    assert_eq!(
        only_fault("f(1"),
        fault("E0014", "expected a closing ')'", 3, 3, "expected a closing ')', found end of file")
    );
    assert_eq!(
        only_fault("\u{a7}"),
        fault("E0005", "invalid character: '\u{a7}'", 0, 2, "unexpected '\u{a7}' (invalid character)")
    );
}
