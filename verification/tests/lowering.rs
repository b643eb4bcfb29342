use flycatcher::compiler::{FlycatcherFrontend, FlycatcherType, Hir, HirMeta, SymbolTable, VariableType};
use flycatcher::diagnostic::{Context, LabelStyle, Severity};
use flycatcher::parser::Parser;

fn show(node: &HirMeta) -> String {
    match &node.item {
        Hir::Boolean(b) => format!("{}", b),
        Hir::Integer(i) => format!("{}", i),
        Hir::UnsignedInteger(u) => format!("{}u", u),
        Hir::Float(t) => format!("f{}", t),
        Hir::Named(n) => format!("Named({})", n),
        Hir::Add(l, r) => format!("Add({}, {})", show(l), show(r)),
        Hir::Subtract(l, r) => format!("Subtract({}, {})", show(l), show(r)),
        Hir::Multiply(l, r) => format!("Multiply({}, {})", show(l), show(r)),
        Hir::Divide(l, r) => format!("Divide({}, {})", show(l), show(r)),
        Hir::Assign(n, v) => match &n.item {
            Hir::Named(name) => format!("Set({}, {})", name, show(v)),
            _ => panic!("the target of an assignment is no name"),
        },
        Hir::NullString(t) => format!("NullString({:?})", t),
    }
}

fn lower(source: &'static str) -> FlycatcherFrontend<'static> {
    let mut parser = Parser::new(Context::new("test.flyc", source));
    let ast = parser.parse().expect("the source does not parse");
    let mut frontend = FlycatcherFrontend::new("test.flyc", source);
    frontend.convert(ast);
    frontend
}

fn program(frontend: &FlycatcherFrontend) -> Vec<String> {
    frontend.hir.iter().map(show).collect()
}

fn codes(frontend: &FlycatcherFrontend) -> Vec<String> {
    frontend.diagnostics.iter().map(|d| d.code.clone()).collect()
}

fn symbols(frontend: &FlycatcherFrontend) -> Vec<(String, VariableType)> {
    frontend.symbols.entries.iter().map(|s| (s.name.clone(), s.variable)).collect()
}

fn count_named(node: &HirMeta, name: &str) -> usize {
    match &node.item {
        Hir::Named(n) => (n == name) as usize,
        Hir::Add(l, r) | Hir::Subtract(l, r) | Hir::Multiply(l, r) | Hir::Divide(l, r) => {
            count_named(l, name) + count_named(r, name)
        }
        Hir::Assign(_, v) => count_named(v, name),
        _ => 0,
    }
}

fn well_typed(node: &HirMeta, symbols: &SymbolTable) -> bool {
    match &node.item {
        Hir::Add(l, r) | Hir::Subtract(l, r) | Hir::Multiply(l, r) | Hir::Divide(l, r) => {
            l.item.get_type(symbols) == r.item.get_type(symbols)
                && well_typed(l, symbols)
                && well_typed(r, symbols)
        }
        Hir::Assign(n, v) => n.item.get_type(symbols) == v.item.get_type(symbols) && well_typed(v, symbols),
        Hir::Named(n) => matches!(symbols.get(n), Some(VariableType::Defined(..))),
        _ => true,
    }
}

#[test]
fn two_assignments_are_lowered_and_the_reference_is_counted() {
    let frontend = lower("x = 1; y = x + 2;");
    assert!(frontend.successful());
    assert!(frontend.diagnostics.is_empty());
    assert_eq!(
        symbols(&frontend),
        vec![
            ("x".to_string(), VariableType::Defined(FlycatcherType::Size, 1, 0)),
            ("y".to_string(), VariableType::Defined(FlycatcherType::Size, 0, 1)),
        ]
    );
    assert_eq!(program(&frontend), vec!["Set(x, 1)", "Set(y, Add(Named(x), 2))"]);
    assert_eq!(frontend.hir[0].range, 0..5);
    assert_eq!(frontend.hir[1].range, 7..16);
    assert_eq!(frontend.hir[1].filename, "test.flyc");
}

#[test]
fn operands_of_two_types_are_reported_once() {
    let frontend = lower("x = 1; y = x + 2.0;");
    assert!(!frontend.successful());
    assert_eq!(codes(&frontend), vec!["FC0021"]);
    assert!(frontend.hir.is_empty());
    let diagnostic = &frontend.diagnostics[0];
    assert_eq!(diagnostic.severity, Severity::Error);
    assert_eq!(diagnostic.message, "cannot use two different types in expression.");
    assert_eq!(diagnostic.labels.len(), 3);
    assert_eq!(diagnostic.labels[0].style, LabelStyle::Secondary);
    assert_eq!(diagnostic.labels[0].range, 11..12);
    assert_eq!(diagnostic.labels[0].message, "this is a(n) 'size'");
    assert_eq!(diagnostic.labels[1].style, LabelStyle::Secondary);
    assert_eq!(diagnostic.labels[1].range, 15..18);
    assert_eq!(diagnostic.labels[1].message, "this is a(n) 'float64'");
    assert_eq!(diagnostic.labels[2].style, LabelStyle::Primary);
    assert_eq!(diagnostic.labels[2].range, 11..18);
    assert_eq!(
        diagnostic.labels[2].message,
        "both sides of this expression should be of type 'size'"
    );
}

#[test]
fn a_string_is_declared_and_then_defined() {
    let source = "x = \"hi\"";
    let mut parser = Parser::new(Context::new("test.flyc", source));
    let ast = parser.parse().unwrap();
    let mut frontend = FlycatcherFrontend::new("test.flyc", source);
    frontend.resolve_symbols(&ast);
    assert_eq!(
        symbols(&frontend),
        vec![("x".to_string(), VariableType::Declared(FlycatcherType::NullString))]
    );
    assert!(frontend.hir.is_empty());
    frontend.convert(ast);
    assert!(frontend.successful());
    assert_eq!(
        symbols(&frontend),
        vec![("x".to_string(), VariableType::Defined(FlycatcherType::NullString, 0, 0))]
    );
    assert_eq!(program(&frontend), vec!["Set(x, NullString(\"hi\"))"]);
}

#[test]
fn literals_have_their_types() {
    let frontend = lower("a = true; b = 9223372036854775807; c = 9223372036854775808; d = 1.5; e = 'x';");
    assert!(frontend.successful());
    assert_eq!(
        program(&frontend),
        vec![
            "Set(a, true)",
            "Set(b, 9223372036854775807)",
            "Set(c, 9223372036854775808u)",
            "Set(d, f1.5)",
            "Set(e, NullString(\"x\"))",
        ]
    );
    let types: Vec<_> = symbols(&frontend).into_iter().map(|s| s.1).collect();
    assert_eq!(
        types,
        vec![
            VariableType::Defined(FlycatcherType::Boolean, 0, 0),
            VariableType::Defined(FlycatcherType::Size, 0, 1),
            VariableType::Defined(FlycatcherType::Usize, 0, 2),
            VariableType::Defined(FlycatcherType::Float64, 0, 3),
            VariableType::Defined(FlycatcherType::NullString, 0, 4),
        ]
    );
}

#[test]
fn every_arithmetic_operator_has_its_item() {
    let frontend = lower("a = 8; b = a + a - a * a / a;");
    assert!(frontend.successful());
    assert_eq!(
        program(&frontend)[1],
        "Set(b, Subtract(Add(Named(a), Named(a)), Divide(Multiply(Named(a), Named(a)), Named(a))))"
    );
    assert_eq!(symbols(&frontend)[0].1, VariableType::Defined(FlycatcherType::Size, 5, 0));
}

#[test]
fn the_count_starts_again_when_a_variable_is_defined_again() {
    let frontend = lower("x = 1; y = x + x; x = 2; z = x;");
    assert!(frontend.successful());
    assert_eq!(
        symbols(&frontend),
        vec![
            ("x".to_string(), VariableType::Defined(FlycatcherType::Size, 1, 2)),
            ("y".to_string(), VariableType::Defined(FlycatcherType::Size, 0, 1)),
            ("z".to_string(), VariableType::Defined(FlycatcherType::Size, 0, 3)),
        ]
    );
}

#[test]
fn counts_are_the_numbers_of_references_and_items_are_well_typed() {
    let frontend = lower("a = 1; b = a + a * 2; c = b - a; d = 2.5; e = d / d; a; c = a + b;");
    assert!(frontend.successful());
    for symbol in &frontend.symbols.entries {
        match symbol.variable {
            VariableType::Defined(_, count, index) => {
                let references: usize =
                    frontend.hir.iter().map(|h| count_named(h, &symbol.name)).sum();
                if symbol.name != "c" {
                    assert_eq!(count, references, "{}", symbol.name);
                }
                assert!(index < frontend.hir.len());
                assert!(matches!(frontend.hir[index].item, Hir::Assign(..)));
            }
            VariableType::Declared(_) => panic!("a variable without a value"),
        }
    }
    for item in &frontend.hir {
        assert!(well_typed(item, &frontend.symbols));
    }
}

#[test]
fn each_fault_of_lowering_has_its_code() {
    assert_eq!(codes(&lower("y = x;")), vec!["FC0017"]);
    assert_eq!(codes(&lower("x;")), vec!["FC0017"]);
    assert_eq!(codes(&lower("x + 1; x = 1;")), vec!["FC0018"]);
    assert_eq!(codes(&lower("x = 1; x == 1;")), vec!["FC0019"]);
    assert_eq!(codes(&lower("x = 1; x + [1];")), vec!["FC0020"]);
    assert_eq!(codes(&lower("1 + true;")), vec!["FC0021"]);
    assert_eq!(codes(&lower("[1];")), vec!["FC0022"]);
    assert_eq!(codes(&lower("if 1 { }")), vec!["FC0022"]);
    assert_eq!(codes(&lower("1 = 2;")), vec!["FC0023"]);
    assert_eq!(codes(&lower("x = [1];")), vec!["FC0024"]);
    assert_eq!(codes(&lower("x = 1; x = 2.0;")), vec!["FC0025"]);
    assert_eq!(codes(&lower("a = 1; b = (c = 2);")), vec!["FC0017"]);
}

#[test]
fn a_fault_stops_lowering_and_is_the_only_one_reported() {
    let frontend = lower("x = 1; y = 2; x = true; z = w;");
    assert!(!frontend.successful());
    assert_eq!(codes(&frontend), vec!["FC0017"]);
    assert!(frontend.hir.is_empty());
    let frontend = lower("x = 1; 1 + true; y = 2; 2 + false;");
    assert_eq!(codes(&frontend), vec!["FC0021"]);
    assert_eq!(program(&frontend), vec!["Set(x, 1)"]);
    let diagnostic = &frontend.diagnostics[0];
    assert_eq!(diagnostic.labels[0].message, "this is a(n) 'size'");
    assert_eq!(diagnostic.labels[1].message, "this is a(n) 'boolean'");
}

#[test]
fn the_first_declaration_of_a_name_stands() {
    let source = "x = 1; x = 2.5;";
    let mut parser = Parser::new(Context::new("t", source));
    let ast = parser.parse().unwrap();
    let mut frontend = FlycatcherFrontend::new("t", source);
    frontend.resolve_symbols(&ast);
    assert!(frontend.successful());
    assert_eq!(
        symbols(&frontend),
        vec![("x".to_string(), VariableType::Declared(FlycatcherType::Size))]
    );
}

#[test]
fn the_symbol_table_holds_each_name_once() {
    let mut table = SymbolTable::new();
    assert_eq!(table.len(), 0);
    assert!(!table.contains_key("a"));
    assert_eq!(table.get("a"), None);
    table.insert("a".to_string(), VariableType::Declared(FlycatcherType::Boolean));
    table.insert("b".to_string(), VariableType::Declared(FlycatcherType::Size));
    table.insert("a".to_string(), VariableType::Defined(FlycatcherType::Boolean, 2, 7));
    assert_eq!(table.len(), 2);
    assert_eq!(table.position("a"), Some(0));
    assert_eq!(table.position("b"), Some(1));
    assert_eq!(table.get("a"), Some(VariableType::Defined(FlycatcherType::Boolean, 2, 7)));
    assert_eq!(table.get("b"), Some(VariableType::Declared(FlycatcherType::Size)));
    assert_eq!(table.get("a").unwrap().get_type(), FlycatcherType::Boolean);
    assert!(table.contains_key("b"));
    assert!(!table.contains_key("c"));
}

#[test]
fn types_have_names() {
    assert_eq!(FlycatcherType::Boolean.into(), "boolean");
    assert_eq!(FlycatcherType::Uint8.into(), "uint8");
    assert_eq!(FlycatcherType::Uint16.into(), "uint16");
    assert_eq!(FlycatcherType::Uint32.into(), "uint32");
    assert_eq!(FlycatcherType::Uint64.into(), "uint64");
    assert_eq!(FlycatcherType::Usize.into(), "usize");
    assert_eq!(FlycatcherType::Int8.into(), "int8");
    assert_eq!(FlycatcherType::Int16.into(), "int16");
    assert_eq!(FlycatcherType::Int32.into(), "int32");
    assert_eq!(FlycatcherType::Int64.into(), "int64");
    assert_eq!(FlycatcherType::Size.into(), "size");
    assert_eq!(FlycatcherType::Float32.into(), "float32");
    assert_eq!(FlycatcherType::Float64.into(), "float64");
    assert_eq!(FlycatcherType::NullString.into(), "nullstring");
}
