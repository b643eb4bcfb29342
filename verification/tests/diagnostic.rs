use flycatcher::diagnostic::{
    Chars, Color, ColorSpec, Config, Context, Diagnostic, Label, LabelStyle, Severity, Stream,
};

fn sample(severity: Severity, code: &str) -> Diagnostic {
    Diagnostic::new(severity)
        .with_code(code)
        .with_message(format!("message of {}", code))
        .with_labels(vec![
            Label::primary(0..5).with_message("first".to_string()),
            Label::secondary(7..12).with_message("second".to_string()),
        ])
        .with_notes(vec!["a note".to_string()])
}

#[test]
fn a_diagnostic_is_built_piece_by_piece() {
    let diagnostic = sample(Severity::Error, "E0001");
    assert_eq!(diagnostic.severity, Severity::Error);
    assert_eq!(diagnostic.code, "E0001");
    assert_eq!(diagnostic.message, "message of E0001");
    assert_eq!(diagnostic.labels.len(), 2);
    assert_eq!(diagnostic.labels[0].style, LabelStyle::Primary);
    assert_eq!(diagnostic.labels[0].range, 0..5);
    assert_eq!(diagnostic.labels[0].message, "first");
    assert_eq!(diagnostic.labels[1].style, LabelStyle::Secondary);
    assert_eq!(diagnostic.labels[1].range, 7..12);
    assert_eq!(diagnostic.notes, vec!["a note"]);
    let copy = diagnostic.duplicate();
    assert_eq!(copy.code, "E0001");
    assert_eq!(copy.labels[1].range, 7..12);
    assert_eq!(copy.labels[1].message, "second");
    assert_eq!(copy.notes, vec!["a note"]);
    assert_eq!(Diagnostic::bug().severity, Severity::Bug);
    assert_eq!(Diagnostic::error().severity, Severity::Error);
    assert_eq!(Diagnostic::warning().severity, Severity::Warning);
    assert_eq!(Diagnostic::note().severity, Severity::Note);
    assert_eq!(Diagnostic::help().severity, Severity::Help);
    assert!(Diagnostic::help().code.is_empty());
    assert!(Label::new(LabelStyle::Primary, 1..2).message.is_empty());
}

#[test]
fn diagnostics_are_written_in_the_order_in_which_they_came() {
    let mut context = Context::new("file.flyc", "Hello, world!");
    assert_eq!(context.filename, "file.flyc");
    assert_eq!(context.source, "Hello, world!");
    assert!(context.diagnostics.is_empty());
    context.push(sample(Severity::Warning, "W1"));
    context.push(sample(Severity::Error, "E2"));
    context.push(sample(Severity::Note, "N3"));
    context.push(sample(Severity::Bug, "B4"));
    context.push(sample(Severity::Help, "H5"));
    let plan = context.emit();
    let order: Vec<_> = plan.iter().map(|e| (e.diagnostic.code.clone(), e.stream)).collect();
    assert_eq!(
        order,
        vec![
            ("W1".to_string(), Stream::Stdout),
            ("E2".to_string(), Stream::Stderr),
            ("N3".to_string(), Stream::Stdout),
            ("B4".to_string(), Stream::Stderr),
            ("H5".to_string(), Stream::Stdout),
        ]
    );
    assert_eq!(context.diagnostics.len(), 5);
    assert_eq!(plan[1].diagnostic.labels[1].message, "second");
}

#[test]
fn flush_writes_and_forgets() {
    let mut context = Context::new("file.flyc", "source");
    context.push(sample(Severity::Error, "E1"));
    context.push(sample(Severity::Help, "H2"));
    let plan = context.flush();
    assert_eq!(plan.len(), 2);
    assert_eq!(plan[0].diagnostic.code, "E1");
    assert_eq!(plan[0].stream, Stream::Stderr);
    assert_eq!(plan[1].diagnostic.code, "H2");
    assert_eq!(plan[1].stream, Stream::Stdout);
    assert!(context.diagnostics.is_empty());
    assert!(context.flush().is_empty());
    assert!(context.emit().is_empty());
}

#[test]
fn one_diagnostic_goes_to_the_stream_of_its_severity() {
    let context = Context::new("f", "s");
    assert_eq!(context.emit_diagnostic(Diagnostic::bug()).stream, Stream::Stderr);
    assert_eq!(context.emit_diagnostic(Diagnostic::error()).stream, Stream::Stderr);
    assert_eq!(context.emit_diagnostic(Diagnostic::warning()).stream, Stream::Stdout);
    assert_eq!(context.emit_diagnostic(Diagnostic::note()).stream, Stream::Stdout);
    let emission = context.emit_diagnostic(sample(Severity::Help, "H"));
    assert_eq!(emission.stream, Stream::Stdout);
    assert_eq!(emission.diagnostic.code, "H");
}

#[test]
fn the_standard_rendering_is_ascii_with_bold_colours() {
    let mut context = Context::new("f", "s");
    let red = ColorSpec { fg: Some(Color::Red), bold: true, intense: true };
    let yellow = ColorSpec { fg: Some(Color::Yellow), bold: true, intense: true };
    let cyan = ColorSpec { fg: Some(Color::Cyan), bold: true, intense: true };
    assert_eq!(ColorSpec::bold_intense(Color::Red), red);
    assert_eq!(context.config.chars, Chars::Ascii);
    let config: Config = context.config;
    assert_eq!(config.style_of(Severity::Bug, LabelStyle::Primary), red);
    assert_eq!(config.style_of(Severity::Error, LabelStyle::Primary), red);
    assert_eq!(config.style_of(Severity::Warning, LabelStyle::Primary), yellow);
    assert_eq!(config.style_of(Severity::Note, LabelStyle::Primary), cyan);
    assert_eq!(config.style_of(Severity::Help, LabelStyle::Primary), cyan);
    assert_eq!(config.style_of(Severity::Error, LabelStyle::Secondary), cyan);
    assert_eq!(config.styles.header_note, cyan);
    assert_eq!(config.styles.line_number, cyan);
    assert_eq!(config.styles.source_border, cyan);
    assert_eq!(config.styles.note_bullet, cyan);
    context.config.chars = Chars::BoxDrawing;
    context.config.styles.secondary_label = red;
    assert_eq!(context.config.style_of(Severity::Note, LabelStyle::Secondary), red);
}
