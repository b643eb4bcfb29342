//! The diagnostic reporter: structured messages about a source file, gathered in the order
//! in which they are found, and the plan by which they are written out.
//!
//! Writing to a terminal is left to the caller. The reporter decides what is written, in
//! which order, to which stream and in which style.

use std::ops::Range;
use vstd::prelude::*;
use vstd::string::*;

verus! {

/// How grave a diagnostic is.
#[derive(Clone, Copy, Debug, PartialEq, Eq, Structural)]
pub enum Severity {
    /// A fault of the compiler itself.
    Bug,
    /// A fault of the source that stops the compilation.
    Error,
    /// Something suspicious that does not stop the compilation.
    Warning,
    /// A remark.
    Note,
    /// Advice.
    Help,
}

impl Severity {
    /// Whether a diagnostic of this severity makes a phase fail.
    pub open spec fn is_failure(self) -> bool {
        self == Severity::Bug || self == Severity::Error
    }
}

/// The two ways in which a label underlines source text.
#[derive(Clone, Copy, Debug, PartialEq, Eq, Structural)]
pub enum LabelStyle {
    /// Points at the cause.
    Primary,
    /// Gives supporting context.
    Secondary,
}

/// A message attached to a range of the source.
#[derive(Debug)]
pub struct Label {
    /// How the range is underlined.
    pub style: LabelStyle,
    /// The bytes of the source that the label covers.
    pub range: Range<usize>,
    /// What the label says; may be empty.
    pub message: String,
}

/// The mathematical value of a label.
pub ghost struct LabelView {
    pub style: LabelStyle,
    pub start: int,
    pub end: int,
    pub message: Seq<char>,
}

impl Label {
    /// The mathematical value of the label.
    pub open spec fn view(&self) -> LabelView {
        LabelView {
            style: self.style,
            start: self.range.start as int,
            end: self.range.end as int,
            message: self.message@,
        }
    }

    /// A label of the given style over `range`, without a message.
    pub fn new(style: LabelStyle, range: Range<usize>) -> (r: Self)
        ensures
            r@ == (LabelView {
                style,
                start: range.start as int,
                end: range.end as int,
                message: Seq::empty(),
            }),
    {
        Label { style, range, message: String::new() }
    }

    /// A primary label over `range`, without a message.
    pub fn primary(range: Range<usize>) -> (r: Self)
        ensures
            r@ == (LabelView {
                style: LabelStyle::Primary,
                start: range.start as int,
                end: range.end as int,
                message: Seq::empty(),
            }),
    {
        Label::new(LabelStyle::Primary, range)
    }

    /// A secondary label over `range`, without a message.
    pub fn secondary(range: Range<usize>) -> (r: Self)
        ensures
            r@ == (LabelView {
                style: LabelStyle::Secondary,
                start: range.start as int,
                end: range.end as int,
                message: Seq::empty(),
            }),
    {
        Label::new(LabelStyle::Secondary, range)
    }

    /// The label with `message` as its message.
    pub fn with_message(self, message: String) -> (r: Self)
        ensures
            r@ == (LabelView { message: message@, ..self@ }),
    {
        Label { style: self.style, range: self.range, message }
    }

    /// A copy of the label.
    pub fn duplicate(&self) -> (r: Self)
        ensures
            r@ == self@,
    {
        Label {
            style: self.style,
            range: self.range.start..self.range.end,
            message: self.message.clone(),
        }
    }
}

/// A message about the source: how grave it is, its code, what it says, the places it
/// points at, and notes that follow it.
#[derive(Debug)]
pub struct Diagnostic {
    /// How grave the diagnostic is.
    pub severity: Severity,
    /// The stable code of the diagnostic, such as `E0001`; empty where it has none.
    pub code: String,
    /// What the diagnostic says.
    pub message: String,
    /// The places in the source that the diagnostic points at.
    pub labels: Vec<Label>,
    /// Notes that follow the diagnostic.
    pub notes: Vec<String>,
}

/// The mathematical value of a diagnostic.
pub ghost struct DiagnosticView {
    pub severity: Severity,
    pub code: Seq<char>,
    pub message: Seq<char>,
    pub labels: Seq<LabelView>,
    pub notes: Seq<Seq<char>>,
}

impl DiagnosticView {
    /// Whether every label lies within a source of `len` bytes.
    pub open spec fn within(self, len: int) -> bool {
        forall|i: int|
            0 <= i < self.labels.len() ==> 0 <= (#[trigger] self.labels[i]).start
                <= self.labels[i].end <= len
    }
}

impl Diagnostic {
    /// The mathematical value of the diagnostic.
    pub open spec fn view(&self) -> DiagnosticView {
        DiagnosticView {
            severity: self.severity,
            code: self.code@,
            message: self.message@,
            labels: Seq::new(self.labels@.len(), |i: int| self.labels@[i]@),
            notes: Seq::new(self.notes@.len(), |i: int| self.notes@[i]@),
        }
    }

    /// The value of a diagnostic of the given severity that says nothing yet.
    pub open spec fn blank(severity: Severity) -> DiagnosticView {
        DiagnosticView {
            severity,
            code: Seq::empty(),
            message: Seq::empty(),
            labels: Seq::empty(),
            notes: Seq::empty(),
        }
    }

    /// A diagnostic of the given severity, without code, message, labels or notes.
    pub fn new(severity: Severity) -> (r: Self)
        ensures
            r@ == Diagnostic::blank(severity),
    {
        let r = Diagnostic {
            severity,
            code: String::new(),
            message: String::new(),
            labels: Vec::new(),
            notes: Vec::new(),
        };
        assert(r@.labels =~= Seq::empty());
        assert(r@.notes =~= Seq::empty());
        r
    }

    /// An empty diagnostic of severity `Bug`.
    pub fn bug() -> (r: Self)
        ensures
            r@ == Diagnostic::blank(Severity::Bug),
    {
        Diagnostic::new(Severity::Bug)
    }

    /// An empty diagnostic of severity `Error`.
    pub fn error() -> (r: Self)
        ensures
            r@ == Diagnostic::blank(Severity::Error),
    {
        Diagnostic::new(Severity::Error)
    }

    /// An empty diagnostic of severity `Warning`.
    pub fn warning() -> (r: Self)
        ensures
            r@ == Diagnostic::blank(Severity::Warning),
    {
        Diagnostic::new(Severity::Warning)
    }

    /// An empty diagnostic of severity `Note`.
    pub fn note() -> (r: Self)
        ensures
            r@ == Diagnostic::blank(Severity::Note),
    {
        Diagnostic::new(Severity::Note)
    }

    /// An empty diagnostic of severity `Help`.
    pub fn help() -> (r: Self)
        ensures
            r@ == Diagnostic::blank(Severity::Help),
    {
        Diagnostic::new(Severity::Help)
    }

    /// The diagnostic with `code` as its code.
    pub fn with_code(self, code: &str) -> (r: Self)
        ensures
            r@ == (DiagnosticView { code: code@, ..self@ }),
    {
        Diagnostic {
            severity: self.severity,
            code: String::from_str(code),
            message: self.message,
            labels: self.labels,
            notes: self.notes,
        }
    }

    /// The diagnostic with `message` as its message.
    pub fn with_message(self, message: String) -> (r: Self)
        ensures
            r@ == (DiagnosticView { message: message@, ..self@ }),
    {
        Diagnostic {
            severity: self.severity,
            code: self.code,
            message,
            labels: self.labels,
            notes: self.notes,
        }
    }

    /// The diagnostic with `labels` as its labels.
    pub fn with_labels(self, labels: Vec<Label>) -> (r: Self)
        ensures
            r@ == (DiagnosticView { labels: Seq::new(labels@.len(), |i: int| labels@[i]@), ..self@ }),
    {
        Diagnostic {
            severity: self.severity,
            code: self.code,
            message: self.message,
            labels,
            notes: self.notes,
        }
    }

    /// The diagnostic with `notes` as its notes.
    pub fn with_notes(self, notes: Vec<String>) -> (r: Self)
        ensures
            r@ == (DiagnosticView { notes: Seq::new(notes@.len(), |i: int| notes@[i]@), ..self@ }),
    {
        Diagnostic {
            severity: self.severity,
            code: self.code,
            message: self.message,
            labels: self.labels,
            notes,
        }
    }

    /// A copy of the diagnostic.
    pub fn duplicate(&self) -> (r: Self)
        ensures
            r@ == self@,
    {
        let mut labels: Vec<Label> = Vec::new();
        let mut i: usize = 0;
        while i < self.labels.len()
            invariant
                i <= self.labels@.len(),
                labels@.len() == i,
                forall|j: int| 0 <= j < i ==> labels@[j]@ == self.labels@[j]@,
            decreases self.labels@.len() - i,
        {
            labels.push(self.labels[i].duplicate());
            i = i + 1;
        }
        let mut notes: Vec<String> = Vec::new();
        let mut k: usize = 0;
        while k < self.notes.len()
            invariant
                k <= self.notes@.len(),
                notes@.len() == k,
                forall|j: int| 0 <= j < k ==> notes@[j]@ == self.notes@[j]@,
            decreases self.notes@.len() - k,
        {
            notes.push(self.notes[k].clone());
            k = k + 1;
        }
        let r = Diagnostic {
            severity: self.severity,
            code: self.code.clone(),
            message: self.message.clone(),
            labels,
            notes,
        };
        assert(r@.labels =~= self@.labels);
        assert(r@.notes =~= self@.notes);
        r
    }
}

/// An error with a code, a message and one primary label.
pub open spec fn plain_error(
    code: Seq<char>,
    message: Seq<char>,
    start: int,
    end: int,
    label: Seq<char>,
) -> DiagnosticView {
    DiagnosticView {
        severity: Severity::Error,
        code,
        message,
        labels: seq![LabelView { style: LabelStyle::Primary, start, end, message: label }],
        notes: Seq::empty(),
    }
}

/// An error with a code, a message, a primary label and a secondary label.
pub open spec fn double_error(
    code: Seq<char>,
    message: Seq<char>,
    start: int,
    end: int,
    label: Seq<char>,
    second_start: int,
    second_end: int,
    second_label: Seq<char>,
) -> DiagnosticView {
    DiagnosticView {
        severity: Severity::Error,
        code,
        message,
        labels: seq![
            LabelView { style: LabelStyle::Primary, start, end, message: label },
            LabelView {
                style: LabelStyle::Secondary,
                start: second_start,
                end: second_end,
                message: second_label,
            },
        ],
        notes: Seq::empty(),
    }
}

/// Builds an error with one primary label.
pub fn error_at(code: &str, message: String, range: Range<usize>, label: String) -> (r: Diagnostic)
    ensures
        r@ == plain_error(code@, message@, range.start as int, range.end as int, label@),
{
    let mut labels: Vec<Label> = Vec::new();
    labels.push(Label::primary(range).with_message(label));
    let r = Diagnostic::error().with_code(code).with_labels(labels).with_message(message);
    assert(r@.labels =~= seq![
        LabelView {
            style: LabelStyle::Primary,
            start: range.start as int,
            end: range.end as int,
            message: label@,
        },
    ]);
    r
}

/// Builds an error with a primary and a secondary label.
pub fn error_at_two(
    code: &str,
    message: String,
    range: Range<usize>,
    label: String,
    second: Range<usize>,
    second_label: String,
) -> (r: Diagnostic)
    ensures
        r@ == double_error(
            code@,
            message@,
            range.start as int,
            range.end as int,
            label@,
            second.start as int,
            second.end as int,
            second_label@,
        ),
{
    let mut labels: Vec<Label> = Vec::new();
    labels.push(Label::primary(range).with_message(label));
    labels.push(Label::secondary(second).with_message(second_label));
    let r = Diagnostic::error().with_code(code).with_labels(labels).with_message(message);
    assert(r@.labels =~= seq![
        LabelView {
            style: LabelStyle::Primary,
            start: range.start as int,
            end: range.end as int,
            message: label@,
        },
        LabelView {
            style: LabelStyle::Secondary,
            start: second.start as int,
            end: second.end as int,
            message: second_label@,
        },
    ]);
    r
}

/// The values of a list of diagnostics.
pub open spec fn diagnostic_views(list: Seq<Diagnostic>) -> Seq<DiagnosticView> {
    Seq::new(list.len(), |i: int| list[i]@)
}

/// The colours of a terminal.
#[derive(Clone, Copy, Debug, PartialEq, Eq, Structural)]
pub enum Color {
    Black,
    Blue,
    Green,
    Red,
    Cyan,
    Magenta,
    Yellow,
    White,
}

/// How a piece of a rendered diagnostic is coloured.
#[derive(Clone, Copy, Debug, PartialEq, Eq, Structural)]
pub struct ColorSpec {
    /// The colour of the text; `None` for the terminal's own.
    pub fg: Option<Color>,
    /// Whether the text is bold.
    pub bold: bool,
    /// Whether the bright form of the colour is used.
    pub intense: bool,
}

impl ColorSpec {
    /// The bold, bright form of a colour.
    pub open spec fn strong(color: Color) -> ColorSpec {
        ColorSpec { fg: Some(color), bold: true, intense: true }
    }

    /// The bold, bright form of `color`.
    pub fn bold_intense(color: Color) -> (r: ColorSpec)
        ensures
            r == ColorSpec::strong(color),
    {
        ColorSpec { fg: Some(color), bold: true, intense: true }
    }
}

/// The characters with which the frame of a rendered diagnostic is drawn.
#[derive(Clone, Copy, Debug, PartialEq, Eq, Structural)]
pub enum Chars {
    /// Characters of the ASCII set only.
    Ascii,
    /// Box drawing characters.
    BoxDrawing,
}

/// The styles of the pieces of a rendered diagnostic that the reporter sets.
#[derive(Clone, Copy, Debug, PartialEq, Eq, Structural)]
pub struct Styles {
    /// The primary labels of a `Bug`.
    pub primary_label_bug: ColorSpec,
    /// The primary labels of an `Error`.
    pub primary_label_error: ColorSpec,
    /// The primary labels of a `Warning`.
    pub primary_label_warning: ColorSpec,
    /// The primary labels of a `Note`.
    pub primary_label_note: ColorSpec,
    /// The primary labels of a `Help`.
    pub primary_label_help: ColorSpec,
    /// Secondary labels.
    pub secondary_label: ColorSpec,
    /// The header of a `Note`.
    pub header_note: ColorSpec,
    /// The line numbers beside the source.
    pub line_number: ColorSpec,
    /// The border between the line numbers and the source.
    pub source_border: ColorSpec,
    /// The bullet before a note.
    pub note_bullet: ColorSpec,
}

/// How diagnostics are rendered. Every field may be changed after the reporter is made.
#[derive(Clone, Copy, Debug, PartialEq, Eq, Structural)]
pub struct Config {
    /// The characters of the frame.
    pub chars: Chars,
    /// The colours.
    pub styles: Styles,
}

impl Config {
    /// The reporter's own rendering: an ASCII frame; primary labels of bugs and errors in
    /// bold red, of warnings in bold yellow; everything else that is coloured in bold cyan.
    pub open spec fn standard() -> Config {
        Config {
            chars: Chars::Ascii,
            styles: Styles {
                primary_label_bug: ColorSpec::strong(Color::Red),
                primary_label_error: ColorSpec::strong(Color::Red),
                primary_label_warning: ColorSpec::strong(Color::Yellow),
                primary_label_note: ColorSpec::strong(Color::Cyan),
                primary_label_help: ColorSpec::strong(Color::Cyan),
                secondary_label: ColorSpec::strong(Color::Cyan),
                header_note: ColorSpec::strong(Color::Cyan),
                line_number: ColorSpec::strong(Color::Cyan),
                source_border: ColorSpec::strong(Color::Cyan),
                note_bullet: ColorSpec::strong(Color::Cyan),
            },
        }
    }

    /// The style in which the labels of a diagnostic of the given severity are drawn.
    pub open spec fn label_style(self, severity: Severity, style: LabelStyle) -> ColorSpec {
        match style {
            LabelStyle::Secondary => self.styles.secondary_label,
            LabelStyle::Primary => match severity {
                Severity::Bug => self.styles.primary_label_bug,
                Severity::Error => self.styles.primary_label_error,
                Severity::Warning => self.styles.primary_label_warning,
                Severity::Note => self.styles.primary_label_note,
                Severity::Help => self.styles.primary_label_help,
            },
        }
    }

    /// The style in which a label is drawn.
    pub fn style_of(&self, severity: Severity, style: LabelStyle) -> (r: ColorSpec)
        ensures
            r == self.label_style(severity, style),
    {
        match style {
            LabelStyle::Secondary => self.styles.secondary_label,
            LabelStyle::Primary => match severity {
                Severity::Bug => self.styles.primary_label_bug,
                Severity::Error => self.styles.primary_label_error,
                Severity::Warning => self.styles.primary_label_warning,
                Severity::Note => self.styles.primary_label_note,
                Severity::Help => self.styles.primary_label_help,
            },
        }
    }
}

/// The two streams of a terminal.
#[derive(Clone, Copy, Debug, PartialEq, Eq, Structural)]
pub enum Stream {
    /// The standard output.
    Stdout,
    /// The standard error.
    Stderr,
}

/// The stream that diagnostics of the given severity are written to: bugs and errors to the
/// standard error, all others to the standard output.
pub open spec fn stream_of(severity: Severity) -> Stream {
    if severity.is_failure() {
        Stream::Stderr
    } else {
        Stream::Stdout
    }
}

/// One diagnostic to write out, with the stream to write it to.
#[derive(Debug)]
pub struct Emission {
    /// Where the diagnostic goes.
    pub stream: Stream,
    /// The diagnostic.
    pub diagnostic: Diagnostic,
}

/// Whether the emissions are the given diagnostics, in their order, each on the stream of
/// its severity.
pub open spec fn emits(plan: Seq<Emission>, diagnostics: Seq<DiagnosticView>) -> bool {
    &&& plan.len() == diagnostics.len()
    &&& forall|i: int|
        0 <= i < plan.len() ==> (#[trigger] plan[i]).diagnostic@ == diagnostics[i]
            && plan[i].stream == stream_of(diagnostics[i].severity)
}

/// The reporter of one source file.
#[derive(Debug)]
pub struct Context<'a> {
    /// How diagnostics are rendered.
    pub config: Config,
    /// The name of the file, as diagnostics show it.
    pub filename: &'a str,
    /// The text of the file, from which diagnostics show snippets.
    pub source: &'a str,
    /// The diagnostics gathered so far, in the order in which they came.
    pub diagnostics: Vec<Diagnostic>,
}

impl<'a> Context<'a> {
    /// The values of the diagnostics gathered so far.
    pub open spec fn gathered(&self) -> Seq<DiagnosticView> {
        diagnostic_views(self.diagnostics@)
    }

    /// This reporter is a later state of `before`: for the same file, with the same
    /// rendering, holding what `before` held in the same places, and with labels that lie
    /// within a source of `len` bytes in all that is new.
    pub closed spec fn extends(&self, before: &Self, len: int) -> bool {
        &&& self.filename == before.filename
        &&& self.source == before.source
        &&& self.config == before.config
        &&& before.gathered().len() <= self.gathered().len()
        &&& forall|i: int|
            0 <= i < before.gathered().len() ==> (#[trigger] self.gathered()[i])
                == before.gathered()[i]
        &&& forall|i: int|
            before.gathered().len() <= i < self.gathered().len() ==> (#[trigger] self.gathered()[i]).within(len)
    }

    /// A reporter that extends another holds what the other gathered, in the same places,
    /// and points into the source with all that is new.
    pub proof fn extension_keeps_what_was_gathered(&self, before: &Self, len: int)
        requires
            self.extends(before, len),
        ensures
            self.filename == before.filename,
            self.source == before.source,
            self.config == before.config,
            before.gathered().len() <= self.gathered().len(),
            self.gathered().subrange(0, before.gathered().len() as int) == before.gathered(),
            forall|i: int|
                before.gathered().len() <= i < self.gathered().len() ==> (#[trigger] self.gathered()[i]).within(len),
    {
        assert(self.gathered().subrange(0, before.gathered().len() as int) =~= before.gathered());
    }

    /// A reporter that has not changed extends itself.
    pub proof fn lemma_extends_same(&self, before: &Self, len: int)
        requires
            self.filename == before.filename,
            self.source == before.source,
            self.config == before.config,
            self.gathered() == before.gathered(),
        ensures
            self.extends(before, len),
    {
    }

    /// A later state of a later state is a later state.
    pub broadcast proof fn lemma_extends_twice(&self, middle: &Self, before: &Self, len: int)
        requires
            #[trigger] self.extends(middle, len),
            #[trigger] middle.extends(before, len),
        ensures
            self.extends(before, len),
    {
    }

    /// A reporter for the file `filename` with the text `source`, with the standard
    /// rendering and no diagnostics.
    pub fn new(filename: &'a str, source: &'a str) -> (r: Self)
        ensures
            r.filename == filename,
            r.source == source,
            r.config == Config::standard(),
            r.gathered() == Seq::<DiagnosticView>::empty(),
    {
        let red = ColorSpec::bold_intense(Color::Red);
        let cyan = ColorSpec::bold_intense(Color::Cyan);
        let yellow = ColorSpec::bold_intense(Color::Yellow);
        let styles = Styles {
            primary_label_bug: red,
            primary_label_error: red,
            primary_label_warning: yellow,
            primary_label_note: cyan,
            primary_label_help: cyan,
            secondary_label: cyan,
            header_note: cyan,
            line_number: cyan,
            source_border: cyan,
            note_bullet: cyan,
        };
        let r = Context {
            config: Config { chars: Chars::Ascii, styles },
            filename,
            source,
            diagnostics: Vec::new(),
        };
        assert(r.gathered() =~= Seq::<DiagnosticView>::empty());
        r
    }

    /// Appends a diagnostic. The diagnostics gathered before keep their places.
    pub fn push(&mut self, diagnostic: Diagnostic)
        ensures
            final(self).gathered() == old(self).gathered().push(diagnostic@),
            final(self).config == old(self).config,
            final(self).filename == old(self).filename,
            final(self).source == old(self).source,
            forall|len: int| diagnostic@.within(len) ==> #[trigger] final(self).extends(old(self), len),
    {
        self.diagnostics.push(diagnostic);
        assert(self.gathered() =~= old(self).gathered().push(diagnostic@));
    }

    /// Plans the writing of one diagnostic: to the standard error if it is a bug or an
    /// error, to the standard output otherwise.
    pub fn emit_diagnostic(&self, diagnostic: Diagnostic) -> (r: Emission)
        ensures
            r.diagnostic == diagnostic,
            r.stream == stream_of(diagnostic.severity),
    {
        let stream = match diagnostic.severity {
            Severity::Bug | Severity::Error => Stream::Stderr,
            _ => Stream::Stdout,
        };
        Emission { stream, diagnostic }
    }

    /// Plans the writing of all diagnostics gathered so far, in the order in which they
    /// came. The reporter keeps them.
    pub fn emit(&self) -> (plan: Vec<Emission>)
        ensures
            emits(plan@, self.gathered()),
    {
        let mut plan: Vec<Emission> = Vec::new();
        let mut i: usize = 0;
        while i < self.diagnostics.len()
            invariant
                i <= self.diagnostics@.len(),
                plan@.len() == i,
                forall|j: int|
                    0 <= j < i ==> (#[trigger] plan@[j]).diagnostic@ == self.diagnostics@[j]@
                        && plan@[j].stream == stream_of(self.diagnostics@[j].severity),
            decreases self.diagnostics@.len() - i,
        {
            let copy = self.diagnostics[i].duplicate();
            plan.push(self.emit_diagnostic(copy));
            i = i + 1;
        }
        plan
    }

    /// Plans the writing of all diagnostics gathered so far, and forgets them.
    pub fn flush(&mut self) -> (plan: Vec<Emission>)
        ensures
            emits(plan@, old(self).gathered()),
            final(self).gathered() == Seq::<DiagnosticView>::empty(),
            final(self).config == old(self).config,
            final(self).filename == old(self).filename,
            final(self).source == old(self).source,
    {
        let plan = self.emit();
        self.diagnostics = Vec::new();
        assert(self.gathered() =~= Seq::<DiagnosticView>::empty());
        plan
    }
}

} // verus!
