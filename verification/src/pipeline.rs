//! The reports of the compiler pipeline and their structured diagnostics.

use crate::file_tree::SourceFile;
use crate::syntax::diagnostic::{DiagnosticSeverity, ParseError, parse_diagnostic, strings_view};
use crate::syntax::meta::{Span, Spans};
use crate::typechecker::error::{Level, TypeError};
use std::ops::Range;
use vstd::prelude::*;
use vstd::string::*;
use vstd::utf8::*;

verus! {

broadcast use vstd::std_specs::vec::group_vec_axioms;

/// Severity of a structured Roto compiler diagnostic.
#[derive(Clone, Copy, Debug, PartialEq, Eq, Structural)]
pub enum RotoDiagnosticSeverity {
    /// An error that prevents successful compilation.
    Error,
    /// A warning or secondary suggestion.
    Warning,
    /// Related explanatory information.
    Info,
}

/// One source label attached to a structured Roto diagnostic.
#[derive(Debug, PartialEq, Eq)]
pub struct RotoDiagnosticLabel {
    /// Index into [`RotoReport::files`].
    pub file: usize,
    /// Exact byte range within that source file.
    pub range: Range<usize>,
    /// Label severity.
    pub level: RotoDiagnosticSeverity,
    /// Human-readable label text.
    pub message: String,
}

/// A compiler diagnostic independent of its rendered terminal format.
#[derive(Debug, PartialEq, Eq)]
pub struct RotoDiagnostic {
    /// Diagnostic severity.
    pub severity: RotoDiagnosticSeverity,
    /// Human-readable primary message.
    pub message: String,
    /// Exact primary source span, when this diagnostic is source-related.
    pub span: Option<Span>,
    /// Primary and related source labels.
    pub labels: Vec<RotoDiagnosticLabel>,
    /// Additional explanatory notes.
    pub notes: Vec<String>,
    /// Suggested ways to resolve the diagnostic.
    pub help: Vec<String>,
}

/// An error from a compilation of a Roto script.
#[derive(Debug)]
pub enum RotoError {
    /// A file could not be read: its name and what the reader said.
    Read(String, String),
    Parse(ParseError),
    Type(TypeError),
    TestsFailed,
    /// A function could not be retrieved, for the reason given.
    CouldNotRetrieveFunction(String),
    Custom(String),
}

/// An error report containing a set of Roto errors.
#[derive(Debug)]
pub struct RotoReport {
    /// Files that were used during compilation.
    pub files: Vec<SourceFile>,
    pub errors: Vec<RotoError>,
    /// Spans of AST nodes.
    pub spans: Spans,
}

/// The mathematical view of a label: its file, its byte range, its level
/// and its message.
pub ghost struct RotoDiagnosticLabelV {
    pub file: usize,
    pub start: usize,
    pub end: usize,
    pub level: RotoDiagnosticSeverity,
    pub message: Seq<char>,
}

/// The mathematical view of a diagnostic.
#[verifier::ext_equal]
pub ghost struct RotoDiagnosticV {
    pub severity: RotoDiagnosticSeverity,
    pub message: Seq<char>,
    pub span: Option<Span>,
    pub labels: Seq<RotoDiagnosticLabelV>,
    pub notes: Seq<Seq<char>>,
    pub help: Seq<Seq<char>>,
}

impl View for RotoDiagnosticLabel {
    type V = RotoDiagnosticLabelV;

    open spec fn view(&self) -> RotoDiagnosticLabelV {
        RotoDiagnosticLabelV {
            file: self.file,
            start: self.range.start,
            end: self.range.end,
            level: self.level,
            message: self.message@,
        }
    }
}

impl View for RotoDiagnostic {
    type V = RotoDiagnosticV;

    open spec fn view(&self) -> RotoDiagnosticV {
        RotoDiagnosticV {
            severity: self.severity,
            message: self.message@,
            span: self.span,
            labels: Seq::new(self.labels@.len(), |i: int| self.labels@[i]@),
            notes: strings_view(self.notes@),
            help: strings_view(self.help@),
        }
    }
}

/// The level of a compiler label for the severity of a syntax label.
pub open spec fn syntax_level(s: DiagnosticSeverity) -> RotoDiagnosticSeverity {
    match s {
        DiagnosticSeverity::Error => RotoDiagnosticSeverity::Error,
        DiagnosticSeverity::Warning => RotoDiagnosticSeverity::Warning,
        DiagnosticSeverity::Info => RotoDiagnosticSeverity::Info,
    }
}

/// The level of a compiler label for the level of a type error label.
pub open spec fn type_level(l: Level) -> RotoDiagnosticSeverity {
    match l {
        Level::Error => RotoDiagnosticSeverity::Error,
        Level::Info => RotoDiagnosticSeverity::Info,
    }
}

/// A diagnostic that is no more than an error message.
pub open spec fn message_only(message: Seq<char>) -> RotoDiagnosticV {
    RotoDiagnosticV {
        severity: RotoDiagnosticSeverity::Error,
        message,
        span: None,
        labels: Seq::empty(),
        notes: Seq::empty(),
        help: Seq::empty(),
    }
}

/// Every AST node that a type error points at has a span.
pub open spec fn type_error_in(spans: Seq<Span>, e: TypeError) -> bool {
    &&& e.location.0 < spans.len()
    &&& forall|i: int| 0 <= i < e.labels@.len() ==> (#[trigger] e.labels@[i]).id.0 < spans.len()
}

/// Every AST node that an error points at has a span.
pub open spec fn error_in(spans: Seq<Span>, e: RotoError) -> bool {
    match e {
        RotoError::Type(t) => type_error_in(spans, t),
        _ => true,
    }
}

/// The structured diagnostic of an error, with the spans of the AST nodes.
pub open spec fn error_diagnostic(spans: Seq<Span>, e: RotoError) -> RotoDiagnosticV {
    match e {
        RotoError::Read(name, io) => message_only("Could not read file `"@ + name@ + "`: "@ + io@),
        RotoError::Parse(p) => {
            let d = parse_diagnostic(p);
            RotoDiagnosticV {
                severity: RotoDiagnosticSeverity::Error,
                message: "Parse error: "@ + d.message,
                span: Some(d.span),
                labels: Seq::new(
                    d.labels.len(),
                    |i: int|
                        RotoDiagnosticLabelV {
                            file: d.labels[i].span.file,
                            start: d.labels[i].span.start,
                            end: d.labels[i].span.end,
                            level: syntax_level(d.labels[i].severity),
                            message: d.labels[i].message,
                        },
                ),
                notes: d.notes,
                help: d.help,
            }
        },
        RotoError::Type(t) => RotoDiagnosticV {
            severity: RotoDiagnosticSeverity::Error,
            message: "Type error: "@ + t.description@,
            span: Some(spans[t.location.0 as int]),
            labels: Seq::new(
                t.labels@.len(),
                |i: int|
                    RotoDiagnosticLabelV {
                        file: spans[t.labels@[i].id.0 as int].file,
                        start: spans[t.labels@[i].id.0 as int].start,
                        end: spans[t.labels@[i].id.0 as int].end,
                        level: type_level(t.labels@[i].level),
                        message: t.labels@[i].message@,
                    },
            ),
            notes: strings_view(t.notes@),
            help: Seq::empty(),
        },
        RotoError::TestsFailed => message_only("Tests failed"@),
        RotoError::CouldNotRetrieveFunction(m) => message_only("Could not retrieve function: "@ + m@),
        RotoError::Custom(m) => message_only(m@),
    }
}

fn clone_strings(v: &Vec<String>) -> (res: Vec<String>)
    ensures
        strings_view(res@) == strings_view(v@),
{
    let mut out: Vec<String> = Vec::new();
    let mut i: usize = 0;
    while i < v.len()
        invariant
            i <= v@.len(),
            out@.len() == i,
            forall|k: int| 0 <= k < i ==> (#[trigger] out@[k])@ == v@[k]@,
        decreases v@.len() - i,
    {
        out.push(v[i].clone());
        i = i + 1;
    }
    assert(strings_view(out@) =~= strings_view(v@));
    out
}

fn message_only_diagnostic(message: String) -> (res: RotoDiagnostic)
    ensures
        res@ == message_only(message@),
{
    let res = RotoDiagnostic {
        severity: RotoDiagnosticSeverity::Error,
        message,
        span: None,
        labels: Vec::new(),
        notes: Vec::new(),
        help: Vec::new(),
    };
    assert(res@ =~= message_only(message@));
    res
}

/// The structured diagnostic of one error.
fn diagnostic_of(spans: &Spans, error: &RotoError) -> (res: RotoDiagnostic)
    requires
        error_in(spans@, *error),
    ensures
        res@ == error_diagnostic(spans@, *error),
{
    match error {
        RotoError::Read(name, io) => {
            let mut m = String::from_str("Could not read file `");
            m.append(name.as_str());
            m.append("`: ");
            m.append(io.as_str());
            message_only_diagnostic(m)
        },
        RotoError::Parse(p) => {
            let d = p.diagnostic();
            let ghost dv = d@;
            let mut message = String::from_str("Parse error: ");
            message.append(d.message.as_str());
            let mut labels: Vec<RotoDiagnosticLabel> = Vec::new();
            let mut i: usize = 0;
            while i < d.labels.len()
                invariant
                    i <= d.labels@.len(),
                    dv == d@,
                    labels@.len() == i,
                    forall|k: int|
                        0 <= k < i ==> (#[trigger] labels@[k])@ == (RotoDiagnosticLabelV {
                            file: dv.labels[k].span.file,
                            start: dv.labels[k].span.start,
                            end: dv.labels[k].span.end,
                            level: syntax_level(dv.labels[k].severity),
                            message: dv.labels[k].message,
                        }),
                decreases d.labels@.len() - i,
            {
                let l = &d.labels[i];
                let level = match l.severity {
                    DiagnosticSeverity::Error => RotoDiagnosticSeverity::Error,
                    DiagnosticSeverity::Warning => RotoDiagnosticSeverity::Warning,
                    DiagnosticSeverity::Info => RotoDiagnosticSeverity::Info,
                };
                labels.push(
                    RotoDiagnosticLabel {
                        file: l.span.file,
                        range: l.span.start..l.span.end,
                        level,
                        message: l.message.clone(),
                    },
                );
                i = i + 1;
            }
            let res = RotoDiagnostic {
                severity: RotoDiagnosticSeverity::Error,
                message,
                span: Some(d.span),
                labels,
                notes: clone_strings(&d.notes),
                help: clone_strings(&d.help),
            };
            proof {
                assert(res@ =~= error_diagnostic(spans@, *error));
            }
            res
        },
        RotoError::Type(t) => {
            let span = spans.get(t.location);
            let mut message = String::from_str("Type error: ");
            message.append(t.description.as_str());
            let mut labels: Vec<RotoDiagnosticLabel> = Vec::new();
            let mut i: usize = 0;
            while i < t.labels.len()
                invariant
                    i <= t.labels@.len(),
                    type_error_in(spans@, *t),
                    labels@.len() == i,
                    forall|k: int|
                        0 <= k < i ==> (#[trigger] labels@[k])@ == (RotoDiagnosticLabelV {
                            file: spans@[t.labels@[k].id.0 as int].file,
                            start: spans@[t.labels@[k].id.0 as int].start,
                            end: spans@[t.labels@[k].id.0 as int].end,
                            level: type_level(t.labels@[k].level),
                            message: t.labels@[k].message@,
                        }),
                decreases t.labels@.len() - i,
            {
                let l = &t.labels[i];
                let s = spans.get(l.id);
                let level = match l.level {
                    Level::Error => RotoDiagnosticSeverity::Error,
                    Level::Info => RotoDiagnosticSeverity::Info,
                };
                labels.push(RotoDiagnosticLabel { file: s.file, range: s.start..s.end, level, message: l.message.clone() });
                i = i + 1;
            }
            let res = RotoDiagnostic {
                severity: RotoDiagnosticSeverity::Error,
                message,
                span: Some(span),
                labels,
                notes: clone_strings(&t.notes),
                help: Vec::new(),
            };
            proof {
                assert(res@ =~= error_diagnostic(spans@, *error));
            }
            res
        },
        RotoError::TestsFailed => message_only_diagnostic(String::from_str("Tests failed")),
        RotoError::CouldNotRetrieveFunction(m) => {
            let mut message = String::from_str("Could not retrieve function: ");
            message.append(m.as_str());
            message_only_diagnostic(message)
        },
        RotoError::Custom(m) => message_only_diagnostic(m.clone()),
    }
}

impl RotoReport {
    /// Every AST node that an error of this report points at has a span.
    pub open spec fn errors_in_spans(&self) -> bool {
        forall|i: int| 0 <= i < self.errors@.len() ==> error_in(self.spans@, #[trigger] self.errors@[i])
    }

    /// Return structured compiler diagnostics with exact byte ranges, one
    /// for each error, in order.
    pub fn diagnostics(&self) -> (res: Vec<RotoDiagnostic>)
        requires
            self.errors_in_spans(),
        ensures
            res@.len() == self.errors@.len(),
            forall|i: int| 0 <= i < res@.len() ==> (#[trigger] res@[i])@ == error_diagnostic(self.spans@, self.errors@[i]),
    {
        let mut out: Vec<RotoDiagnostic> = Vec::new();
        let mut i: usize = 0;
        while i < self.errors.len()
            invariant
                i <= self.errors@.len(),
                self.errors_in_spans(),
                out@.len() == i,
                forall|k: int| 0 <= k < i ==> (#[trigger] out@[k])@ == error_diagnostic(self.spans@, self.errors@[k]),
            decreases self.errors@.len() - i,
        {
            out.push(diagnostic_of(&self.spans, &self.errors[i]));
            i = i + 1;
        }
        out
    }
}

// ---------------------------------------------------------------------
// What a rendering of the report shows

/// A label as a rendering shows it: the name of its file, its range of
/// characters in that file, its message and its level.
#[derive(Debug)]
pub struct LabelPlan {
    pub file: String,
    pub range: Range<usize>,
    pub message: String,
    pub level: RotoDiagnosticSeverity,
}

/// A diagnostic as a rendering shows it: a plain message when it has no
/// span, or a report at the name of its file and its range of characters
/// there, with its message, labels, notes and help.
#[derive(Debug)]
pub enum ReportPlan {
    Plain(String),
    Report {
        file: String,
        range: Range<usize>,
        message: String,
        labels: Vec<LabelPlan>,
        notes: Vec<String>,
        help: Vec<String>,
    },
}

pub ghost struct LabelPlanV {
    pub file: Seq<char>,
    pub start: int,
    pub end: int,
    pub message: Seq<char>,
    pub level: RotoDiagnosticSeverity,
}

#[verifier::ext_equal]
pub ghost enum ReportPlanV {
    Plain(Seq<char>),
    Report {
        file: Seq<char>,
        start: int,
        end: int,
        message: Seq<char>,
        labels: Seq<LabelPlanV>,
        notes: Seq<Seq<char>>,
        help: Seq<Seq<char>>,
    },
}

impl View for LabelPlan {
    type V = LabelPlanV;

    open spec fn view(&self) -> LabelPlanV {
        LabelPlanV {
            file: self.file@,
            start: self.range.start as int,
            end: self.range.end as int,
            message: self.message@,
            level: self.level,
        }
    }
}

impl View for ReportPlan {
    type V = ReportPlanV;

    open spec fn view(&self) -> ReportPlanV {
        match self {
            ReportPlan::Plain(m) => ReportPlanV::Plain(m@),
            ReportPlan::Report { file, range, message, labels, notes, help } => ReportPlanV::Report {
                file: file@,
                start: range.start as int,
                end: range.end as int,
                message: message@,
                labels: Seq::new(labels@.len(), |i: int| labels@[i]@),
                notes: strings_view(notes@),
                help: strings_view(help@),
            },
        }
    }
}

/// The bytes of a source file.
pub open spec fn file_bytes(f: SourceFile) -> Seq<u8> {
    encode_utf8(f.contents@)
}

/// A byte range of a file of `files` that starts and ends on characters.
pub open spec fn range_ok(files: Seq<SourceFile>, file: usize, start: usize, end: usize) -> bool {
    &&& file < files.len()
    &&& start <= end <= file_bytes(files[file as int]).len()
    &&& is_char_boundary(file_bytes(files[file as int]), start as int)
    &&& is_char_boundary(file_bytes(files[file as int]), end as int)
}

/// The number of characters of a file before a byte offset.
pub open spec fn chars_before(files: Seq<SourceFile>, file: usize, offset: usize) -> int {
    decode_utf8(file_bytes(files[file as int]).subrange(0, offset as int)).len() as int
}

/// Every span and label of a diagnostic lies in the files.
pub open spec fn renderable(files: Seq<SourceFile>, d: RotoDiagnosticV) -> bool {
    &&& d.span matches Some(sp) ==> range_ok(files, sp.file, sp.start, sp.end)
    &&& forall|i: int| 0 <= i < d.labels.len() ==> range_ok(files, (#[trigger] d.labels[i]).file, d.labels[i].start, d.labels[i].end)
}

/// What a rendering shows of a diagnostic: ranges of characters in place
/// of ranges of bytes, and names of files in place of their positions.
pub open spec fn plan_of(files: Seq<SourceFile>, d: RotoDiagnosticV) -> ReportPlanV {
    match d.span {
        None => ReportPlanV::Plain(d.message),
        Some(sp) => ReportPlanV::Report {
            file: files[sp.file as int].name@,
            start: chars_before(files, sp.file, sp.start),
            end: chars_before(files, sp.file, sp.end),
            message: d.message,
            labels: Seq::new(
                d.labels.len(),
                |i: int|
                    LabelPlanV {
                        file: files[d.labels[i].file as int].name@,
                        start: chars_before(files, d.labels[i].file, d.labels[i].start),
                        end: chars_before(files, d.labels[i].file, d.labels[i].end),
                        message: d.labels[i].message,
                        level: d.labels[i].level,
                    },
            ),
            notes: d.notes,
            help: d.help,
        },
    }
}

/// Each label of a type error's diagnostic points at the span of that
/// label's own node, and the error's own location only decides the
/// diagnostic's main span: two type errors that differ only in their
/// location have the same labels.
pub proof fn law_type_labels_point_at_their_own_nodes(spans: Seq<Span>, t: TypeError, u: TypeError)
    requires
        u.description == t.description,
        u.labels == t.labels,
        u.notes == t.notes,
    ensures
        error_diagnostic(spans, RotoError::Type(t)).span == Some(spans[t.location.0 as int]),
        error_diagnostic(spans, RotoError::Type(t)).labels.len() == t.labels@.len(),
        forall|i: int|
            0 <= i < t.labels@.len() ==> {
                let l = #[trigger] error_diagnostic(spans, RotoError::Type(t)).labels[i];
                let s = spans[t.labels@[i].id.0 as int];
                l.file == s.file && l.start == s.start && l.end == s.end && l.message == t.labels@[i].message@
            },
        error_diagnostic(spans, RotoError::Type(u)).labels == error_diagnostic(spans, RotoError::Type(t)).labels,
{
    assert(error_diagnostic(spans, RotoError::Type(u)).labels =~= error_diagnostic(spans, RotoError::Type(t)).labels);
}

/// A rendering says all that its diagnostic says: a diagnostic without a
/// span shows as its message; one with a span shows its message, each of
/// its labels with the label's message and level, its notes and its help.
pub proof fn law_rendering_keeps_every_message(files: Seq<SourceFile>, d: RotoDiagnosticV)
    ensures
        match plan_of(files, d) {
            ReportPlanV::Plain(m) => d.span is None && m == d.message,
            ReportPlanV::Report { message, labels, notes, help, .. } => {
                &&& d.span is Some
                &&& message == d.message
                &&& labels.len() == d.labels.len()
                &&& forall|i: int|
                    0 <= i < labels.len() ==> (#[trigger] labels[i]).message == d.labels[i].message
                        && labels[i].level == d.labels[i].level
                &&& notes == d.notes
                &&& help == d.help
            },
        },
{
}

/// The characters of a byte range of a file.
fn char_range(files: &Vec<SourceFile>, file: usize, start: usize, end: usize) -> (res: Range<usize>)
    requires
        range_ok(files@, file, start, end),
    ensures
        res.start == chars_before(files@, file, start),
        res.end == chars_before(files@, file, end),
{
    Span { file, start, end }.character_range(files[file].contents.as_str())
}

fn plan_of_diagnostic(files: &Vec<SourceFile>, d: &RotoDiagnostic) -> (res: ReportPlan)
    requires
        renderable(files@, d@),
    ensures
        res@ == plan_of(files@, d@),
{
    match d.span {
        None => ReportPlan::Plain(d.message.clone()),
        Some(sp) => {
            let range = char_range(files, sp.file, sp.start, sp.end);
            let mut labels: Vec<LabelPlan> = Vec::new();
            let mut i: usize = 0;
            while i < d.labels.len()
                invariant
                    i <= d.labels@.len(),
                    renderable(files@, d@),
                    d@.span == Some(sp),
                    labels@.len() == i,
                    forall|k: int|
                        0 <= k < i ==> (#[trigger] labels@[k])@ == (LabelPlanV {
                            file: files@[d@.labels[k].file as int].name@,
                            start: chars_before(files@, d@.labels[k].file, d@.labels[k].start),
                            end: chars_before(files@, d@.labels[k].file, d@.labels[k].end),
                            message: d@.labels[k].message,
                            level: d@.labels[k].level,
                        }),
                decreases d.labels@.len() - i,
            {
                let l = &d.labels[i];
                proof {
                    assert(d@.labels[i as int] == l@);
                }
                let r = char_range(files, l.file, l.range.start, l.range.end);
                labels.push(LabelPlan { file: files[l.file].name(), range: r, message: l.message.clone(), level: l.level });
                i = i + 1;
            }
            let res = ReportPlan::Report {
                file: files[sp.file].name(),
                range,
                message: d.message.clone(),
                labels,
                notes: clone_strings(&d.notes),
                help: clone_strings(&d.help),
            };
            proof {
                assert(res@ =~= plan_of(files@, d@));
            }
            res
        },
    }
}

impl RotoReport {
    /// Every span and label of every diagnostic of this report lies in its
    /// files.
    pub open spec fn renderable_in_files(&self) -> bool {
        forall|i: int|
            0 <= i < self.errors@.len() ==> renderable(self.files@, error_diagnostic(self.spans@, #[trigger] self.errors@[i]))
    }

    /// What a rendering of this report shows, diagnostic by diagnostic.
    pub fn rendering(&self) -> (res: Vec<ReportPlan>)
        requires
            self.errors_in_spans(),
            self.renderable_in_files(),
        ensures
            res@.len() == self.errors@.len(),
            forall|i: int|
                0 <= i < res@.len() ==> (#[trigger] res@[i])@ == plan_of(self.files@, error_diagnostic(self.spans@, self.errors@[i])),
    {
        let diagnostics = self.diagnostics();
        let mut out: Vec<ReportPlan> = Vec::new();
        let mut i: usize = 0;
        while i < diagnostics.len()
            invariant
                i <= diagnostics@.len(),
                diagnostics@.len() == self.errors@.len(),
                self.renderable_in_files(),
                forall|k: int| 0 <= k < diagnostics@.len() ==> (#[trigger] diagnostics@[k])@ == error_diagnostic(self.spans@, self.errors@[k]),
                out@.len() == i,
                forall|k: int| 0 <= k < i ==> (#[trigger] out@[k])@ == plan_of(self.files@, error_diagnostic(self.spans@, self.errors@[k])),
            decreases diagnostics@.len() - i,
        {
            proof {
                assert(renderable(self.files@, error_diagnostic(self.spans@, self.errors@[i as int])));
            }
            out.push(plan_of_diagnostic(&self.files, &diagnostics[i]));
            i = i + 1;
        }
        out
    }
}

} // verus!
