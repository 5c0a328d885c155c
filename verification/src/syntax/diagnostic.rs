//! Structured syntax diagnostics.

use crate::syntax::meta::Span;
use vstd::prelude::*;

verus! {

/// Severity of a syntax diagnostic or one of its labels.
#[derive(Clone, Copy, Debug, PartialEq, Eq, Structural)]
pub enum DiagnosticSeverity {
    /// An error that prevents parsing.
    Error,
    /// A secondary suggestion associated with an error.
    Warning,
    /// Related explanatory information.
    Info,
}

/// A message attached to an exact source span.
#[derive(Clone, Debug, PartialEq, Eq)]
pub struct DiagnosticLabel {
    /// Label severity.
    pub severity: DiagnosticSeverity,
    /// Exact byte span in the source file.
    pub span: Span,
    /// Human-readable label text.
    pub message: String,
}

/// A structured parse diagnostic independent of terminal rendering.
#[derive(Clone, Debug, PartialEq, Eq)]
pub struct Diagnostic {
    /// Diagnostic severity.
    pub severity: DiagnosticSeverity,
    /// Human-readable primary message.
    pub message: String,
    /// Exact primary byte span in the source file.
    pub span: Span,
    /// Primary and related source labels.
    pub labels: Vec<DiagnosticLabel>,
    /// Additional explanatory notes.
    pub notes: Vec<String>,
    /// Suggested ways to resolve the diagnostic.
    pub help: Vec<String>,
}

/// A secondary hint of a parse error: a message at a span.
#[derive(Clone, Debug, PartialEq, Eq)]
pub struct Hint {
    pub location: Span,
    pub text: String,
}

/// An error of the parser: where it occurred, what it says, the label that
/// its kind puts at its location, the help that its kind offers, its
/// secondary hints and its note.
#[derive(Clone, Debug, PartialEq, Eq)]
pub struct ParseError {
    pub location: Span,
    pub message: String,
    pub label: String,
    pub help: Option<String>,
    pub hints: Vec<Hint>,
    pub note: Option<String>,
}

/// The mathematical view of a label.
pub ghost struct DiagnosticLabelV {
    pub severity: DiagnosticSeverity,
    pub span: Span,
    pub message: Seq<char>,
}

/// The mathematical view of a diagnostic.
pub ghost struct DiagnosticV {
    pub severity: DiagnosticSeverity,
    pub message: Seq<char>,
    pub span: Span,
    pub labels: Seq<DiagnosticLabelV>,
    pub notes: Seq<Seq<char>>,
    pub help: Seq<Seq<char>>,
}

impl View for DiagnosticLabel {
    type V = DiagnosticLabelV;

    open spec fn view(&self) -> DiagnosticLabelV {
        DiagnosticLabelV { severity: self.severity, span: self.span, message: self.message@ }
    }
}

/// The texts of `s`.
pub open spec fn strings_view(s: Seq<String>) -> Seq<Seq<char>> {
    Seq::new(s.len(), |i: int| s[i]@)
}

/// The views of the labels `s`.
pub open spec fn labels_view(s: Seq<DiagnosticLabel>) -> Seq<DiagnosticLabelV> {
    Seq::new(s.len(), |i: int| s[i]@)
}

impl View for Diagnostic {
    type V = DiagnosticV;

    open spec fn view(&self) -> DiagnosticV {
        DiagnosticV {
            severity: self.severity,
            message: self.message@,
            span: self.span,
            labels: labels_view(self.labels@),
            notes: strings_view(self.notes@),
            help: strings_view(self.help@),
        }
    }
}

/// The text of an optional string, as a sequence of zero or one texts.
pub open spec fn option_seq(o: Option<String>) -> Seq<Seq<char>> {
    match o {
        Some(s) => seq![s@],
        None => Seq::empty(),
    }
}

/// The diagnostic of a parse error: an error at its location, with the
/// label of its kind there, a warning label for each of its hints, its note
/// and the help of its kind.
pub open spec fn parse_diagnostic(e: ParseError) -> DiagnosticV {
    DiagnosticV {
        severity: DiagnosticSeverity::Error,
        message: e.message@,
        span: e.location,
        labels: seq![DiagnosticLabelV { severity: DiagnosticSeverity::Error, span: e.location, message: e.label@ }]
            + Seq::new(
            e.hints@.len(),
            |i: int|
                DiagnosticLabelV {
                    severity: DiagnosticSeverity::Warning,
                    span: e.hints@[i].location,
                    message: e.hints@[i].text@,
                },
        ),
        notes: option_seq(e.note),
        help: option_seq(e.help),
    }
}

fn option_vec(o: &Option<String>) -> (res: Vec<String>)
    ensures
        strings_view(res@) == option_seq(*o),
{
    let mut v: Vec<String> = Vec::new();
    match o {
        Some(s) => {
            v.push(s.clone());
            assert(strings_view(v@) =~= seq![s@]);
        },
        None => {
            assert(strings_view(v@) =~= Seq::<Seq<char>>::empty());
        },
    }
    v
}

impl ParseError {
    /// The message of this error.
    pub fn to_string(&self) -> (res: String)
        ensures
            res@ == self.message@,
    {
        self.message.clone()
    }

    /// Convert this parser error into a presentation-independent diagnostic.
    pub fn diagnostic(&self) -> (res: Diagnostic)
        ensures
            res@ == parse_diagnostic(*self),
    {
        let ghost spec = parse_diagnostic(*self);
        let mut labels: Vec<DiagnosticLabel> = Vec::new();
        labels.push(
            DiagnosticLabel { severity: DiagnosticSeverity::Error, span: self.location, message: self.label.clone() },
        );
        let mut i: usize = 0;
        while i < self.hints.len()
            invariant
                i <= self.hints@.len(),
                spec == parse_diagnostic(*self),
                labels_view(labels@) == spec.labels.take(i as int + 1),
            decreases self.hints@.len() - i,
        {
            let h = &self.hints[i];
            let ghost before = labels@;
            labels.push(DiagnosticLabel { severity: DiagnosticSeverity::Warning, span: h.location, message: h.text.clone() });
            proof {
                assert(labels_view(labels@) =~= labels_view(before).push(spec.labels[i as int + 1]));
                assert(spec.labels.take(i as int + 2) =~= spec.labels.take(i as int + 1).push(spec.labels[i as int + 1]));
            }
            i = i + 1;
        }
        let res = Diagnostic {
            severity: DiagnosticSeverity::Error,
            message: self.message.clone(),
            span: self.location,
            labels,
            notes: option_vec(&self.note),
            help: option_vec(&self.help),
        };
        proof {
            assert(spec.labels.take(i as int + 1) =~= spec.labels);
        }
        res
    }
}

} // verus!
