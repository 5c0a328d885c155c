use roto::file_tree::SourceFile;
use roto::pipeline::{ReportPlan, RotoDiagnosticSeverity, RotoError, RotoReport};
use roto::syntax::diagnostic::{DiagnosticSeverity, Hint, ParseError};
use roto::syntax::meta::{MetaId, Span, Spans};
use roto::typechecker::error::{Label, Level, TypeError};

fn report(errors: Vec<RotoError>, spans: Spans) -> RotoReport {
    RotoReport {
        files: vec![SourceFile {
            name: "diagnostic.roto".to_string(),
            module_name: "pkg".to_string(),
            contents: "fn main() {\n    missing_value\n}\n".to_string(),
            location_offset: 0,
            children: vec![],
        }],
        errors,
        spans,
    }
}

fn parse_error() -> ParseError {
    ParseError {
        location: Span { file: 0, start: 0, end: 31 },
        message: "expected a declaration but got a comment".to_string(),
        label: "expected a declaration".to_string(),
        help: Some("remove the comment".to_string()),
        hints: vec![Hint { location: Span { file: 0, start: 2, end: 4 }, text: "nested here".to_string() }],
        note: None,
    }
}

/// Every message, label text, note and help of every diagnostic of
/// `report` is in the rendering of that diagnostic.
fn assert_rendered_contains_structured(report: &RotoReport) {
    let plans = report.rendering();
    let diagnostics = report.diagnostics();
    assert_eq!(plans.len(), diagnostics.len());
    for (plan, diagnostic) in plans.iter().zip(diagnostics) {
        match plan {
            ReportPlan::Plain(message) => assert_eq!(message, &diagnostic.message),
            ReportPlan::Report { message, labels, notes, help, .. } => {
                assert_eq!(message, &diagnostic.message);
                for label in &diagnostic.labels {
                    assert!(labels.iter().any(|l| l.message == label.message), "rendering omitted {:?}", label.message);
                }
                for note in &diagnostic.notes {
                    assert!(notes.contains(note));
                }
                for h in &diagnostic.help {
                    assert!(help.contains(h));
                }
            }
        }
    }
}

#[test]
fn parse_errors_have_structured_spans_and_labels() {
    let error = parse_error();
    let diagnostic = error.diagnostic();
    assert_eq!(diagnostic.severity, DiagnosticSeverity::Error);
    assert_eq!(diagnostic.span.range(), 0..31);
    assert_eq!(diagnostic.labels[0].span, diagnostic.span);
    assert_eq!(diagnostic.labels[0].severity, DiagnosticSeverity::Error);
    assert_eq!(diagnostic.labels[0].message, "expected a declaration");
    assert_eq!(diagnostic.labels[1].severity, DiagnosticSeverity::Warning);
    assert_eq!(diagnostic.labels[1].message, "nested here");
    assert!(diagnostic.message.contains("expected"));
    assert!(diagnostic.notes.is_empty());
    assert_eq!(diagnostic.help, vec!["remove the comment".to_string()]);
}

#[test]
fn native_parser_reports_the_same_structured_failure() {
    let syntax_error = parse_error().diagnostic();
    let report = report(vec![RotoError::Parse(parse_error())], Spans::default());
    let diagnostics = report.diagnostics();
    let diagnostic = &diagnostics[0];
    assert_eq!(diagnostic.severity, RotoDiagnosticSeverity::Error);
    assert_eq!(diagnostic.span, Some(syntax_error.span));
    assert_eq!(diagnostic.message, format!("Parse error: {}", syntax_error.message));
    assert_eq!(diagnostic.labels[0].range, syntax_error.labels[0].span.range());
    assert_eq!(diagnostic.labels[1].level, RotoDiagnosticSeverity::Warning);
    assert_eq!(diagnostic.help, syntax_error.help);
    assert_rendered_contains_structured(&report);
}

#[test]
fn type_diagnostics_keep_exact_identifier_spans() {
    let source = "fn main() {\n    missing_value\n}\n";
    let start = source.find("missing_value").unwrap();
    let mut spans = Spans::default();
    let meta = spans.add(Span::new(0, start..start + 13), ());
    let error = TypeError {
        description: "cannot find value `missing_value` in this scope".to_string(),
        location: meta.id,
        labels: vec![Label { level: Level::Error, id: MetaId(0), message: "not found".to_string() }],
        notes: vec!["values must be declared".to_string()],
    };
    let report = report(vec![RotoError::Type(error)], spans);
    let diagnostics = report.diagnostics();
    let diagnostic = &diagnostics[0];
    assert!(diagnostic.message.contains("missing_value"));
    assert!(diagnostic.message.starts_with("Type error: "));
    assert_eq!(diagnostic.span.unwrap().range(), start..start + 13);
    assert_eq!(diagnostic.labels[0].range, start..start + 13);
    assert_eq!(diagnostic.labels[0].level, RotoDiagnosticSeverity::Error);
    assert_eq!(diagnostic.notes, vec!["values must be declared".to_string()]);
    assert_rendered_contains_structured(&report);
}

#[test]
fn other_errors_are_plain_messages() {
    let report = report(
        vec![
            RotoError::Read("a.roto".to_string(), "No such file or directory".to_string()),
            RotoError::TestsFailed,
            RotoError::CouldNotRetrieveFunction("no function named `main`".to_string()),
            RotoError::Custom("parsed source does not match the single-file FileTree".to_string()),
        ],
        Spans::default(),
    );
    let d = report.diagnostics();
    assert_eq!(d.len(), 4);
    assert_eq!(d[0].message, "Could not read file `a.roto`: No such file or directory");
    assert_eq!(d[1].message, "Tests failed");
    assert_eq!(d[2].message, "Could not retrieve function: no function named `main`");
    assert_eq!(d[3].message, "parsed source does not match the single-file FileTree");
    for diagnostic in &d {
        assert!(diagnostic.span.is_none());
        assert!(diagnostic.labels.is_empty());
    }
}

#[test]
fn renderings_count_characters_not_bytes() {
    let contents = "λ = ☃;\n".to_string();
    let mut spans = Spans::default();
    let start = contents.find('☃').unwrap();
    let meta = spans.add(Span::new(0, start..start + '☃'.len_utf8()), ());
    let error = TypeError {
        description: "snowmen are not values".to_string(),
        location: meta.id,
        labels: vec![Label { level: Level::Info, id: meta.id, message: "here".to_string() }],
        notes: vec![],
    };
    let mut r = report(vec![RotoError::Type(error), RotoError::TestsFailed], spans);
    r.files[0].contents = contents;
    let plans = r.rendering();
    assert_eq!(plans.len(), 2);
    match &plans[0] {
        ReportPlan::Report { file, range, message, labels, .. } => {
            assert_eq!(file, "diagnostic.roto");
            assert_eq!(*range, 4..5);
            assert_eq!(message, "Type error: snowmen are not values");
            assert_eq!(labels[0].range, 4..5);
            assert_eq!(labels[0].level, RotoDiagnosticSeverity::Info);
        }
        ReportPlan::Plain(_) => panic!("expected a report"),
    }
    match &plans[1] {
        ReportPlan::Plain(m) => assert_eq!(m, "Tests failed"),
        _ => panic!("expected a plain message"),
    }
}

#[test]
fn meta_wraps_its_node_and_records_its_span() {
    let mut spans = Spans::default();
    let name = spans.add(Span::new(0, 3..7), String::from("name"));
    assert_eq!(name.len(), 4);
    assert_eq!(&*name, "name");
    assert_eq!(spans.get(name.id), Span::new(0, 3..7));
    assert_eq!(MetaId::from(&name), name.id);
}
