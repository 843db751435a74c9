use oclsp::diag::Diagnostic;
use oclsp::diag::DiagnosticPosition;
use oclsp::diag::DiagnosticSeverity;
use oclsp::diag::RawDiagnosticPosition;
use oclsp::Position;
use oclsp::Range;

fn raw(valid: i32, line: u64, column: u64, length: u64) -> RawDiagnosticPosition {
    RawDiagnosticPosition {
        valid,
        file: String::from("script.c"),
        function: String::from("Main"),
        line,
        column,
        length,
    }
}

#[test]
fn to_range_translates_one_based_to_zero_based() {
    let pos = DiagnosticPosition {
        file: String::from("script.c"),
        function: String::from("Main"),
        line: 16,
        column: 36,
        length: 1,
    };
    let r = pos.to_range().unwrap();
    assert_eq!(
        r,
        Range {
            start: Position { line: 15, character: 35 },
            end: Position { line: 15, character: 36 }
        }
    );
}

#[test]
fn to_range_spans_length_characters() {
    let pos = DiagnosticPosition {
        file: String::from("f"),
        function: String::new(),
        line: 1,
        column: 1,
        length: 7,
    };
    let r = pos.to_range().unwrap();
    assert_eq!(
        r,
        Range {
            start: Position { line: 0, character: 0 },
            end: Position { line: 0, character: 7 }
        }
    );
}

#[test]
fn to_range_rejects_zero_line_or_column() {
    let pos = DiagnosticPosition {
        file: String::from("f"),
        function: String::new(),
        line: 0,
        column: 3,
        length: 1,
    };
    let e = pos.to_range().unwrap_err();
    assert_eq!(e.line, 0);
    assert_eq!(e.column, 3);

    let pos = DiagnosticPosition {
        file: String::from("f"),
        function: String::new(),
        line: 3,
        column: 0,
        length: 1,
    };
    assert!(pos.to_range().is_err());
}

#[test]
fn from_c4s_adopts_only_valid_descriptors() {
    let p = DiagnosticPosition::from_c4s(&raw(1, 4, 2, 3)).unwrap();
    assert_eq!(p.file, "script.c");
    assert_eq!(p.function, "Main");
    assert_eq!(p.line, 4);
    assert_eq!(p.column, 2);
    assert_eq!(p.length, 3);

    assert!(DiagnosticPosition::from_c4s(&raw(0, 4, 2, 3)).is_none());
    assert!(DiagnosticPosition::from_c4s(&raw(-1, 4, 2, 3)).is_none());
}

#[test]
fn diagnostic_range_round_trip() {
    // a diagnostic with a structured position and one that falls back to the
    // message fragment both yield a well-formed range
    let with_pos = Diagnostic {
        severity: DiagnosticSeverity::Error,
        message: String::from("no such function"),
        position: Some(DiagnosticPosition {
            file: String::from("f"),
            function: String::new(),
            line: 2,
            column: 5,
            length: 4,
        }),
    };
    let r = with_pos.range().unwrap();
    assert_eq!(r.start, Position { line: 1, character: 4 });
    assert_eq!(r.end, Position { line: 1, character: 8 });
    assert_eq!(r.start.line, r.end.line);
    assert!(r.start.character <= r.end.character);

    let without_pos = Diagnostic {
        severity: DiagnosticSeverity::Warning,
        message: String::from("';' expected, but found identifier (<memory>:16:36)"),
        position: None,
    };
    let r = without_pos.range().unwrap();
    assert_eq!(r.start, Position { line: 15, character: 35 });
    assert_eq!(r.end, Position { line: 15, character: 36 });

    let without_any = Diagnostic {
        severity: DiagnosticSeverity::Warning,
        message: String::from("vague complaint"),
        position: None,
    };
    let r = without_any.range().unwrap();
    assert_eq!(r.start, Position { line: 0, character: 0 });
    assert_eq!(r.end, Position { line: 0, character: 0 });
}
