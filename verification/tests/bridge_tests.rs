use oclsp::bridge::check_string;
use oclsp::bridge::validate_script;
use oclsp::bridge::CheckEvent;
use oclsp::bridge::CheckReport;
use oclsp::bridge::DiagnosticAccumulator;
use oclsp::diag::DiagnosticSeverity;
use oclsp::diag::RawDiagnosticPosition;

fn valid_pos(line: u64, column: u64, length: u64) -> RawDiagnosticPosition {
    RawDiagnosticPosition {
        valid: 1,
        file: String::from("script.c"),
        function: String::from("Main"),
        line,
        column,
        length,
    }
}

fn invalid_pos() -> RawDiagnosticPosition {
    RawDiagnosticPosition {
        valid: 0,
        file: String::new(),
        function: String::new(),
        line: 0,
        column: 0,
        length: 0,
    }
}

#[test]
fn validate_accepts_plain_text() {
    assert!(validate_script("func Main() { return 1; }").is_ok());
    assert!(validate_script("").is_ok());
}

#[test]
fn validate_names_first_null_byte() {
    let e = validate_script("ab\0cd\0").unwrap_err();
    assert_eq!(e.position, 2);
}

#[test]
fn clean_check_has_no_diagnostics() {
    // well-formed text, checker reported nothing and returned zero
    let report = CheckReport { events: Vec::new(), error_count: 0 };
    let res = check_string("func Main() {}", report).unwrap();
    assert_eq!(res.error_count, 0);
    assert!(res.diagnostics.is_empty());
}

#[test]
fn check_string_rejects_null_bytes_before_checking() {
    let report = CheckReport { events: Vec::new(), error_count: 0 };
    let e = check_string("a\0b", report).unwrap_err();
    assert_eq!(e.position, 1);
}

#[test]
fn check_string_keeps_events_in_order() {
    let events = vec![
        CheckEvent {
            severity: DiagnosticSeverity::Error,
            message: String::from("no such variable"),
            position: valid_pos(3, 7, 2),
        },
        CheckEvent {
            severity: DiagnosticSeverity::Warning,
            message: String::from("unused value"),
            position: invalid_pos(),
        },
    ];
    let report = CheckReport { events, error_count: 1 };
    let res = check_string("func Main() {}", report).unwrap();
    assert_eq!(res.error_count, 1);
    assert_eq!(res.diagnostics.len(), 2);

    let d0 = &res.diagnostics[0];
    assert!(matches!(d0.severity, DiagnosticSeverity::Error));
    assert_eq!(d0.message, "no such variable");
    let p0 = d0.position.as_ref().unwrap();
    assert_eq!(p0.file, "script.c");
    assert_eq!(p0.function, "Main");
    assert_eq!(p0.line, 3);
    assert_eq!(p0.column, 7);
    assert_eq!(p0.length, 2);

    let d1 = &res.diagnostics[1];
    assert!(matches!(d1.severity, DiagnosticSeverity::Warning));
    assert_eq!(d1.message, "unused value");
    assert!(d1.position.is_none());
}

#[test]
fn checker_count_is_authoritative() {
    // the checker may count differently from the error diagnostics it emitted
    let events = vec![CheckEvent {
        severity: DiagnosticSeverity::Warning,
        message: String::from("suspicious"),
        position: invalid_pos(),
    }];
    let report = CheckReport { events, error_count: 3 };
    let res = check_string("x", report).unwrap();
    assert_eq!(res.error_count, 3);
    assert_eq!(res.diagnostics.len(), 1);
}

#[test]
fn overlapping_checks_never_mix_their_diagnostics() {
    // two conceptually concurrent checks, each with its own accumulator,
    // recording in interleaved order
    let mut first = DiagnosticAccumulator::new();
    let mut second = DiagnosticAccumulator::new();
    first.handle_error(String::from("first: bad call"), &invalid_pos());
    second.handle_error(String::from("second: bad name"), &invalid_pos());
    first.handle_warning(String::from("first: unused"), &invalid_pos());

    let first_res = first.into_result(1);
    let second_res = second.into_result(1);

    assert_eq!(first_res.diagnostics.len(), 2);
    assert_eq!(first_res.diagnostics[0].message, "first: bad call");
    assert_eq!(first_res.diagnostics[1].message, "first: unused");

    assert_eq!(second_res.diagnostics.len(), 1);
    assert_eq!(second_res.diagnostics[0].message, "second: bad name");
}
