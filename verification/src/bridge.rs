//! The safe side of the checker boundary.
//!
//! The native checking routine receives source text and two callback slots,
//! invokes them zero or more times before returning, and returns an error
//! count of its own.  Each call of the bridge owns an independent accumulator,
//! so that overlapping checks can never mix their diagnostics; the callbacks
//! record events into it in order, and the result pairs the ordered
//! diagnostics with the checker's own count, which is authoritative even
//! where it disagrees with the number of error diagnostics.  Text that the
//! boundary cannot represent — text with an embedded null byte — is rejected
//! before the checker is ever invoked.

use vstd::prelude::*;
use vstd::string::*;

use crate::diag::Diagnostic;
use crate::diag::DiagnosticPosition;
use crate::diag::DiagnosticSeverity;
use crate::diag::RawDiagnosticPosition;

verus! {

/// One callback invocation as the checker made it: which slot fired, the
/// message, and the position descriptor with its validity flag.
#[derive(Debug)]
pub struct CheckEvent {
    pub severity: DiagnosticSeverity,
    pub message: String,
    pub position: RawDiagnosticPosition,
}

/// Everything one invocation of the checking routine reported: its callback
/// invocations in order, and the error count it returned.
#[derive(Debug)]
pub struct CheckReport {
    pub events: Vec<CheckEvent>,
    pub error_count: i32,
}

/// The outcome of a check: the checker's error count and the ordered
/// diagnostics captured from its callbacks.
#[derive(Debug)]
pub struct CheckResult {
    pub error_count: i32,
    pub diagnostics: Vec<Diagnostic>,
}

/// Source text holds a null byte, which the checker boundary cannot carry.
#[derive(Debug)]
pub struct EncodingError {
    /// Byte index of the first null byte.
    pub position: usize,
}

/// The diagnostic `d` captures the callback event `e`: same severity, same
/// message, and the position adopted exactly when the descriptor was valid.
pub open spec fn is_diagnostic_of(d: Diagnostic, e: CheckEvent) -> bool {
    &&& d.severity == e.severity
    &&& d.message@ == e.message@
    &&& (d.position is Some <==> e.position.valid > 0)
    &&& (d.position matches Some(p) ==> {
        &&& p.file@ == e.position.file@
        &&& p.function@ == e.position.function@
        &&& p.line == e.position.line
        &&& p.column == e.position.column
        &&& p.length == e.position.length
    })
}

pub open spec fn nul_free(bytes: Seq<u8>) -> bool {
    forall|t: int| 0 <= t < bytes.len() ==> bytes[t] != 0
}

/// What `check_string` promises of its result, given the script's bytes and
/// what the checker reported.
pub open spec fn check_post(
    script_bytes: Seq<u8>,
    report: CheckReport,
    r: Result<CheckResult, EncodingError>,
) -> bool {
    &&& (r is Ok <==> nul_free(script_bytes))
    &&& (r matches Ok(res) ==> {
        &&& res.error_count == report.error_count
        &&& res.diagnostics@.len() == report.events@.len()
        &&& forall|t: int|
            0 <= t < report.events@.len() ==> is_diagnostic_of(
                res.diagnostics@[t],
                report.events@[t],
            )
    })
    &&& (r matches Err(e) ==> {
        &&& e.position < script_bytes.len()
        &&& script_bytes[e.position as int] == 0
        &&& forall|t: int| 0 <= t < e.position ==> script_bytes[t] != 0
    })
}

/// Rejects source text that the checker boundary cannot represent: the error
/// names the first embedded null byte.
pub fn validate_script(script: &str) -> (r: Result<(), EncodingError>)
    ensures
        r is Ok <==> nul_free(script.spec_bytes()),
        r matches Err(e) ==> {
            &&& e.position < script.spec_bytes().len()
            &&& script.spec_bytes()[e.position as int] == 0
            &&& forall|t: int| 0 <= t < e.position ==> script.spec_bytes()[t] != 0
        },
{
    let bytes = script.as_bytes();
    let n = bytes.len();
    let mut idx: usize = 0;
    while idx < n
        invariant
            idx <= n,
            n == script.spec_bytes().len(),
            bytes@ == script.spec_bytes(),
            forall|t: int| 0 <= t < idx ==> script.spec_bytes()[t] != 0,
        decreases n - idx,
    {
        if bytes[idx] == 0 {
            return Err(EncodingError { position: idx });
        }
        idx += 1;
    }
    Ok(())
}

/// The per-call accumulator behind the checker's callback slots.  Each check
/// allocates its own, so no state is shared between overlapping calls, and it
/// is torn down with the call: no callback can reach it afterwards.
pub struct DiagnosticAccumulator {
    pub diagnostics: Vec<Diagnostic>,
}

impl DiagnosticAccumulator {
    pub fn new() -> (r: DiagnosticAccumulator)
        ensures
            r.diagnostics@.len() == 0,
    {
        DiagnosticAccumulator { diagnostics: Vec::new() }
    }

    /// Records one invocation of the error callback.
    pub fn handle_error(&mut self, message: String, position: &RawDiagnosticPosition)
        ensures
            final(self).diagnostics@.len() == old(self).diagnostics@.len() + 1,
            final(self).diagnostics@.drop_last() == old(self).diagnostics@,
            is_diagnostic_of(
                final(self).diagnostics@.last(),
                CheckEvent {
                    severity: DiagnosticSeverity::Error,
                    message: message,
                    position: *position,
                },
            ),
    {
        let d = Diagnostic {
            severity: DiagnosticSeverity::Error,
            message,
            position: DiagnosticPosition::from_c4s(position),
        };
        self.diagnostics.push(d);
        proof {
            assert(final(self).diagnostics@.drop_last() =~= old(self).diagnostics@);
        }
    }

    /// Records one invocation of the warning callback.
    pub fn handle_warning(&mut self, message: String, position: &RawDiagnosticPosition)
        ensures
            final(self).diagnostics@.len() == old(self).diagnostics@.len() + 1,
            final(self).diagnostics@.drop_last() == old(self).diagnostics@,
            is_diagnostic_of(
                final(self).diagnostics@.last(),
                CheckEvent {
                    severity: DiagnosticSeverity::Warning,
                    message: message,
                    position: *position,
                },
            ),
    {
        let d = Diagnostic {
            severity: DiagnosticSeverity::Warning,
            message,
            position: DiagnosticPosition::from_c4s(position),
        };
        self.diagnostics.push(d);
        proof {
            assert(final(self).diagnostics@.drop_last() =~= old(self).diagnostics@);
        }
    }

    /// Closes the accumulator with the count the checker returned.
    pub fn into_result(self, error_count: i32) -> (r: CheckResult)
        ensures
            r.error_count == error_count,
            r.diagnostics@ == self.diagnostics@,
    {
        CheckResult { error_count, diagnostics: self.diagnostics }
    }
}

/// Checks a script, given what the checking routine reported during its one
/// synchronous invocation: the result carries one diagnostic per callback
/// event, in callback order, and the checker's own error count.  Text with
/// an embedded null byte is rejected before any checking.
pub fn check_string(script: &str, report: CheckReport) -> (r: Result<CheckResult, EncodingError>)
    ensures
        check_post(script.spec_bytes(), report, r),
{
    if let Err(e) = validate_script(script) {
        return Err(e);
    }
    let mut acc = DiagnosticAccumulator::new();
    let mut idx: usize = 0;
    while idx < report.events.len()
        invariant
            idx <= report.events@.len(),
            acc.diagnostics@.len() == idx,
            forall|t: int|
                0 <= t < idx ==> is_diagnostic_of(acc.diagnostics@[t], report.events@[t]),
        decreases report.events@.len() - idx,
    {
        let ev = &report.events[idx];
        match ev.severity {
            DiagnosticSeverity::Error => acc.handle_error(ev.message.clone(), &ev.position),
            DiagnosticSeverity::Warning => acc.handle_warning(ev.message.clone(), &ev.position),
        }
        idx += 1;
        proof {
            assert(acc.diagnostics@[idx - 1] == acc.diagnostics@.last());
        }
    }
    Ok(acc.into_result(report.error_count))
}

/// A check of representable text during which the checker reported nothing
/// and returned a zero count has error count zero and no diagnostics.
pub proof fn lemma_clean_check(
    script_bytes: Seq<u8>,
    report: CheckReport,
    r: Result<CheckResult, EncodingError>,
)
    requires
        check_post(script_bytes, report, r),
        nul_free(script_bytes),
        report.events@.len() == 0,
        report.error_count == 0,
    ensures
        r matches Ok(res) && res.error_count == 0 && res.diagnostics@.len() == 0,
{
}

/// Two checks cannot contaminate each other: each result's diagnostics
/// mirror the callback events of its own report alone, whatever the other
/// call reported, because every call owns an independent accumulator.
pub proof fn lemma_check_isolation(
    bytes1: Seq<u8>,
    report1: CheckReport,
    r1: Result<CheckResult, EncodingError>,
    bytes2: Seq<u8>,
    report2: CheckReport,
    r2: Result<CheckResult, EncodingError>,
)
    requires
        check_post(bytes1, report1, r1),
        check_post(bytes2, report2, r2),
        r1 is Ok,
        r2 is Ok,
    ensures
        r1 matches Ok(res1) ==> res1.diagnostics@.len() == report1.events@.len() && forall|t: int|
            0 <= t < report1.events@.len() ==> is_diagnostic_of(
                res1.diagnostics@[t],
                report1.events@[t],
            ),
        r2 matches Ok(res2) ==> res2.diagnostics@.len() == report2.events@.len() && forall|t: int|
            0 <= t < report2.events@.len() ==> is_diagnostic_of(
                res2.diagnostics@[t],
                report2.events@[t],
            ),
{
}

} // verus!
