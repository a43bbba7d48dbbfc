//! Diagnostics emitted while lowering, and the failure outcome of a lowering
//! step.

use vstd::prelude::*;

verus! {

/// How serious a diagnostic is.
#[derive(PartialEq, Eq, Structural, Clone, Copy, Debug)]
pub enum Severity {
    /// An internal defect: a construct that should have been handled or
    /// excluded earlier in the pipeline.
    Bug,
    /// A legitimate source construct that cannot be lowered.
    Error,
}

/// One record handed to the diagnostic sink.
#[derive(Clone, Debug)]
pub struct Diagnostic {
    pub severity: Severity,
    pub message: String,
}

impl View for Diagnostic {
    type V = (Severity, Seq<char>);

    open spec fn view(&self) -> (Severity, Seq<char>) {
        (self.severity, self.message@)
    }
}

/// Why a lowering step failed. Failures carry no payload: what went wrong is
/// recorded in the diagnostic sink.
#[derive(PartialEq, Eq, Structural, Clone, Copy, Debug)]
pub enum Failure {
    /// A diagnostic describing the problem was emitted.
    Reported,
    /// An invariant that earlier stages guarantee was found broken; no
    /// diagnostic was emitted.
    Defect,
}

/// The abstract outcome of a failed step: either one diagnostic, or a defect.
pub enum Fault {
    Report(Severity, Seq<char>),
    Defect,
}

/// The sink's contents as plain values.
pub open spec fn diag_views(ds: Seq<Diagnostic>) -> Seq<(Severity, Seq<char>)> {
    ds.map_values(|d: Diagnostic| d@)
}

/// The failure value a step returns for a fault.
pub open spec fn failure_of(f: Fault) -> Failure {
    match f {
        Fault::Report(_, _) => Failure::Reported,
        Fault::Defect => Failure::Defect,
    }
}

/// The sink after a step that failed with `f`: a report adds exactly one record.
pub open spec fn sink_after(ds: Seq<(Severity, Seq<char>)>, f: Fault) -> Seq<(Severity, Seq<char>)> {
    match f {
        Fault::Report(s, m) => ds.push((s, m)),
        Fault::Defect => ds,
    }
}

/// Appends a diagnostic to a sink.
pub fn emit(sink: &mut Vec<Diagnostic>, severity: Severity, message: String)
    ensures
        diag_views(final(sink)@) == diag_views(old(sink)@).push((severity, message@)),
{
    sink.push(Diagnostic { severity, message });
    proof {
        assert(diag_views(sink@) =~= diag_views(old(sink)@).push((severity, message@)));
    }
}

} // verus!
