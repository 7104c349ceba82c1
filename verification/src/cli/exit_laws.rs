//! How a scan ends.

use crate::cli::options::{exit_code_of, fails_on, some_fail};
use crate::collections::lookup;
use crate::domain::report::{AnalysisStatus, Confidence, FindingModel, ScanReportModel};
use vstd::prelude::*;

verus! {

/// Whether a finding is at least as certain as the level.
pub open spec fn reaches_level(confidence: Confidence, level: Confidence) -> bool {
    match level {
        Confidence::Incomplete => true,
        Confidence::Low => confidence != Confidence::Incomplete,
        Confidence::Medium => confidence == Confidence::Medium || confidence == Confidence::High,
        Confidence::High => confidence == Confidence::High,
    }
}

/// Whether a finding is certain enough for its package to fail: as certain as the package says,
/// or of low certainty at least where nothing is said of the package.
pub open spec fn is_a_failure(report: ScanReportModel, finding: FindingModel) -> bool {
    match report.project {
        Some(project) => match lookup(project.failure_thresholds, finding.workspace) {
            Some(level) => reaches_level(finding.confidence, level),
            None => reaches_level(finding.confidence, Confidence::Low),
        },
        None => reaches_level(finding.confidence, Confidence::Low),
    }
}

/// A scan whose analysis is incomplete says so whatever it found; otherwise it fails exactly
/// where one of its findings is certain enough.
pub proof fn scans_fail_on_certain_findings(report: ScanReportModel)
    ensures
        report.status == AnalysisStatus::Incomplete ==> exit_code_of(report) == 2,
        report.status == AnalysisStatus::Complete ==> (exit_code_of(report) == 1 <==> exists|
            i: int,
        |
            0 <= i < report.findings.len() && is_a_failure(report, #[trigger] report.findings[i])),
        report.status == AnalysisStatus::Complete ==> (exit_code_of(report) == 0 <==> forall|
            i: int,
        |
            0 <= i < report.findings.len() ==> !is_a_failure(report, #[trigger] report.findings[i])),
{
    assert forall|i: int| 0 <= i < report.findings.len() implies is_a_failure(
        report,
        #[trigger] report.findings[i],
    ) == fails_on(report.findings[i], report.project) by {}
    if some_fail(report.findings, report.project) {
        let i = choose|i: int|
            0 <= i < report.findings.len() && fails_on(
                #[trigger] report.findings[i],
                report.project,
            );
        assert(is_a_failure(report, report.findings[i]));
    }
}

} // verus!
