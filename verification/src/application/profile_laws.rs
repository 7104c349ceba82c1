//! What the reports of target profiles say together.

use crate::application::findings::ByFindingPlace;
use crate::application::profiles::{
    first_file, first_finding, gathered, merged_file, merged_finding, merged_reports, settled,
    tagged, tagged_finding, with_file, with_files, with_finding, with_findings, ByReportPath,
};
use crate::application::scan_laws::sorted_items_stay;
use crate::collections::collected_is_ordered;
use crate::domain::report::{
    FileReport, FileReportModel, FileStatus, Finding, FindingModel, ScanReportModel,
};
use vstd::prelude::*;

verus! {

/// Whether one of the files at the path is reported with the status.
pub open spec fn is_called(
    files: Seq<FileReportModel>,
    path: Seq<char>,
    status: FileStatus,
) -> bool {
    exists|i: int|
        0 <= i < files.len() && (#[trigger] files[i]).path == path && files[i].status == status
}

/// Whether a file at the path is reported.
pub open spec fn is_told_of(files: Seq<FileReportModel>, path: Seq<char>) -> bool {
    exists|i: int| 0 <= i < files.len() && (#[trigger] files[i]).path == path
}

/// Whether two findings are about the same: all but the profiles and the wording is equal.
pub open spec fn same_matter(a: FindingModel, b: FindingModel) -> bool {
    &&& a.issue_id == b.issue_id && a.issue_type == b.issue_type
    &&& a.workspace == b.workspace && a.paths == b.paths && a.span == b.span
    &&& a.symbol == b.symbol && a.dependency == b.dependency
}

/// Whether one of the findings is about the same as `x`, for the profile.
pub open spec fn is_found(findings: Seq<FindingModel>, x: FindingModel, profile: Seq<char>) -> bool {
    exists|i: int|
        0 <= i < findings.len() && same_matter(#[trigger] findings[i], x)
            && findings[i].target_profiles.contains(profile)
}

/// That the files at a path are none but unreachable ones.
spec fn only_unreachable(files: Seq<FileReportModel>, path: Seq<char>) -> bool {
    forall|i: int|
        0 <= i < files.len() && (#[trigger] files[i]).path == path ==> files[i].status
            == FileStatus::Unreachable
}

proof fn first_file_is(items: Seq<FileReportModel>, wanted: FileReportModel)
    ensures
        match first_file(items, wanted) {
            Some(i) => i < items.len() && items[i as int].path == wanted.path,
            None => forall|i: int|
                0 <= i < items.len() ==> (#[trigger] items[i]).path != wanted.path,
        },
    decreases items.len(),
{
    if items.len() > 0 {
        let front = items.drop_last();
        first_file_is(front, wanted);
        assert forall|i: int| 0 <= i < front.len() implies #[trigger] items[i] == front[i] by {}
    }
}

proof fn one_more_file(items: Seq<FileReportModel>, item: FileReportModel, path: Seq<char>)
    ensures
        is_told_of(with_file(items, item), path) <==> is_told_of(items, path) || item.path == path,
        is_called(with_file(items, item), path, FileStatus::Reachable) <==> is_called(
            items,
            path,
            FileStatus::Reachable,
        ) || (item.path == path && item.status == FileStatus::Reachable),
        only_unreachable(with_file(items, item), path) <==> only_unreachable(items, path) && (
        item.path == path ==> item.status == FileStatus::Unreachable),
{
    let all = with_file(items, item);
    first_file_is(items, item);
    match first_file(items, item) {
        Some(k) => {
            let at = k as int;
            assert(all[at] == merged_file(items[at], item));
            assert(all[at].path == item.path);
            assert forall|i: int| 0 <= i < items.len() && i != at implies #[trigger] all[i]
                == items[i] by {}
            if is_told_of(items, path) {
                let i = choose|i: int| 0 <= i < items.len() && (#[trigger] items[i]).path == path;
                assert(all[i].path == path);
            }
            if is_told_of(all, path) {
                let i = choose|i: int| 0 <= i < all.len() && (#[trigger] all[i]).path == path;
                assert(items[i].path == path);
            }
            if is_called(items, path, FileStatus::Reachable) {
                let i = choose|i: int|
                    0 <= i < items.len() && (#[trigger] items[i]).path == path && items[i].status
                        == FileStatus::Reachable;
                assert(all[i].path == path && all[i].status == FileStatus::Reachable);
            }
            if is_called(all, path, FileStatus::Reachable) {
                let i = choose|i: int|
                    0 <= i < all.len() && (#[trigger] all[i]).path == path && all[i].status
                        == FileStatus::Reachable;
                assert(items[i].path == path);
            }
            if only_unreachable(all, path) {
                assert forall|i: int|
                    0 <= i < items.len() && (#[trigger] items[i]).path
                        == path implies items[i].status == FileStatus::Unreachable by {
                    assert(all[i].path == path);
                }
                if item.path == path {
                    assert(all[at].status == FileStatus::Unreachable);
                }
            }
            if only_unreachable(items, path) && (item.path == path ==> item.status
                == FileStatus::Unreachable) {
                assert forall|i: int|
                    0 <= i < all.len() && (#[trigger] all[i]).path == path implies all[i].status
                    == FileStatus::Unreachable by {
                    assert(items[i].path == path);
                }
            }
        },
        None => {
            assert(all == items.push(item));
            assert(all[items.len() as int] == item);
            assert forall|i: int| 0 <= i < items.len() implies #[trigger] all[i] == items[i] by {}
            if is_told_of(items, path) {
                let i = choose|i: int| 0 <= i < items.len() && (#[trigger] items[i]).path == path;
                assert(all[i].path == path);
            }
            if is_called(items, path, FileStatus::Reachable) {
                let i = choose|i: int|
                    0 <= i < items.len() && (#[trigger] items[i]).path == path && items[i].status
                        == FileStatus::Reachable;
                assert(all[i].path == path);
            }
            if only_unreachable(all, path) {
                assert forall|i: int|
                    0 <= i < items.len() && (#[trigger] items[i]).path
                        == path implies items[i].status == FileStatus::Unreachable by {
                    assert(all[i].path == path);
                }
            }
        },
    }
}

proof fn more_files(items: Seq<FileReportModel>, start: Seq<FileReportModel>, path: Seq<char>)
    ensures
        is_told_of(with_files(items, start), path) <==> is_told_of(start, path) || is_told_of(
            items,
            path,
        ),
        is_called(with_files(items, start), path, FileStatus::Reachable) <==> is_called(
            start,
            path,
            FileStatus::Reachable,
        ) || is_called(items, path, FileStatus::Reachable),
        only_unreachable(with_files(items, start), path) <==> only_unreachable(start, path)
            && only_unreachable(items, path),
    decreases items.len(),
{
    if items.len() > 0 {
        let front = items.drop_last();
        let last = items.last();
        more_files(front, start, path);
        one_more_file(with_files(front, start), last, path);
        split_files(items, path);
    }
}

proof fn split_files(items: Seq<FileReportModel>, path: Seq<char>)
    requires
        items.len() > 0,
    ensures
        is_told_of(items, path) <==> is_told_of(items.drop_last(), path) || items.last().path
            == path,
        is_called(items, path, FileStatus::Reachable) <==> is_called(
            items.drop_last(),
            path,
            FileStatus::Reachable,
        ) || (items.last().path == path && items.last().status == FileStatus::Reachable),
        only_unreachable(items, path) <==> only_unreachable(items.drop_last(), path) && (
        items.last().path == path ==> items.last().status == FileStatus::Unreachable),
{
    let front = items.drop_last();
    let last = items.last();
    assert(items[items.len() - 1] == last);
    assert forall|i: int| 0 <= i < front.len() implies #[trigger] items[i] == front[i] by {}
    assert forall|i: int| 0 <= i < front.len() implies #[trigger] front[i] == items[i] by {}
    if is_told_of(front, path) {
        let i = choose|i: int| 0 <= i < front.len() && (#[trigger] front[i]).path == path;
        assert(items[i].path == path);
    }
    if is_told_of(items, path) && last.path != path {
        let i = choose|i: int| 0 <= i < items.len() && (#[trigger] items[i]).path == path;
        assert(front[i].path == path);
    }
    if is_called(front, path, FileStatus::Reachable) {
        let i = choose|i: int|
            0 <= i < front.len() && (#[trigger] front[i]).path == path && front[i].status
                == FileStatus::Reachable;
        assert(items[i].path == path);
    }
    if is_called(items, path, FileStatus::Reachable) && !(last.path == path && last.status
        == FileStatus::Reachable) {
        let i = choose|i: int|
            0 <= i < items.len() && (#[trigger] items[i]).path == path && items[i].status
                == FileStatus::Reachable;
        assert(front[i].path == path);
    }
    if only_unreachable(items, path) {
        assert forall|i: int| 0 <= i < front.len() && (#[trigger] front[i]).path
            == path implies front[i].status == FileStatus::Unreachable by {
            assert(items[i].path == path);
        }
    }
}

proof fn tagging_keeps_files(report: ScanReportModel, profile: Seq<char>, path: Seq<char>)
    ensures
        is_told_of(tagged(report, profile).files, path) <==> is_told_of(report.files, path),
        is_called(tagged(report, profile).files, path, FileStatus::Reachable) <==> is_called(
            report.files,
            path,
            FileStatus::Reachable,
        ),
        only_unreachable(tagged(report, profile).files, path) <==> only_unreachable(
            report.files,
            path,
        ),
{
    let a = report.files;
    let b = tagged(report, profile).files;
    assert(a.len() == b.len());
    assert forall|i: int| 0 <= i < a.len() implies (#[trigger] b[i]).path == a[i].path
        && b[i].status == a[i].status by {}
    assert forall|i: int| 0 <= i < a.len() implies (#[trigger] a[i]).path == b[i].path
        && b[i].status == a[i].status by {}
    if only_unreachable(b, path) {
        assert forall|i: int| 0 <= i < a.len() && (#[trigger] a[i]).path == path implies a[i].status
            == FileStatus::Unreachable by {
            assert(b[i].path == path);
        }
    }
    if only_unreachable(a, path) {
        assert forall|i: int| 0 <= i < b.len() && (#[trigger] b[i]).path == path implies b[i].status
            == FileStatus::Unreachable by {
            assert(a[i].path == path);
        }
    }
}

/// Whether some profile tells of the path.
pub open spec fn some_tells(
    reports: Seq<(Seq<char>, ScanReportModel)>,
    path: Seq<char>,
) -> bool {
    exists|k: int| 0 <= k < reports.len() && is_told_of((#[trigger] reports[k]).1.files, path)
}

/// Whether some profile reports a file at the path with the status.
pub open spec fn some_calls(
    reports: Seq<(Seq<char>, ScanReportModel)>,
    path: Seq<char>,
    status: FileStatus,
) -> bool {
    exists|k: int|
        0 <= k < reports.len() && is_called((#[trigger] reports[k]).1.files, path, status)
}

spec fn all_unreachable(reports: Seq<(Seq<char>, ScanReportModel)>, path: Seq<char>) -> bool {
    forall|k: int|
        0 <= k < reports.len() ==> only_unreachable((#[trigger] reports[k]).1.files, path)
}

proof fn gathered_files(reports: Seq<(Seq<char>, ScanReportModel)>, path: Seq<char>)
    requires
        reports.len() > 0,
    ensures
        is_told_of(gathered(reports).files, path) <==> some_tells(reports, path),
        is_called(gathered(reports).files, path, FileStatus::Reachable) <==> some_calls(
            reports,
            path,
            FileStatus::Reachable,
        ),
        only_unreachable(gathered(reports).files, path) <==> all_unreachable(reports, path),
    decreases reports.len(),
{
    let front = reports.drop_last();
    let last = reports.last();
    tagging_keeps_files(last.1, last.0, path);
    assert(reports[reports.len() - 1] == last);
    assert forall|k: int| 0 <= k < front.len() implies #[trigger] reports[k] == front[k] by {}
    assert forall|k: int| 0 <= k < front.len() implies #[trigger] front[k] == reports[k] by {}
    if reports.len() > 1 {
        gathered_files(front, path);
        more_files(tagged(last.1, last.0).files, gathered(front).files, path);
        if some_tells(front, path) {
            let k = choose|k: int|
                0 <= k < front.len() && is_told_of((#[trigger] front[k]).1.files, path);
            assert(is_told_of(reports[k].1.files, path));
        }
        if some_tells(reports, path) && !is_told_of(last.1.files, path) {
            let k = choose|k: int|
                0 <= k < reports.len() && is_told_of((#[trigger] reports[k]).1.files, path);
            assert(is_told_of(front[k].1.files, path));
        }
        if some_calls(front, path, FileStatus::Reachable) {
            let k = choose|k: int|
                0 <= k < front.len() && is_called(
                    (#[trigger] front[k]).1.files,
                    path,
                    FileStatus::Reachable,
                );
            assert(is_called(reports[k].1.files, path, FileStatus::Reachable));
        }
        if some_calls(reports, path, FileStatus::Reachable) && !is_called(
            last.1.files,
            path,
            FileStatus::Reachable,
        ) {
            let k = choose|k: int|
                0 <= k < reports.len() && is_called(
                    (#[trigger] reports[k]).1.files,
                    path,
                    FileStatus::Reachable,
                );
            assert(is_called(front[k].1.files, path, FileStatus::Reachable));
        }
        if all_unreachable(reports, path) {
            assert forall|k: int| 0 <= k < front.len() implies only_unreachable(
                (#[trigger] front[k]).1.files,
                path,
            ) by {
                assert(only_unreachable(reports[k].1.files, path));
            }
            assert(only_unreachable(reports[reports.len() - 1].1.files, path));
        }
        if all_unreachable(front, path) && only_unreachable(last.1.files, path) {
            assert forall|k: int| 0 <= k < reports.len() implies only_unreachable(
                (#[trigger] reports[k]).1.files,
                path,
            ) by {
                if k < front.len() {
                    assert(only_unreachable(front[k].1.files, path));
                }
            }
        }
    } else {
        if all_unreachable(reports, path) {
            assert(only_unreachable(reports[0].1.files, path));
        }
    }
}

/// The project tells of the files of which a profile tells, and of no others. A file is in use
/// for the project exactly where a profile uses it, and it is called unreachable only where no
/// profile says anything else of it.
pub proof fn projects_use_what_profiles_use(
    reports: Seq<(Seq<char>, ScanReportModel)>,
    path: Seq<char>,
)
    requires
        reports.len() > 0,
    ensures
        merged_reports(reports) matches Ok(report) && {
            &&& is_told_of(report.files, path) <==> some_tells(reports, path)
            &&& is_called(report.files, path, FileStatus::Reachable) <==> some_calls(
                reports,
                path,
                FileStatus::Reachable,
            )
            &&& some_calls(reports, path, FileStatus::Incomplete) && !some_calls(
                reports,
                path,
                FileStatus::Reachable,
            ) ==> is_called(report.files, path, FileStatus::Incomplete)
            &&& some_tells(reports, path) && !some_calls(reports, path, FileStatus::Reachable)
                && !some_calls(reports, path, FileStatus::Incomplete) ==> is_called(
                report.files,
                path,
                FileStatus::Unreachable,
            )
        },
{
    gathered_files(reports, path);
    let files = gathered(reports).files;
    let report = settled(gathered(reports));
    let sorted = report.files;
    assert forall|x: FileReportModel| #[trigger] sorted.contains(x) <==> files.contains(x) by {
        sorted_items_stay::<FileReport, ByReportPath>(files, x);
    }
    assert forall|i: int| 0 <= i < files.len() implies sorted.contains(#[trigger] files[i]) by {
        assert(files.contains(files[i]));
    }
    assert forall|i: int| 0 <= i < sorted.len() implies files.contains(#[trigger] sorted[i]) by {
        assert(sorted.contains(sorted[i]));
    }
    assert forall|status: FileStatus| #[trigger]
        is_called(sorted, path, status) <==> is_called(files, path, status) by {
        if is_called(sorted, path, status) {
            let i = choose|i: int|
                0 <= i < sorted.len() && (#[trigger] sorted[i]).path == path && sorted[i].status
                    == status;
            let j = choose|j: int| 0 <= j < files.len() && files[j] == sorted[i];
            assert(files[j].path == path);
        }
        if is_called(files, path, status) {
            let i = choose|i: int|
                0 <= i < files.len() && (#[trigger] files[i]).path == path && files[i].status
                    == status;
            assert(sorted.contains(files[i]));
            let j = choose|j: int| 0 <= j < sorted.len() && sorted[j] == files[i];
            assert(sorted[j].path == path);
        }
    }
    assert(is_told_of(sorted, path) <==> is_told_of(files, path)) by {
        if is_told_of(sorted, path) {
            let i = choose|i: int| 0 <= i < sorted.len() && (#[trigger] sorted[i]).path == path;
            assert(is_called(sorted, path, sorted[i].status));
            assert(is_called(files, path, sorted[i].status));
        }
        if is_told_of(files, path) {
            let i = choose|i: int| 0 <= i < files.len() && (#[trigger] files[i]).path == path;
            assert(is_called(files, path, files[i].status));
            assert(is_called(sorted, path, files[i].status));
        }
    }
    if some_calls(reports, path, FileStatus::Incomplete) {
        let k = choose|k: int|
            0 <= k < reports.len() && is_called(
                (#[trigger] reports[k]).1.files,
                path,
                FileStatus::Incomplete,
            );
        let own = reports[k].1.files;
        let j = choose|j: int|
            0 <= j < own.len() && (#[trigger] own[j]).path == path && own[j].status
                == FileStatus::Incomplete;
        assert(!only_unreachable(own, path));
        assert(!all_unreachable(reports, path));
        assert(!only_unreachable(files, path));
        let i = choose|i: int|
            0 <= i < files.len() && (#[trigger] files[i]).path == path && files[i].status
                != FileStatus::Unreachable;
        if !some_calls(reports, path, FileStatus::Reachable) {
            assert(files[i].status == FileStatus::Incomplete);
            assert(is_called(files, path, FileStatus::Incomplete));
        }
    }
    if some_tells(reports, path) && !some_calls(reports, path, FileStatus::Reachable)
        && !some_calls(reports, path, FileStatus::Incomplete) {
        assert forall|k: int| 0 <= k < reports.len() implies only_unreachable(
            (#[trigger] reports[k]).1.files,
            path,
        ) by {
            let own = reports[k].1.files;
            assert forall|i: int| 0 <= i < own.len() && (#[trigger] own[i]).path
                == path implies own[i].status == FileStatus::Unreachable by {
                assert(is_called(reports[k].1.files, path, own[i].status));
            }
        }
        assert(only_unreachable(files, path));
        let i = choose|i: int| 0 <= i < files.len() && (#[trigger] files[i]).path == path;
        assert(is_called(files, path, FileStatus::Unreachable));
    }
}

proof fn first_finding_is(items: Seq<FindingModel>, wanted: FindingModel)
    ensures
        match first_finding(items, wanted) {
            Some(i) => i < items.len() && same_matter(items[i as int], wanted),
            None => true,
        },
    decreases items.len(),
{
    if items.len() > 0 {
        first_finding_is(items.drop_last(), wanted);
    }
}

proof fn one_more_finding(
    items: Seq<FindingModel>,
    item: FindingModel,
    x: FindingModel,
    profile: Seq<char>,
)
    ensures
        is_found(with_finding(items, item), x, profile) <==> is_found(items, x, profile) || (
        same_matter(item, x) && item.target_profiles.contains(profile)),
{
    let all = with_finding(items, item);
    first_finding_is(items, item);
    match first_finding(items, item) {
        Some(k) => {
            let at = k as int;
            let left = items[at];
            let both = left.target_profiles + item.target_profiles;
            assert(all[at] == merged_finding(left, item));
            collected_is_ordered::<String>(both);
            assert(both.contains(profile) <==> left.target_profiles.contains(profile)
                || item.target_profiles.contains(profile)) by {
                if left.target_profiles.contains(profile) {
                    let q = choose|q: int|
                        0 <= q < left.target_profiles.len() && left.target_profiles[q] == profile;
                    assert(both[q] == profile);
                }
                if item.target_profiles.contains(profile) {
                    let q = choose|q: int|
                        0 <= q < item.target_profiles.len() && item.target_profiles[q] == profile;
                    assert(both[left.target_profiles.len() + q] == profile);
                }
            }
            if is_found(items, x, profile) {
                let i = choose|i: int|
                    0 <= i < items.len() && same_matter(#[trigger] items[i], x)
                        && items[i].target_profiles.contains(profile);
                assert(same_matter(all[i], x));
            }
            if same_matter(item, x) && item.target_profiles.contains(profile) {
                assert(same_matter(all[at], x));
            }
            if is_found(all, x, profile) {
                let i = choose|i: int|
                    0 <= i < all.len() && same_matter(#[trigger] all[i], x)
                        && all[i].target_profiles.contains(profile);
                if i != at {
                    assert(all[i] == items[i]);
                    assert(same_matter(items[i], x));
                } else {
                    assert(same_matter(items[at], x));
                }
            }
        },
        None => {
            assert(all == items.push(item));
            assert(all[items.len() as int] == item);
            if is_found(items, x, profile) {
                let i = choose|i: int|
                    0 <= i < items.len() && same_matter(#[trigger] items[i], x)
                        && items[i].target_profiles.contains(profile);
                assert(all[i] == items[i]);
                assert(same_matter(all[i], x));
            }
            if is_found(all, x, profile) {
                let i = choose|i: int|
                    0 <= i < all.len() && same_matter(#[trigger] all[i], x)
                        && all[i].target_profiles.contains(profile);
                if i < items.len() {
                    assert(all[i] == items[i]);
                    assert(same_matter(items[i], x));
                }
            }
        },
    }
}

proof fn more_findings(
    items: Seq<FindingModel>,
    start: Seq<FindingModel>,
    x: FindingModel,
    profile: Seq<char>,
)
    ensures
        is_found(with_findings(items, start), x, profile) <==> is_found(start, x, profile)
            || is_found(items, x, profile),
    decreases items.len(),
{
    if items.len() > 0 {
        let front = items.drop_last();
        let last = items.last();
        more_findings(front, start, x, profile);
        one_more_finding(with_findings(front, start), last, x, profile);
        assert(items[items.len() - 1] == last);
        if is_found(front, x, profile) {
            let i = choose|i: int|
                0 <= i < front.len() && same_matter(#[trigger] front[i], x)
                    && front[i].target_profiles.contains(profile);
            assert(items[i] == front[i]);
            assert(same_matter(items[i], x));
        }
        if is_found(items, x, profile) {
            let i = choose|i: int|
                0 <= i < items.len() && same_matter(#[trigger] items[i], x)
                    && items[i].target_profiles.contains(profile);
            if i < front.len() {
                assert(items[i] == front[i]);
                assert(same_matter(front[i], x));
            }
        }
    }
}

/// Whether the report of the profile has a finding about the same as `x`.
pub open spec fn profile_finds(
    reports: Seq<(Seq<char>, ScanReportModel)>,
    x: FindingModel,
    profile: Seq<char>,
) -> bool {
    exists|k: int, j: int|
        #![trigger reports[k].1.findings[j]]
        0 <= k < reports.len() && reports[k].0 == profile && 0 <= j < reports[k].1.findings.len()
            && same_matter(reports[k].1.findings[j], x)
}

proof fn tagging_keeps_findings(
    report: ScanReportModel,
    own: Seq<char>,
    x: FindingModel,
    profile: Seq<char>,
)
    ensures
        is_found(tagged(report, own).findings, x, profile) <==> own == profile && exists|j: int|
            0 <= j < report.findings.len() && same_matter(#[trigger] report.findings[j], x),
{
    let a = report.findings;
    let b = tagged(report, own).findings;
    assert forall|i: int| 0 <= i < a.len() implies #[trigger] b[i] == tagged_finding(a[i], own) by {}
    if is_found(b, x, profile) {
        let i = choose|i: int|
            0 <= i < b.len() && same_matter(#[trigger] b[i], x)
                && b[i].target_profiles.contains(profile);
        assert(b[i] == tagged_finding(a[i], own));
        assert(same_matter(a[i], x));
    }
    if own == profile && exists|j: int|
        0 <= j < a.len() && same_matter(#[trigger] a[j], x) {
        let j = choose|j: int| 0 <= j < a.len() && same_matter(#[trigger] a[j], x);
        assert(b[j] == tagged_finding(a[j], own));
        assert(seq![own][0] == profile);
        assert(b[j].target_profiles.contains(profile));
        assert(same_matter(b[j], x));
    }
}

proof fn gathered_findings(
    reports: Seq<(Seq<char>, ScanReportModel)>,
    x: FindingModel,
    profile: Seq<char>,
)
    requires
        reports.len() > 0,
    ensures
        is_found(gathered(reports).findings, x, profile) <==> profile_finds(reports, x, profile),
    decreases reports.len(),
{
    let front = reports.drop_last();
    let last = reports.last();
    tagging_keeps_findings(last.1, last.0, x, profile);
    assert(reports[reports.len() - 1] == last);
    if last.0 == profile && exists|j: int|
        0 <= j < last.1.findings.len() && same_matter(#[trigger] last.1.findings[j], x) {
        let j = choose|j: int|
            0 <= j < last.1.findings.len() && same_matter(#[trigger] last.1.findings[j], x);
        assert(same_matter(reports[reports.len() - 1].1.findings[j], x));
    }
    if reports.len() > 1 {
        gathered_findings(front, x, profile);
        more_findings(tagged(last.1, last.0).findings, gathered(front).findings, x, profile);
        if profile_finds(front, x, profile) {
            let (k, j) = choose|k: int, j: int|
                #![trigger front[k].1.findings[j]]
                0 <= k < front.len() && front[k].0 == profile && 0 <= j
                    < front[k].1.findings.len() && same_matter(front[k].1.findings[j], x);
            assert(same_matter(reports[k].1.findings[j], x));
        }
    }
    if profile_finds(reports, x, profile) {
        let (k, j) = choose|k: int, j: int|
            #![trigger reports[k].1.findings[j]]
            0 <= k < reports.len() && reports[k].0 == profile && 0 <= j
                < reports[k].1.findings.len() && same_matter(reports[k].1.findings[j], x);
        if k < front.len() {
            assert(same_matter(front[k].1.findings[j], x));
            assert(reports.len() > 1);
        } else {
            assert(same_matter(last.1.findings[j], x));
        }
    }
}

/// The project finds for a profile exactly what the report of that profile finds.
pub proof fn projects_find_what_profiles_find(
    reports: Seq<(Seq<char>, ScanReportModel)>,
    x: FindingModel,
    profile: Seq<char>,
)
    requires
        reports.len() > 0,
    ensures
        merged_reports(reports) matches Ok(report) && (is_found(report.findings, x, profile)
            <==> profile_finds(reports, x, profile)),
{
    gathered_findings(reports, x, profile);
    let findings = gathered(reports).findings;
    let sorted = settled(gathered(reports)).findings;
    if is_found(sorted, x, profile) {
        let i = choose|i: int|
            0 <= i < sorted.len() && same_matter(#[trigger] sorted[i], x)
                && sorted[i].target_profiles.contains(profile);
        sorted_items_stay::<Finding, ByFindingPlace>(findings, sorted[i]);
        assert(sorted.contains(sorted[i]));
        let j = choose|j: int| 0 <= j < findings.len() && findings[j] == sorted[i];
        assert(same_matter(findings[j], x));
    }
    if is_found(findings, x, profile) {
        let i = choose|i: int|
            0 <= i < findings.len() && same_matter(#[trigger] findings[i], x)
                && findings[i].target_profiles.contains(profile);
        sorted_items_stay::<Finding, ByFindingPlace>(findings, findings[i]);
        assert(findings.contains(findings[i]));
        let j = choose|j: int| 0 <= j < sorted.len() && sorted[j] == findings[i];
        assert(same_matter(sorted[j], x));
    }
}

} // verus!
