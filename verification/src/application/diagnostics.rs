//! Putting diagnostics in order, merging and limiting them.

use crate::collections::{
    collected, collected_is_ordered, dedup, sort_by, sorted_by, sorted_by_keeps_items,
    without_repeats, OrderedSet, Ranking,
};
use crate::domain::facts::{
    AnalysisDiagnostic, AnalysisDiagnosticModel, DiagnosticSeverity, SourceSpan,
};
use crate::domain::report::AnalysisStatus;
use crate::text::{
    concat3, concat4, cut_at_text, cut_behind, cuts_hold_less, decimal, digits, join, joined,
    joined_hold_no_more, joined_parts_are_the_pieces, occurs, pieces_hold_less, same,
    split_once_text, split_text, strip_prefix, text_pieces, without_prefix,
};
use crate::values::{append_items, push_item, replace_item, Ordered, Value};
use vstd::prelude::*;

verus! {

/// Where a span starts. What has no span comes last.
pub open spec fn start_of(span: Option<SourceSpan>) -> u32 {
    match span {
        Some(span) => span.start,
        None => u32::MAX,
    }
}

/// Where a span starts. What has no span comes last.
pub fn span_start(span: &Option<SourceSpan>) -> (r: u32)
    ensures
        r == start_of(span.deep_view()),
{
    match span {
        Some(span) => span.start,
        None => u32::MAX,
    }
}

/// Diagnostics by path, place, code and message.
pub struct ByPlace;

impl Ranking<AnalysisDiagnostic> for ByPlace {
    type Key = (String, (u32, (String, String)));

    open spec fn key(m: AnalysisDiagnosticModel) -> (Seq<char>, (u32, (Seq<char>, Seq<char>))) {
        (m.path, (start_of(m.span), (m.code, m.message)))
    }

    fn ranks_before(a: &AnalysisDiagnostic, b: &AnalysisDiagnostic) -> (r: bool) {
        a.path.is_before(&b.path) || (a.path.same_value(&b.path) && (span_start(&a.span).is_before(&span_start(&b.span)) || (span_start(&a.span) == span_start(&b.span) && (a.code.is_before(&b.code) || (a.code.same_value(&b.code) && (a.message.is_before(&b.message)))))))
    }
}

/// Diagnostics by path, code and message.
pub struct ByPath;

impl Ranking<AnalysisDiagnostic> for ByPath {
    type Key = (String, (String, String));

    open spec fn key(m: AnalysisDiagnosticModel) -> (Seq<char>, (Seq<char>, Seq<char>)) {
        (m.path, (m.code, m.message))
    }

    fn ranks_before(a: &AnalysisDiagnostic, b: &AnalysisDiagnostic) -> (r: bool) {
        a.path.is_before(&b.path) || (a.path.same_value(&b.path) && (a.code.is_before(&b.code) || (a.code.same_value(&b.code) && (a.message.is_before(&b.message)))))
    }
}

/// Puts diagnostics in order.
pub fn sort_diagnostics(diagnostics: &mut Vec<AnalysisDiagnostic>)
    ensures
        final(diagnostics).deep_view() == sorted_by::<AnalysisDiagnostic, ByPlace>(
            old(diagnostics).deep_view(),
        ),
{
    sort_by::<AnalysisDiagnostic, ByPlace>(diagnostics);
}

/// Diagnostics in order, each only once.
pub open spec fn tidied(diagnostics: Seq<AnalysisDiagnosticModel>) -> Seq<
    AnalysisDiagnosticModel,
> {
    without_repeats(sorted_by::<AnalysisDiagnostic, ByPlace>(diagnostics))
}

/// Puts diagnostics in order and drops those that repeat another.
pub fn tidy_diagnostics(diagnostics: &mut Vec<AnalysisDiagnostic>)
    ensures
        final(diagnostics).deep_view() == tidied(old(diagnostics).deep_view()),
{
    sort_by::<AnalysisDiagnostic, ByPlace>(diagnostics);
    let unique: Vec<AnalysisDiagnostic> = dedup(diagnostics);
    *diagnostics = unique;
}

/// The target profiles that a message starts with, and the rest of the message.
pub open spec fn target_prefix(message: Seq<char>) -> Option<(Seq<char>, Seq<char>)> {
    match without_prefix(message, "[target "@) {
        Some(rest) => cut_at_text(rest, "] "@),
        None => None,
    }
}

/// A message without the target profiles that it starts with.
pub open spec fn untargeted(message: Seq<char>) -> Seq<char> {
    match target_prefix(message) {
        Some((profiles, rest)) => rest,
        None => message,
    }
}

/// The target profiles that a message starts with.
pub open spec fn targets_in(message: Seq<char>) -> Seq<Seq<char>> {
    match target_prefix(message) {
        Some((profiles, rest)) => text_pieces(profiles, ", "@),
        None => Seq::empty(),
    }
}

/// The target profiles of two messages, in order.
pub open spec fn united_targets(left: Seq<char>, right: Seq<char>) -> Seq<char> {
    joined(collected::<String>(targets_in(left) + targets_in(right)), ", "@)
}

fn split_target_prefix(message: &str) -> (r: Option<(String, String)>)
    ensures
        r.deep_view() == target_prefix(message@),
{
    match strip_prefix(message, "[target ") {
        Some(rest) => split_once_text(&rest, "] "),
        None => None,
    }
}

/// A message without the target profiles that it starts with.
pub fn strip_target_prefix(message: &str) -> (r: String)
    ensures
        r@ == untargeted(message@),
{
    match split_target_prefix(message) {
        Some((profiles, rest)) => rest,
        None => message.to_string(),
    }
}

fn target_profiles_in(message: &str) -> (r: Vec<String>)
    ensures
        r.deep_view() == targets_in(message@),
{
    match split_target_prefix(message) {
        Some((profiles, rest)) => {
            proof {
                reveal_strlit(", ");
            }
            split_text(&profiles, ", ")
        },
        None => {
            let none: Vec<String> = Vec::new();
            assert(none.deep_view() =~= Seq::empty());
            none
        },
    }
}

/// The target profiles of two messages, in order.
pub fn union_target_profiles(left_message: &str, right_message: &str) -> (r: String)
    ensures
        r@ == united_targets(left_message@, right_message@),
{
    let mut profiles: Vec<String> = target_profiles_in(left_message);
    let more: Vec<String> = target_profiles_in(right_message);
    append_items(&mut profiles, &more);
    let unique: OrderedSet<String> = OrderedSet::from_items(profiles);
    join(unique.items(), ", ")
}

/// Whether two diagnostics differ at most in the target profiles of their messages.
pub open spec fn same_but_for_targets(
    a: AnalysisDiagnosticModel,
    b: AnalysisDiagnosticModel,
) -> bool {
    &&& a.code == b.code
    &&& a.path == b.path
    &&& a.span == b.span
    &&& a.severity == b.severity
    &&& a.blocks_reachability == b.blocks_reachability
    &&& untargeted(a.message) == untargeted(b.message)
}

/// A diagnostic for the target profiles of two that say the same.
pub open spec fn for_both_targets(
    a: AnalysisDiagnosticModel,
    b: AnalysisDiagnosticModel,
) -> AnalysisDiagnosticModel {
    if a.message == b.message {
        a
    } else {
        AnalysisDiagnosticModel {
            message: "[target "@ + united_targets(a.message, b.message) + "] "@ + untargeted(
                b.message,
            ),
            ..a
        }
    }
}

/// The first of some diagnostics that differs from one at most in its target profiles.
pub open spec fn place_of_same(
    items: Seq<AnalysisDiagnosticModel>,
    d: AnalysisDiagnosticModel,
) -> Option<int>
    decreases items.len(),
{
    if items.len() == 0 {
        None
    } else {
        match place_of_same(items.drop_last(), d) {
            Some(place) => Some(place),
            None => if same_but_for_targets(items.last(), d) {
                Some(items.len() - 1)
            } else {
                None
            },
        }
    }
}

/// Diagnostics in which those that differ only in their target profiles are one, at the place of
/// the first.
pub open spec fn merged_targets(items: Seq<AnalysisDiagnosticModel>) -> Seq<AnalysisDiagnosticModel>
    decreases items.len(),
{
    if items.len() == 0 {
        Seq::empty()
    } else {
        let rest = merged_targets(items.drop_last());
        let last = items.last();
        match place_of_same(rest, last) {
            Some(place) => rest.update(place, for_both_targets(rest[place], last)),
            None => rest.push(last),
        }
    }
}

/// Diagnostics in order, those that differ only in their target profiles as one, at the place
/// of the first.
pub open spec fn merged_diagnostics(
    diagnostics: Seq<AnalysisDiagnosticModel>,
) -> Seq<AnalysisDiagnosticModel> {
    merged_targets(tidied(diagnostics))
}

fn find_same(items: &Vec<AnalysisDiagnostic>, d: &AnalysisDiagnostic) -> (r: Option<usize>)
    ensures
        match r {
            Some(k) => k < items@.len() && place_of_same(items.deep_view(), d.deep_view())
                == Some(k as int),
            None => place_of_same(items.deep_view(), d.deep_view()) is None,
        },
{
    let ghost model = items.deep_view();
    let ghost wanted = d.deep_view();
    let rest: String = strip_target_prefix(&d.message);
    let mut found: Option<usize> = None;
    let mut i: usize = 0;
    while i < items.len()
        invariant
            i <= items.len(),
            model == items.deep_view(),
            wanted == d.deep_view(),
            rest@ == untargeted(wanted.message),
            match found {
                Some(k) => k < i && place_of_same(model.take(i as int), wanted) == Some(k as int),
                None => place_of_same(model.take(i as int), wanted) is None,
            },
        decreases items.len() - i,
    {
        proof {
            assert(model.take(i + 1).drop_last() =~= model.take(i as int));
            assert(model.take(i + 1).last() == items@[i as int].deep_view());
        }
        if found.is_none() {
            let other: &AnalysisDiagnostic = &items[i];
            if other.code.same_value(&d.code) && other.path.same_value(&d.path)
                && other.span.same_value(&d.span) && other.severity == d.severity
                && other.blocks_reachability == d.blocks_reachability && same(
                &strip_target_prefix(&other.message),
                &rest,
            ) {
                found = Some(i);
            }
        }
        i = i + 1;
    }
    assert(model.take(i as int) =~= model);
    found
}

fn merge_both(a: &AnalysisDiagnostic, b: &AnalysisDiagnostic) -> (r: AnalysisDiagnostic)
    ensures
        r.deep_view() == for_both_targets(a.deep_view(), b.deep_view()),
{
    if same(&a.message, &b.message) {
        a.replicate()
    } else {
        let profiles: String = union_target_profiles(&a.message, &b.message);
        let rest: String = strip_target_prefix(&b.message);
        AnalysisDiagnostic {
            code: a.code.replicate(),
            path: a.path.replicate(),
            severity: a.severity,
            span: a.span.replicate(),
            message: concat4("[target ", &profiles, "] ", &rest),
            blocks_reachability: a.blocks_reachability,
        }
    }
}

/// Puts diagnostics in order, and makes one of those that differ only in their target profiles,
/// at the place of the first.
pub fn merge_duplicate_diagnostics(diagnostics: &mut Vec<AnalysisDiagnostic>)
    ensures
        final(diagnostics).deep_view() == merged_diagnostics(old(diagnostics).deep_view()),
{
    tidy_diagnostics(diagnostics);
    let mut merged: Vec<AnalysisDiagnostic> = Vec::new();
    let ghost model = diagnostics.deep_view();
    let mut i: usize = 0;
    assert(merged.deep_view() =~= Seq::empty());
    while i < diagnostics.len()
        invariant
            i <= diagnostics.len(),
            model == diagnostics.deep_view(),
            merged.deep_view() == merged_targets(model.take(i as int)),
        decreases diagnostics.len() - i,
    {
        proof {
            assert(model.take(i + 1).drop_last() =~= model.take(i as int));
            assert(model.take(i + 1).last() == diagnostics@[i as int].deep_view());
        }
        let next: &AnalysisDiagnostic = &diagnostics[i];
        match find_same(&merged, next) {
            Some(place) => {
                assert(merged.deep_view()[place as int] == merged@[place as int].deep_view());
                let both: AnalysisDiagnostic = merge_both(&merged[place], next);
                replace_item(&mut merged, place, both);
            },
            None => {
                push_item(&mut merged, next.replicate());
            },
        }
        i = i + 1;
    }
    assert(model.take(i as int) =~= model);
    *diagnostics = merged;
}

/// The larger of a number and one.
pub open spec fn at_least_one(n: usize) -> usize {
    if n == 0 {
        1
    } else {
        n
    }
}

/// The diagnostics of a project, at most `configured_limit` of them, the last of them
/// saying how many are missing.
pub open spec fn limited_for_project(
    diagnostics: Seq<AnalysisDiagnosticModel>,
    configured_limit: usize,
) -> Seq<AnalysisDiagnosticModel> {
    let limit = at_least_one(configured_limit);
    if diagnostics.len() <= limit {
        diagnostics
    } else {
        sorted_by::<AnalysisDiagnostic, ByPath>(diagnostics).take(limit - 1).push(
            AnalysisDiagnosticModel {
                code: "diagnostic_limit_exceeded"@,
                path: "<project>"@,
                severity: DiagnosticSeverity::Error,
                span: None,
                message: "Project analysis omitted "@ + digits(
                    (diagnostics.len() - limit + 1) as nat,
                ) + " diagnostics after reaching the configured limit of "@ + digits(limit as nat),
                blocks_reachability: true,
            },
        )
    }
}

/// Keeps at most `configured_limit` diagnostics, the last of them saying how many are
/// missing.
pub fn enforce_project_diagnostic_limit(
    diagnostics: &mut Vec<AnalysisDiagnostic>,
    configured_limit: usize,
)
    ensures
        final(diagnostics).deep_view() == limited_for_project(
            old(diagnostics).deep_view(),
            configured_limit,
        ),
{
    let limit: usize = if configured_limit == 0 {
        1
    } else {
        configured_limit
    };
    let total: usize = diagnostics.len();
    if total <= limit {
        return;
    }
    let ghost all = diagnostics.deep_view();
    sort_by::<AnalysisDiagnostic, ByPath>(diagnostics);
    proof {
        crate::collections::sorted_by_len::<AnalysisDiagnostic, ByPath>(all);
    }
    let ghost ordered = diagnostics.deep_view();
    let omitted: usize = total - limit + 1;
    let kept: Vec<AnalysisDiagnostic> = first_items(diagnostics, limit - 1);
    *diagnostics = kept;
    push_item(
        diagnostics,
        AnalysisDiagnostic {
            code: "diagnostic_limit_exceeded".to_string(),
            path: "<project>".to_string(),
            severity: DiagnosticSeverity::Error,
            span: None,
            message: concat4(
                "Project analysis omitted ",
                &decimal(omitted as u64),
                " diagnostics after reaching the configured limit of ",
                &decimal(limit as u64),
            ),
            blocks_reachability: true,
        },
    );
}

/// Copies of the first `n` items, or of all where there are fewer.
pub fn first_items<T: Value>(items: &Vec<T>, n: usize) -> (r: Vec<T>)
    ensures
        r.deep_view() == if n <= items.deep_view().len() {
            items.deep_view().take(n as int)
        } else {
            items.deep_view()
        },
{
    let mut out: Vec<T> = Vec::new();
    let ghost model = items.deep_view();
    let mut i: usize = 0;
    while i < items.len() && i < n
        invariant
            i <= items.len(),
            i <= n,
            model == items.deep_view(),
            out.deep_view() =~= model.take(i as int),
        decreases items.len() - i,
    {
        assert(model.take(i + 1) =~= model.take(i as int).push(items@[i as int].deep_view()));
        push_item(&mut out, items[i].replicate());
        i = i + 1;
    }
    proof {
        if i == items.len() {
            assert(model.take(i as int) =~= model);
        }
    }
    out
}

/// How many diagnostics the files have together.
pub open spec fn total_diagnostics(files: Seq<Seq<AnalysisDiagnosticModel>>) -> nat
    decreases files.len(),
{
    if files.len() == 0 {
        0
    } else {
        total_diagnostics(files.drop_last()) + files.last().len()
    }
}

/// What is left of a limit behind some files, and the first file that lost diagnostics.
pub struct LimitedModel {
    pub remaining: nat,
    pub omitted: Option<Seq<char>>,
    pub kept: Seq<Seq<AnalysisDiagnosticModel>>,
}

/// The first diagnostics of the files, `room` of them, file by file.
pub open spec fn within_room(
    paths: Seq<Seq<char>>,
    files: Seq<Seq<AnalysisDiagnosticModel>>,
    room: nat,
) -> LimitedModel
    decreases files.len(),
{
    if files.len() == 0 {
        LimitedModel { remaining: room, omitted: None, kept: Seq::empty() }
    } else {
        let rest = within_room(paths, files.drop_last(), room);
        let last = files.last();
        let path = paths[files.len() - 1];
        if rest.remaining == 0 {
            LimitedModel {
                remaining: 0,
                omitted: if rest.omitted is None && last.len() > 0 {
                    Some(path)
                } else {
                    rest.omitted
                },
                kept: rest.kept.push(Seq::empty()),
            }
        } else if last.len() <= rest.remaining {
            LimitedModel {
                remaining: (rest.remaining - last.len()) as nat,
                omitted: rest.omitted,
                kept: rest.kept.push(last),
            }
        } else {
            LimitedModel {
                remaining: 0,
                omitted: Some(path),
                kept: rest.kept.push(last.take(rest.remaining as int)),
            }
        }
    }
}

/// That diagnostics were left out.
pub open spec fn limit_exceeded(path: Option<Seq<char>>, limit: usize) -> AnalysisDiagnosticModel {
    AnalysisDiagnosticModel {
        code: "diagnostic_limit_exceeded"@,
        path: match path {
            Some(path) => path,
            None => "<project>"@,
        },
        severity: DiagnosticSeverity::Error,
        span: None,
        message: "Analysis produced more than "@ + digits(limit as nat)
            + " diagnostics; narrow the project or raise the explicit diagnostic limit"@,
        blocks_reachability: true,
    }
}

/// The diagnostics of the files, at most `limit` of them, with one on the first file
/// that says so where some are missing.
pub open spec fn limited_by_file(
    paths: Seq<Seq<char>>,
    files: Seq<Seq<AnalysisDiagnosticModel>>,
    limit: usize,
) -> Seq<Seq<AnalysisDiagnosticModel>> {
    if total_diagnostics(files) <= limit {
        files
    } else {
        let room = if limit == 0 {
            0
        } else {
            (limit - 1) as nat
        };
        let limited = within_room(paths, files, room);
        limited.kept.update(0, limited.kept[0].push(limit_exceeded(limited.omitted, limit)))
    }
}

proof fn within_room_len(
    paths: Seq<Seq<char>>,
    files: Seq<Seq<AnalysisDiagnosticModel>>,
    room: nat,
)
    ensures
        within_room(paths, files, room).kept.len() == files.len(),
    decreases files.len(),
{
    if files.len() > 0 {
        within_room_len(paths, files.drop_last(), room);
    }
}

/// A limit leaves a list for each file.
pub proof fn limited_len(
    paths: Seq<Seq<char>>,
    files: Seq<Seq<AnalysisDiagnosticModel>>,
    limit: usize,
)
    ensures
        limited_by_file(paths, files, limit).len() == files.len(),
{
    within_room_len(paths, files, if limit == 0 {
        0
    } else {
        (limit - 1) as nat
    });
}

/// Keeps at most `limit` diagnostics of the files, with one on the first file that says
/// so where some are missing.
#[must_use]
pub fn enforce_diagnostic_limit(
    paths: &Vec<String>,
    files: &Vec<Vec<AnalysisDiagnostic>>,
    limit: usize,
) -> (r: Vec<Vec<AnalysisDiagnostic>>)
    requires
        paths@.len() == files@.len(),
    ensures
        r.deep_view() == limited_by_file(paths.deep_view(), files.deep_view(), limit),
{
    let ghost model = files.deep_view();
    let mut free: usize = limit;
    let mut over: bool = false;
    let mut i: usize = 0;
    while i < files.len()
        invariant
            i <= files.len(),
            model == files.deep_view(),
            over == (total_diagnostics(model.take(i as int)) > limit),
            !over ==> free == limit - total_diagnostics(model.take(i as int)),
        decreases files.len() - i,
    {
        proof {
            assert(model.take(i + 1).drop_last() =~= model.take(i as int));
            assert(model.take(i + 1).last() == files@[i as int].deep_view());
        }
        let n: usize = files[i].len();
        if !over {
            if n > free {
                over = true;
            } else {
                free = free - n;
            }
        }
        i = i + 1;
    }
    assert(model.take(i as int) =~= model);
    if !over {
        return files.replicate();
    }
    let room: usize = if limit == 0 {
        0
    } else {
        limit - 1
    };
    let ghost names = paths.deep_view();
    let mut remaining: usize = room;
    let mut omitted: Option<String> = None;
    let mut kept: Vec<Vec<AnalysisDiagnostic>> = Vec::new();
    let mut k: usize = 0;
    while k < files.len()
        invariant
            k <= files.len(),
            model == files.deep_view(),
            names == paths.deep_view(),
            paths.len() == files.len(),
            remaining == within_room(names, model.take(k as int), room as nat).remaining,
            omitted.deep_view() == within_room(names, model.take(k as int), room as nat).omitted,
            kept.deep_view() =~= within_room(names, model.take(k as int), room as nat).kept,
        decreases files.len() - k,
    {
        proof {
            assert(model.take(k + 1).drop_last() =~= model.take(k as int));
            assert(model.take(k + 1).last() == files@[k as int].deep_view());
            assert(names[k as int] == paths@[k as int].deep_view());
        }
        let n: usize = files[k].len();
        if remaining == 0 {
            let missing: bool = omitted.is_none();
            if missing && n > 0 {
                omitted = Some(paths[k].replicate());
            }
            let none: Vec<AnalysisDiagnostic> = Vec::new();
            assert(none.deep_view() =~= Seq::<AnalysisDiagnosticModel>::empty());
            push_item(&mut kept, none);
        } else if n <= remaining {
            remaining = remaining - n;
            push_item(&mut kept, files[k].replicate());
        } else {
            omitted = Some(paths[k].replicate());
            let first: Vec<AnalysisDiagnostic> = first_items(&files[k], remaining);
            push_item(&mut kept, first);
            remaining = 0;
        }
        k = k + 1;
    }
    proof {
        assert(model.take(k as int) =~= model);
        within_room_len(names, model, room as nat);
        if model.len() == 0 {
            assert(total_diagnostics(model) == 0);
        }
    }
    let path: String = match omitted {
        Some(path) => path,
        None => "<project>".to_string(),
    };
    let ghost held = kept.deep_view();
    let ghost notice_path = path@;
    let mut first: Vec<AnalysisDiagnostic> = kept[0].replicate();
    assert(first.deep_view() == held[0]);
    push_item(
        &mut first,
        AnalysisDiagnostic {
            code: "diagnostic_limit_exceeded".to_string(),
            path,
            severity: DiagnosticSeverity::Error,
            span: None,
            message: concat3(
                "Analysis produced more than ",
                &decimal(limit as u64),
                " diagnostics; narrow the project or raise the explicit diagnostic limit",
            ),
            blocks_reachability: true,
        },
    );
    replace_item(&mut kept, 0, first);
    kept
}

/// Whether a diagnostic among them stands in the way of conclusions.
pub open spec fn any_blocks(diagnostics: Seq<AnalysisDiagnosticModel>) -> bool {
    exists|i: int| 0 <= i < diagnostics.len() && (#[trigger] diagnostics[i]).blocks_reachability
}

/// Whether a diagnostic among them stands in the way of conclusions.
pub fn has_blocker(diagnostics: &Vec<AnalysisDiagnostic>) -> (r: bool)
    ensures
        r == any_blocks(diagnostics.deep_view()),
{
    let ghost model = diagnostics.deep_view();
    let mut i: usize = 0;
    while i < diagnostics.len()
        invariant
            i <= diagnostics.len(),
            model == diagnostics.deep_view(),
            forall|k: int| 0 <= k < i ==> !(#[trigger] model[k]).blocks_reachability,
        decreases diagnostics.len() - i,
    {
        assert(model[i as int] == diagnostics@[i as int].deep_view());
        if diagnostics[i].blocks_reachability {
            return true;
        }
        i = i + 1;
    }
    false
}

/// Whether something blocks conclusions.
pub open spec fn status_of(diagnostics: Seq<AnalysisDiagnosticModel>) -> AnalysisStatus {
    if any_blocks(diagnostics) {
        AnalysisStatus::Incomplete
    } else {
        AnalysisStatus::Complete
    }
}

/// Whether something blocks conclusions.
pub fn analysis_status(diagnostics: &Vec<AnalysisDiagnostic>) -> (r: AnalysisStatus)
    ensures
        r == status_of(diagnostics.deep_view()),
{
    if has_blocker(diagnostics) {
        AnalysisStatus::Incomplete
    } else {
        AnalysisStatus::Complete
    }
}

proof fn blocks_stay_without_repeats(items: Seq<AnalysisDiagnosticModel>)
    requires
        any_blocks(items),
    ensures
        any_blocks(without_repeats(items)),
    decreases items.len(),
{
    let rest = items.drop_last();
    let after = without_repeats(items);
    let front = without_repeats(rest);
    let w = choose|w: int| 0 <= w < items.len() && (#[trigger] items[w]).blocks_reachability;
    if w < rest.len() {
        assert(rest[w] == items[w]);
        blocks_stay_without_repeats(rest);
        let v = choose|v: int| 0 <= v < front.len() && (#[trigger] front[v]).blocks_reachability;
        assert(after[v] == front[v]);
    } else {
        assert(after[after.len() - 1].blocks_reachability);
    }
}

/// Diagnostics that block something still do when they are tidied.
pub proof fn blocks_stay_when_tidied(items: Seq<AnalysisDiagnosticModel>)
    requires
        any_blocks(items),
    ensures
        any_blocks(tidied(items)),
{
    broadcast use vstd::seq_lib::group_to_multiset_ensures;

    let ordered = sorted_by::<AnalysisDiagnostic, ByPlace>(items);
    let w = choose|w: int| 0 <= w < items.len() && (#[trigger] items[w]).blocks_reachability;
    sorted_by_keeps_items::<AnalysisDiagnostic, ByPlace>(items);
    assert(items.contains(items[w]));
    assert(items.to_multiset().count(items[w]) > 0);
    assert(ordered.contains(items[w]));
    let i = choose|i: int| 0 <= i < ordered.len() && ordered[i] == items[w];
    assert(ordered[i].blocks_reachability);
    blocks_stay_without_repeats(ordered);
}

proof fn place_is_of_same(items: Seq<AnalysisDiagnosticModel>, d: AnalysisDiagnosticModel)
    ensures
        match place_of_same(items, d) {
            Some(place) => 0 <= place < items.len() && same_but_for_targets(items[place], d),
            None => forall|k: int|
                0 <= k < items.len() ==> !same_but_for_targets(#[trigger] items[k], d),
        },
    decreases items.len(),
{
    if items.len() > 0 {
        place_is_of_same(items.drop_last(), d);
        if place_of_same(items, d) is None {
            assert forall|k: int| 0 <= k < items.len() implies !same_but_for_targets(
                #[trigger] items[k],
                d,
            ) by {
                if k < items.len() - 1 {
                    assert(items.drop_last()[k] == items[k]);
                }
            }
        }
    }
}

/// The target profiles in a message can be written in front of one, and read from it again.
proof fn targets_are_plain(message: Seq<char>)
    ensures
        target_prefix(message) is Some ==> targets_in(message).len() > 0,
        forall|k: int|
            0 <= k < targets_in(message).len() ==> {
                &&& !occurs(#[trigger] targets_in(message)[k], ", "@)
                &&& !occurs(targets_in(message)[k], "] "@)
            },
{
    reveal_strlit(", ");
    reveal_strlit("] ");
    if let Some((profiles, rest)) = target_prefix(message) {
        let behind = without_prefix(message, "[target "@)->0;
        cuts_hold_less(behind, "] "@, "] "@);
        pieces_hold_less(profiles, ", "@, "] "@);
    }
}

/// A message that starts with target profiles is read as one.
proof fn targets_are_read(targets: Seq<Seq<char>>, rest: Seq<char>)
    requires
        targets.len() > 0,
        forall|k: int|
            0 <= k < targets.len() ==> {
                &&& !occurs(#[trigger] targets[k], ", "@)
                &&& !occurs(targets[k], "] "@)
            },
    ensures
        ({
            let message = "[target "@ + joined(targets, ", "@) + "] "@ + rest;
            &&& untargeted(message) == rest
            &&& targets_in(message) == targets
        }),
{
    reveal_strlit(", ");
    reveal_strlit("] ");
    let profiles = joined(targets, ", "@);
    let message = "[target "@ + profiles + "] "@ + rest;
    joined_hold_no_more(targets, ", "@, "] "@);
    joined_parts_are_the_pieces(targets, ", "@);
    cut_behind(profiles, "] "@, rest);
    assert("[target "@.is_prefix_of(message)) by {
        assert(message.subrange(0, "[target "@.len() as int) =~= "[target "@);
    }
    assert(message.skip("[target "@.len() as int) =~= profiles + "] "@ + rest);
}

/// What two diagnostics that say the same become says the same, for the target profiles of both.
proof fn both_say_the_same(a: AnalysisDiagnosticModel, b: AnalysisDiagnosticModel)
    requires
        same_but_for_targets(a, b),
    ensures
        same_but_for_targets(for_both_targets(a, b), a),
        same_but_for_targets(for_both_targets(a, b), b),
        for_both_targets(a, b).blocks_reachability == a.blocks_reachability,
        forall|p: Seq<char>|
            #[trigger] targets_in(for_both_targets(a, b).message).contains(p) <==> targets_in(
                a.message,
            ).contains(p) || targets_in(b.message).contains(p),
{
    if a.message != b.message {
        let all = targets_in(a.message) + targets_in(b.message);
        let targets = collected::<String>(all);
        targets_are_plain(a.message);
        targets_are_plain(b.message);
        collected_is_ordered::<String>(all);
        assert(all.len() > 0);
        assert(all.contains(all[0]));
        assert(targets.contains(all[0]));
        assert forall|k: int| 0 <= k < targets.len() implies {
            &&& !occurs(#[trigger] targets[k], ", "@)
            &&& !occurs(targets[k], "] "@)
        } by {
            assert(targets.contains(targets[k]));
            let j = choose|j: int| 0 <= j < all.len() && all[j] == targets[k];
            if j < targets_in(a.message).len() {
                assert(all[j] == targets_in(a.message)[j]);
            } else {
                assert(all[j] == targets_in(b.message)[j - targets_in(a.message).len()]);
            }
        }
        targets_are_read(targets, untargeted(b.message));
        assert forall|p: Seq<char>| all.contains(p) implies targets_in(a.message).contains(p)
            || targets_in(b.message).contains(p) by {
            let j = choose|j: int| 0 <= j < all.len() && all[j] == p;
            if j < targets_in(a.message).len() {
                assert(targets_in(a.message)[j] == p);
            } else {
                assert(targets_in(b.message)[j - targets_in(a.message).len()] == p);
            }
        }
        assert forall|p: Seq<char>|
            targets_in(a.message).contains(p) || targets_in(b.message).contains(p) implies all.contains(
            p,
        ) by {
            if targets_in(a.message).contains(p) {
                let j = choose|j: int|
                    0 <= j < targets_in(a.message).len() && targets_in(a.message)[j] == p;
                assert(all[j] == p);
            } else {
                let j = choose|j: int|
                    0 <= j < targets_in(b.message).len() && targets_in(b.message)[j] == p;
                assert(all[targets_in(a.message).len() + j] == p);
            }
        }
    }
}

/// Whether no two of some diagnostics differ only in their target profiles.
pub open spec fn said_once(items: Seq<AnalysisDiagnosticModel>) -> bool {
    forall|i: int, j: int|
        0 <= i < j < items.len() ==> !same_but_for_targets(
            #[trigger] items[i],
            #[trigger] items[j],
        )
}

/// Whether some diagnostics tell of a diagnostic, for all of its target profiles.
pub open spec fn tell_of(
    items: Seq<AnalysisDiagnosticModel>,
    d: AnalysisDiagnosticModel,
) -> bool {
    exists|i: int|
        0 <= i < items.len() && same_but_for_targets(#[trigger] items[i], d) && forall|p: Seq<char>|
            #[trigger] targets_in(d.message).contains(p) ==> targets_in(items[i].message).contains(p)
}

/// Whether a diagnostic that says the same names a target profile.
pub open spec fn names_target(
    items: Seq<AnalysisDiagnosticModel>,
    d: AnalysisDiagnosticModel,
    p: Seq<char>,
) -> bool {
    exists|i: int|
        0 <= i < items.len() && same_but_for_targets(#[trigger] items[i], d) && targets_in(
            items[i].message,
        ).contains(p)
}

proof fn targets_are_merged(items: Seq<AnalysisDiagnosticModel>)
    ensures
        said_once(merged_targets(items)),
        forall|k: int| 0 <= k < items.len() ==> tell_of(merged_targets(items), #[trigger] items[k]),
        forall|k: int, p: Seq<char>|
            0 <= k < merged_targets(items).len() && #[trigger] targets_in(
                merged_targets(items)[k].message,
            ).contains(p) ==> names_target(items, merged_targets(items)[k], p),
    decreases items.len(),
{
    if items.len() > 0 {
        let front = items.drop_last();
        let last = items.last();
        let rest = merged_targets(front);
        let all = merged_targets(items);
        targets_are_merged(front);
        place_is_of_same(rest, last);
        match place_of_same(rest, last) {
            Some(place) => {
                both_say_the_same(rest[place], last);
                assert(all[place] == for_both_targets(rest[place], last));
            },
            None => {
                assert(all[rest.len() as int] == last);
            },
        }
        assert forall|i: int, j: int| 0 <= i < j < all.len() implies !same_but_for_targets(
            #[trigger] all[i],
            #[trigger] all[j],
        ) by {
            if j < rest.len() {
                assert(!same_but_for_targets(rest[i], rest[j]));
            } else {
                assert(!same_but_for_targets(rest[i], last));
            }
        }
        assert forall|k: int| 0 <= k < items.len() implies tell_of(all, #[trigger] items[k]) by {
            let d = items[k];
            if k < front.len() {
                assert(front[k] == d);
                assert(tell_of(rest, front[k]));
                let i = choose|i: int|
                    0 <= i < rest.len() && same_but_for_targets(#[trigger] rest[i], d)
                        && forall|p: Seq<char>|
                        #[trigger] targets_in(d.message).contains(p) ==> targets_in(
                            rest[i].message,
                        ).contains(p);
                assert(same_but_for_targets(all[i], d));
            } else {
                match place_of_same(rest, last) {
                    Some(place) => {
                        assert(same_but_for_targets(all[place], d));
                    },
                    None => {
                        assert(same_but_for_targets(all[rest.len() as int], d));
                    },
                }
            }
        }
        assert forall|k: int, p: Seq<char>|
            0 <= k < all.len() && #[trigger] targets_in(
                all[k].message,
            ).contains(p) implies names_target(items, all[k], p) by {
            if k < rest.len() && targets_in(rest[k].message).contains(p) {
                assert(names_target(front, rest[k], p));
                let i = choose|i: int|
                    0 <= i < front.len() && same_but_for_targets(#[trigger] front[i], rest[k])
                        && targets_in(front[i].message).contains(p);
                assert(items[i] == front[i]);
                assert(same_but_for_targets(items[i], all[k]));
            } else {
                assert(items[items.len() - 1] == last);
                assert(same_but_for_targets(items[items.len() - 1], all[k]));
            }
        }
    }
}

/// Whether some diagnostics stand as the first of the given ones that say the same stand.
pub open spec fn stand_as_first_said(
    items: Seq<AnalysisDiagnosticModel>,
    given: Seq<AnalysisDiagnosticModel>,
) -> bool {
    &&& forall|i: int| 0 <= i < items.len() ==> place_of_same(given, #[trigger] items[i]) is Some
    &&& forall|i: int, j: int|
        0 <= i < j < items.len() ==> place_of_same(given, #[trigger] items[i])->0 < place_of_same(
            given,
            #[trigger] items[j],
        )->0
}

proof fn same_have_one_place(
    items: Seq<AnalysisDiagnosticModel>,
    a: AnalysisDiagnosticModel,
    b: AnalysisDiagnosticModel,
)
    requires
        same_but_for_targets(a, b),
    ensures
        place_of_same(items, a) == place_of_same(items, b),
    decreases items.len(),
{
    if items.len() > 0 {
        same_have_one_place(items.drop_last(), a, b);
    }
}

proof fn results_stand_as_first_said(items: Seq<AnalysisDiagnosticModel>)
    ensures
        stand_as_first_said(merged_targets(items), items),
    decreases items.len(),
{
    if items.len() > 0 {
        let front = items.drop_last();
        let last = items.last();
        let rest = merged_targets(front);
        let all = merged_targets(items);
        results_stand_as_first_said(front);
        targets_are_merged(front);
        place_is_of_same(rest, last);
        place_is_of_same(front, last);
        assert forall|k: int| 0 <= k < rest.len() implies place_of_same(items, #[trigger] all[k])
            == place_of_same(front, rest[k]) by {
            match place_of_same(rest, last) {
                Some(place) => {
                    both_say_the_same(rest[place], last);
                    if k == place {
                        same_have_one_place(items, all[k], rest[k]);
                    }
                },
                None => {},
            }
        }
        assert forall|k: int| 0 <= k < rest.len() implies place_of_same(front, #[trigger] rest[k])->0
            < items.len() - 1 by {
            place_is_of_same(front, rest[k]);
        }
        if place_of_same(rest, last) is None {
            if place_of_same(front, last) is Some {
                let f = place_of_same(front, last)->0;
                assert(tell_of(rest, front[f]));
                let i = choose|i: int|
                    0 <= i < rest.len() && same_but_for_targets(#[trigger] rest[i], front[f])
                        && forall|p: Seq<char>|
                        #[trigger] targets_in(front[f].message).contains(p) ==> targets_in(
                            rest[i].message,
                        ).contains(p);
                assert(same_but_for_targets(rest[i], last));
            }
            assert(all[rest.len() as int] == last);
            assert(place_of_same(items, last) == Some(items.len() - 1));
        }
    }
}

proof fn repeats_stay(items: Seq<AnalysisDiagnosticModel>)
    ensures
        forall|d: AnalysisDiagnosticModel|
            #[trigger] without_repeats(items).contains(d) <==> items.contains(d),
    decreases items.len(),
{
    if items.len() > 0 {
        let front = items.drop_last();
        let rest = without_repeats(front);
        let all = without_repeats(items);
        repeats_stay(front);
        assert forall|d: AnalysisDiagnosticModel| #[trigger] all.contains(d) <==> items.contains(
            d,
        ) by {
            assert(rest.contains(d) <==> front.contains(d));
            if items.contains(d) {
                let k = choose|k: int| 0 <= k < items.len() && items[k] == d;
                if k < front.len() {
                    assert(front[k] == d);
                    let j = choose|j: int| 0 <= j < rest.len() && rest[j] == d;
                    assert(all[j] == d);
                } else {
                    assert(all[all.len() - 1] == d);
                }
            }
            if all.contains(d) {
                let j = choose|j: int| 0 <= j < all.len() && all[j] == d;
                if j < rest.len() {
                    assert(rest[j] == d);
                    let k = choose|k: int| 0 <= k < front.len() && front[k] == d;
                    assert(items[k] == d);
                } else {
                    assert(items[items.len() - 1] == d);
                }
            }
        }
    }
}

proof fn order_keeps_diagnostics(items: Seq<AnalysisDiagnosticModel>)
    ensures
        forall|d: AnalysisDiagnosticModel|
            #[trigger] sorted_by::<AnalysisDiagnostic, ByPlace>(items).contains(d)
                <==> items.contains(d),
{
    broadcast use vstd::seq_lib::group_to_multiset_ensures;

    let ordered = sorted_by::<AnalysisDiagnostic, ByPlace>(items);
    sorted_by_keeps_items::<AnalysisDiagnostic, ByPlace>(items);
    assert forall|d: AnalysisDiagnosticModel| #[trigger] ordered.contains(d) <==> items.contains(
        d,
    ) by {
        assert(ordered.contains(d) <==> ordered.to_multiset().count(d) > 0);
        assert(items.contains(d) <==> items.to_multiset().count(d) > 0);
    }
}

/// Diagnostics of several profiles that differ only in their target profiles become one that
/// names all of these: no two results say the same, each diagnostic is told of for all of its
/// target profiles, no result names a target profile that no diagnostic named, and the results
/// stand as the first diagnostics that say the same stand in order.
pub proof fn equal_diagnostics_become_one(diagnostics: Seq<AnalysisDiagnosticModel>)
    ensures
        said_once(merged_diagnostics(diagnostics)),
        forall|k: int|
            0 <= k < diagnostics.len() ==> tell_of(
                merged_diagnostics(diagnostics),
                #[trigger] diagnostics[k],
            ),
        forall|k: int, p: Seq<char>|
            0 <= k < merged_diagnostics(diagnostics).len() && #[trigger] targets_in(
                merged_diagnostics(diagnostics)[k].message,
            ).contains(p) ==> names_target(
                diagnostics,
                merged_diagnostics(diagnostics)[k],
                p,
            ),
        stand_as_first_said(merged_diagnostics(diagnostics), tidied(diagnostics)),
{
    let ordered = sorted_by::<AnalysisDiagnostic, ByPlace>(diagnostics);
    let tidy = tidied(diagnostics);
    let all = merged_diagnostics(diagnostics);
    order_keeps_diagnostics(diagnostics);
    repeats_stay(ordered);
    targets_are_merged(tidy);
    results_stand_as_first_said(tidy);
    assert forall|k: int| 0 <= k < diagnostics.len() implies tell_of(
        all,
        #[trigger] diagnostics[k],
    ) by {
        let d = diagnostics[k];
        assert(diagnostics.contains(d));
        assert(ordered.contains(d));
        assert(tidy.contains(d));
        let t = choose|t: int| 0 <= t < tidy.len() && tidy[t] == d;
        assert(tell_of(all, tidy[t]));
    }
    assert forall|k: int, p: Seq<char>|
        0 <= k < all.len() && #[trigger] targets_in(
            all[k].message,
        ).contains(p) implies names_target(diagnostics, all[k], p) by {
        assert(names_target(tidy, all[k], p));
        let t = choose|t: int|
            0 <= t < tidy.len() && same_but_for_targets(#[trigger] tidy[t], all[k])
                && targets_in(tidy[t].message).contains(p);
        assert(tidy.contains(tidy[t]));
        assert(ordered.contains(tidy[t]));
        assert(diagnostics.contains(tidy[t]));
        let d = choose|d: int| 0 <= d < diagnostics.len() && diagnostics[d] == tidy[t];
        assert(same_but_for_targets(diagnostics[d], all[k]));
    }
}

/// Diagnostics that block something still do when they are merged over targets.
pub proof fn blocks_stay_when_merged(items: Seq<AnalysisDiagnosticModel>)
    requires
        any_blocks(items),
    ensures
        any_blocks(merged_diagnostics(items)),
{
    equal_diagnostics_become_one(items);
    let all = merged_diagnostics(items);
    let w = choose|w: int| 0 <= w < items.len() && (#[trigger] items[w]).blocks_reachability;
    assert(tell_of(all, items[w]));
    let i = choose|i: int|
        0 <= i < all.len() && same_but_for_targets(#[trigger] all[i], items[w]) && forall|
            p: Seq<char>,
        |
            #[trigger] targets_in(items[w].message).contains(p) ==> targets_in(
                all[i].message,
            ).contains(p);
    assert(all[i].blocks_reachability);
}

} // verus!
