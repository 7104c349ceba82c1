//! Which symbol an imported or re-exported name stands for.

use crate::collections::{
    ascending, collected, listed, listed_is, with_item_ascending, with_item_contains, OrderedSet,
};
use crate::domain::facts::{
    ExportBinding, ExportBindingKind, ExportBindingModel, FileFacts, FileFactsModel, ImportBinding,
    ImportBindingKind, ImportBindingModel, UsageKind,
};
use crate::domain::graph::{
    reached_stays_inside, reaches, reaches_further, reaches_itself, setting_counts, unset,
};
use crate::domain::ids::SymbolId;
use crate::domain::report::{ImportReport, ImportReportModel, ResolutionStatus};
use crate::text::{no_texts, one_text, same};
use crate::values::{push_item, Ordered, Value};
use vstd::prelude::*;

verus! {

/// A symbol of a file.
#[derive(Debug, Clone, Copy, PartialEq, Eq, Structural)]
pub struct SymbolKey {
    pub file: usize,
    pub symbol: SymbolId,
}

impl DeepView for SymbolKey {
    type V = SymbolKey;

    open spec fn deep_view(&self) -> SymbolKey {
        *self
    }
}

impl Value for SymbolKey {
    fn replicate(&self) -> (r: Self) {
        *self
    }

    fn same_value(&self, other: &Self) -> (r: bool) {
        *self == *other
    }
}

impl Ordered for SymbolKey {
    open spec fn before(a: SymbolKey, b: SymbolKey) -> bool {
        <usize as Ordered>::before(a.file, b.file) || (a.file == b.file && (<SymbolId as Ordered>::before(a.symbol, b.symbol)))
    }

    fn is_before(&self, other: &Self) -> (r: bool) {
        assert(Self::before(self.deep_view(), other.deep_view()) == (<usize as Ordered>::before(self.deep_view().file, other.deep_view().file) || (self.deep_view().file == other.deep_view().file && (<SymbolId as Ordered>::before(self.deep_view().symbol, other.deep_view().symbol)))));
        if self.file.is_before(&other.file) {
            return true;
        }
        if !self.file.same_value(&other.file) {
            return false;
        }
        self.symbol.is_before(&other.symbol)
    }

    proof fn before_irreflexive(a: SymbolKey) {
        <usize as Ordered>::before_irreflexive(a.file);
        <SymbolId as Ordered>::before_irreflexive(a.symbol);
    }

    proof fn before_transitive(a: SymbolKey, b: SymbolKey, c: SymbolKey) {
        if <usize as Ordered>::before(a.file, b.file) && <usize as Ordered>::before(b.file, c.file) {
            <usize as Ordered>::before_transitive(a.file, b.file, c.file);
        }
        if <SymbolId as Ordered>::before(a.symbol, b.symbol) && <SymbolId as Ordered>::before(b.symbol, c.symbol) {
            <SymbolId as Ordered>::before_transitive(a.symbol, b.symbol, c.symbol);
        }
    }

    proof fn before_total(a: SymbolKey, b: SymbolKey) {
        <usize as Ordered>::before_total(a.file, b.file);
        <SymbolId as Ordered>::before_total(a.symbol, b.symbol);
    }
}

/// That an imported symbol stands for an exported one.
#[derive(Debug, Clone, Copy, PartialEq, Eq, Structural)]
pub struct ResolvedSymbolLink {
    pub source: SymbolKey,
    pub source_usage: UsageKind,
    pub target: SymbolKey,
    pub target_usage: UsageKind,
}

impl DeepView for ResolvedSymbolLink {
    type V = ResolvedSymbolLink;

    open spec fn deep_view(&self) -> ResolvedSymbolLink {
        *self
    }
}

impl Value for ResolvedSymbolLink {
    fn replicate(&self) -> (r: Self) {
        *self
    }

    fn same_value(&self, other: &Self) -> (r: bool) {
        *self == *other
    }
}

impl Ordered for ResolvedSymbolLink {
    open spec fn before(a: ResolvedSymbolLink, b: ResolvedSymbolLink) -> bool {
        <SymbolKey as Ordered>::before(a.source, b.source) || (a.source == b.source && (<UsageKind as Ordered>::before(a.source_usage, b.source_usage) || (a.source_usage == b.source_usage && (<SymbolKey as Ordered>::before(a.target, b.target) || (a.target == b.target && (<UsageKind as Ordered>::before(a.target_usage, b.target_usage)))))))
    }

    fn is_before(&self, other: &Self) -> (r: bool) {
        assert(Self::before(self.deep_view(), other.deep_view()) == (<SymbolKey as Ordered>::before(self.deep_view().source, other.deep_view().source) || (self.deep_view().source == other.deep_view().source && (<UsageKind as Ordered>::before(self.deep_view().source_usage, other.deep_view().source_usage) || (self.deep_view().source_usage == other.deep_view().source_usage && (<SymbolKey as Ordered>::before(self.deep_view().target, other.deep_view().target) || (self.deep_view().target == other.deep_view().target && (<UsageKind as Ordered>::before(self.deep_view().target_usage, other.deep_view().target_usage)))))))));
        if self.source.is_before(&other.source) {
            return true;
        }
        if !self.source.same_value(&other.source) {
            return false;
        }
        if self.source_usage.is_before(&other.source_usage) {
            return true;
        }
        if !self.source_usage.same_value(&other.source_usage) {
            return false;
        }
        if self.target.is_before(&other.target) {
            return true;
        }
        if !self.target.same_value(&other.target) {
            return false;
        }
        self.target_usage.is_before(&other.target_usage)
    }

    proof fn before_irreflexive(a: ResolvedSymbolLink) {
        <SymbolKey as Ordered>::before_irreflexive(a.source);
        <UsageKind as Ordered>::before_irreflexive(a.source_usage);
        <SymbolKey as Ordered>::before_irreflexive(a.target);
        <UsageKind as Ordered>::before_irreflexive(a.target_usage);
    }

    proof fn before_transitive(
        a: ResolvedSymbolLink,
        b: ResolvedSymbolLink,
        c: ResolvedSymbolLink,
    ) {
        if <SymbolKey as Ordered>::before(a.source, b.source) && <SymbolKey as Ordered>::before(b.source, c.source) {
            <SymbolKey as Ordered>::before_transitive(a.source, b.source, c.source);
        }
        if <UsageKind as Ordered>::before(a.source_usage, b.source_usage) && <UsageKind as Ordered>::before(b.source_usage, c.source_usage) {
            <UsageKind as Ordered>::before_transitive(
                a.source_usage,
                b.source_usage,
                c.source_usage,
            );
        }
        if <SymbolKey as Ordered>::before(a.target, b.target) && <SymbolKey as Ordered>::before(b.target, c.target) {
            <SymbolKey as Ordered>::before_transitive(a.target, b.target, c.target);
        }
        if <UsageKind as Ordered>::before(a.target_usage, b.target_usage) && <UsageKind as Ordered>::before(b.target_usage, c.target_usage) {
            <UsageKind as Ordered>::before_transitive(
                a.target_usage,
                b.target_usage,
                c.target_usage,
            );
        }
    }

    proof fn before_total(a: ResolvedSymbolLink, b: ResolvedSymbolLink) {
        <SymbolKey as Ordered>::before_total(a.source, b.source);
        <UsageKind as Ordered>::before_total(a.source_usage, b.source_usage);
        <SymbolKey as Ordered>::before_total(a.target, b.target);
        <UsageKind as Ordered>::before_total(a.target_usage, b.target_usage);
    }
}

/// A symbol that is in use from outside.
#[derive(Debug, Clone, Copy, PartialEq, Eq, Structural)]
pub struct SymbolRoot {
    pub symbol: SymbolKey,
    pub usage: UsageKind,
}

impl DeepView for SymbolRoot {
    type V = SymbolRoot;

    open spec fn deep_view(&self) -> SymbolRoot {
        *self
    }
}

impl Value for SymbolRoot {
    fn replicate(&self) -> (r: Self) {
        *self
    }

    fn same_value(&self, other: &Self) -> (r: bool) {
        *self == *other
    }
}

impl Ordered for SymbolRoot {
    open spec fn before(a: SymbolRoot, b: SymbolRoot) -> bool {
        <SymbolKey as Ordered>::before(a.symbol, b.symbol) || (a.symbol == b.symbol && (<UsageKind as Ordered>::before(a.usage, b.usage)))
    }

    fn is_before(&self, other: &Self) -> (r: bool) {
        assert(Self::before(self.deep_view(), other.deep_view()) == (<SymbolKey as Ordered>::before(self.deep_view().symbol, other.deep_view().symbol) || (self.deep_view().symbol == other.deep_view().symbol && (<UsageKind as Ordered>::before(self.deep_view().usage, other.deep_view().usage)))));
        if self.symbol.is_before(&other.symbol) {
            return true;
        }
        if !self.symbol.same_value(&other.symbol) {
            return false;
        }
        self.usage.is_before(&other.usage)
    }

    proof fn before_irreflexive(a: SymbolRoot) {
        <SymbolKey as Ordered>::before_irreflexive(a.symbol);
        <UsageKind as Ordered>::before_irreflexive(a.usage);
    }

    proof fn before_transitive(a: SymbolRoot, b: SymbolRoot, c: SymbolRoot) {
        if <SymbolKey as Ordered>::before(a.symbol, b.symbol) && <SymbolKey as Ordered>::before(b.symbol, c.symbol) {
            <SymbolKey as Ordered>::before_transitive(a.symbol, b.symbol, c.symbol);
        }
        if <UsageKind as Ordered>::before(a.usage, b.usage) && <UsageKind as Ordered>::before(b.usage, c.usage) {
            <UsageKind as Ordered>::before_transitive(a.usage, b.usage, c.usage);
        }
    }

    proof fn before_total(a: SymbolRoot, b: SymbolRoot) {
        <SymbolKey as Ordered>::before_total(a.symbol, b.symbol);
        <UsageKind as Ordered>::before_total(a.usage, b.usage);
    }
}

/// The place of the file that is called `path`.
pub open spec fn place_of_path(items: Seq<FileFactsModel>, path: Seq<char>) -> Option<usize>
    decreases items.len(),
{
    if items.len() == 0 {
        None
    } else {
        let rest = place_of_path(items.drop_last(), path);
        let last = items.last();
        if last.path == path {
            Some((items.len() - 1) as usize)
        } else {
            rest
        }
    }
}

fn find_path(facts: &Vec<FileFacts>, path: &str) -> (r: Option<usize>)
    ensures
        r == place_of_path(facts.deep_view(), path@),
        r matches Some(i) ==> i < facts@.len(),
{
    let mut found: Option<usize> = None;
    let ghost model = facts.deep_view();
    let mut i: usize = 0;
    while i < facts.len()
        invariant
            i <= facts.len(),
            model == facts.deep_view(),
            found == place_of_path(model.take(i as int), path@),
            found matches Some(k) ==> k < i,
        decreases facts.len() - i,
    {
        proof {
            assert(model.take(i + 1).drop_last() =~= model.take(i as int));
            assert(model.take(i + 1).last() == facts@[i as int].deep_view());
        }
        if same(&facts[i].path, path) {
            found = Some(i);
        }
        i = i + 1;
    }
    assert(model.take(i as int) =~= model);
    found
}

/// The first import of a specifier that was resolved.
pub open spec fn first_resolved(
    items: Seq<ImportReportModel>,
    specifier: Seq<char>,
) -> Option<ImportReportModel>
    decreases items.len(),
{
    if items.len() == 0 {
        None
    } else {
        let rest = first_resolved(items.drop_last(), specifier);
        let last = items.last();
        if rest is Some {
            rest
        } else if last.specifier == specifier && last.status == ResolutionStatus::Resolved {
            Some(last)
        } else {
            None
        }
    }
}

/// The file that a specifier in the file at place `source` leads to.
pub open spec fn target_file(
    facts: Seq<FileFactsModel>,
    imports: Seq<Seq<ImportReportModel>>,
    source: usize,
    specifier: Seq<char>,
) -> Option<usize> {
    if source < imports.len() {
        match first_resolved(imports[source as int], specifier) {
            Some(import) => match import.target {
                Some(path) => place_of_path(facts, path),
                None => None,
            },
            None => None,
        }
    } else {
        None
    }
}

/// The file that a specifier in the file at place `source` leads to.
fn resolved_target_file(
    facts: &Vec<FileFacts>,
    imports: &Vec<Vec<ImportReport>>,
    source: usize,
    specifier: &str,
) -> (r: Option<usize>)
    ensures
        r == target_file(facts.deep_view(), imports.deep_view(), source, specifier@),
        r matches Some(i) ==> i < facts@.len(),
{
    if source >= imports.len() {
        return None;
    }
    let own: &Vec<ImportReport> = &imports[source];
    assert(imports.deep_view()[source as int] == own.deep_view());
    let mut found: Option<usize> = None;
    let ghost model = own.deep_view();
    let mut i: usize = 0;
    while i < own.len()
        invariant
            i <= own.len(),
            model == own.deep_view(),
            match found {
            Some(k) => k < i && first_resolved(model.take(i as int), specifier@) == Some(own@[k as int].deep_view()),
            None => first_resolved(model.take(i as int), specifier@) is None,
        },
        decreases own.len() - i,
    {
        proof {
            assert(model.take(i + 1).drop_last() =~= model.take(i as int));
            assert(model.take(i + 1).last() == own@[i as int].deep_view());
        }
        if found.is_none() && same(&own[i].specifier, specifier) && own[i].status
            == ResolutionStatus::Resolved {
            found = Some(i);
        }
        i = i + 1;
    }
    assert(model.take(i as int) =~= model);
    match found {
        Some(k) => {
            match &own[k].target {
                Some(path) => find_path(facts, path),
                None => None,
            }
        },
        None => None,
    }
}

/// What a symbol is used for by something that is or is not for types alone.
pub open spec fn usage(type_only: bool) -> UsageKind {
    if type_only {
        UsageKind::Type
    } else {
        UsageKind::Runtime
    }
}

fn usage_of(type_only: bool) -> (r: UsageKind)
    ensures
        r == usage(type_only),
{
    if type_only {
        UsageKind::Type
    } else {
        UsageKind::Runtime
    }
}

/// Whether an export passes on all that the file at place `to` exports.
pub open spec fn passes_on(
    facts: Seq<FileFactsModel>,
    imports: Seq<Seq<ImportReportModel>>,
    file: usize,
    binding: ExportBindingModel,
    to: usize,
) -> bool {
    &&& binding.kind == ExportBindingKind::Star
    &&& binding.source is Some
    &&& target_file(facts, imports, file, binding.source->0) == Some(to)
}

/// Which file passes on all that another exports.
pub open spec fn star_step(
    facts: Seq<FileFactsModel>,
    imports: Seq<Seq<ImportReportModel>>,
) -> spec_fn(usize, usize) -> bool {
    |a: usize, b: usize|
        a < facts.len() && exists|k: int|
            0 <= k < facts[a as int].symbol_facts.exports.len() && passes_on(
                facts,
                imports,
                a,
                #[trigger] facts[a as int].symbol_facts.exports[k],
                b,
            )
}

/// Whether a file exports a name itself.
pub open spec fn names_export(exports: Seq<ExportBindingModel>, name: Seq<char>) -> bool {
    exists|k: int|
        0 <= k < exports.len() && (#[trigger] exports[k]).kind != ExportBindingKind::Star
            && exports[k].exported == name
}

/// Whether a file exports a name, itself or by passing on what another file exports.
pub open spec fn is_exported(
    facts: Seq<FileFactsModel>,
    imports: Seq<Seq<ImportReportModel>>,
    file: usize,
    name: Seq<char>,
) -> bool {
    exists|f: usize|
        f < facts.len() && #[trigger] reaches(star_step(facts, imports), file, f) && names_export(
            facts[f as int].symbol_facts.exports,
            name,
        )
}

/// All names that a file exports, in order.
pub open spec fn names_exported(
    facts: Seq<FileFactsModel>,
    imports: Seq<Seq<ImportReportModel>>,
    file: usize,
) -> Seq<Seq<char>> {
    listed::<String>(|name: Seq<char>| is_exported(facts, imports, file, name))
}

/// All names that a file exports, in order.
fn exported_names(
    facts: &Vec<FileFacts>,
    imports: &Vec<Vec<ImportReport>>,
    file: usize,
) -> (r: Vec<String>)
    requires
        file < facts@.len(),
    ensures
        r.deep_view() == names_exported(facts.deep_view(), imports.deep_view(), file),
{
    let ghost fs = facts.deep_view();
    let ghost is = imports.deep_view();
    let ghost step = star_step(fs, is);
    let count: usize = facts.len();
    let mut names: OrderedSet<String> = OrderedSet::new();
    let mut visited: Vec<bool> = Vec::new();
    let mut k: usize = 0;
    while k < count
        invariant
            k <= count,
            visited@.len() == k,
            forall|a: int| 0 <= a < k ==> !#[trigger] visited@[a],
        decreases count - k,
    {
        visited.push(false);
        k = k + 1;
    }
    let mut pending: Vec<usize> = Vec::new();
    pending.push(file);
    proof {
        reaches_itself(step, file);
        assert(pending@[0] == file);
    }
    while pending.len() > 0
        invariant
            fs == facts.deep_view(),
            is == imports.deep_view(),
            step == star_step(fs, is),
            count == facts.len(),
            file < count,
            visited@.len() == count,
            ascending::<String>(names.deep_view()),
            forall|n: Seq<char>| #[trigger] names.deep_view().contains(n) ==> is_exported(fs, is, file, n),
            forall|i: int|
                0 <= i < pending@.len() ==> #[trigger] pending@[i] < count && reaches(
                    step,
                    file,
                    pending@[i],
                ),
            forall|a: usize| a < count && #[trigger] visited@[a as int] ==> reaches(step, file, a),
            visited@[file as int] || pending@.contains(file),
            forall|a: usize, n: Seq<char>|
                a < count && visited@[a as int] && #[trigger] names_export(
                    fs[a as int].symbol_facts.exports,
                    n,
                ) ==> names.deep_view().contains(n),
            forall|a: usize, b: usize|
                a < count && visited@[a as int] && #[trigger] step(a, b) ==> b < count && (
                visited@[b as int] || pending@.contains(b)),
        decreases unset(visited@), pending.len(),
    {
        let ghost before = pending@;
        let ghost flags = visited@;
        let ghost known = names.deep_view();
        let current: usize = pending.pop().unwrap();
        proof {
            assert(before =~= pending@.push(current));
            assert(before[before.len() - 1] == current);
            assert forall|x: usize| before.contains(x) && x != current implies pending@.contains(
                x,
            ) by {
                let i = choose|i: int| 0 <= i < before.len() && before[i] == x;
                assert(pending@[i] == x);
            }
            assert forall|i: int| 0 <= i < pending@.len() implies #[trigger] pending@[i] < count
                && reaches(step, file, pending@[i]) by {
                assert(before[i] == pending@[i]);
            }
        }
        if !visited[current] {
            visited.set(current, true);
            proof {
                setting_counts(flags, current as int);
            }
            let ghost left = pending@;
            let exports: &Vec<ExportBinding> = &facts[current].symbol_facts.exports;
            let ghost own = exports.deep_view();
            assert(own == fs[current as int].symbol_facts.exports);
            let mut i: usize = 0;
            while i < exports.len()
                invariant
                    fs == facts.deep_view(),
                    is == imports.deep_view(),
                    count == facts.len(),
                    i <= exports.len(),
                    own == exports.deep_view(),
                    ascending::<String>(names.deep_view()),
                    forall|n: Seq<char>| #[trigger]
                        names.deep_view().contains(n) <==> (known.contains(n) || exists|j: int|
                            0 <= j < i && (#[trigger] own[j]).kind != ExportBindingKind::Star
                                && own[j].exported == n),
                    forall|b: usize| #[trigger]
                        pending@.contains(b) <==> (left.contains(b) || exists|j: int|
                            0 <= j < i && passes_on(fs, is, current, #[trigger] own[j], b)),
                    forall|j: int|
                        0 <= j < pending@.len() ==> #[trigger] pending@[j] < count || left.contains(
                            pending@[j],
                        ),
                decreases exports.len() - i,
            {
                let binding: &ExportBinding = &exports[i];
                assert(own[i as int] == binding.deep_view());
                let ghost held = names.deep_view();
                let ghost waiting = pending@;
                if binding.kind == ExportBindingKind::Star {
                    match &binding.source {
                        Some(source) => {
                            match resolved_target_file(facts, imports, current, source) {
                                Some(target) => {
                                    pending.push(target);
                                    proof {
                                        assert(passes_on(fs, is, current, own[i as int], target));
                                        assert(pending@[pending@.len() - 1] == target);
                                        assert forall|b: usize| #[trigger]
                                            pending@.contains(b) <==> (waiting.contains(b) || b
                                                == target) by {
                                            if waiting.contains(b) {
                                                let q = choose|q: int|
                                                    0 <= q < waiting.len() && waiting[q] == b;
                                                assert(pending@[q] == b);
                                            }
                                            if pending@.contains(b) && b != target {
                                                let q = choose|q: int|
                                                    0 <= q < pending@.len() && pending@[q] == b;
                                                assert(waiting[q] == b);
                                            }
                                        }
                                        assert forall|j: int|
                                            0 <= j < pending@.len() implies #[trigger] pending@[j]
                                            < count || left.contains(pending@[j]) by {
                                            if j < waiting.len() {
                                                assert(pending@[j] == waiting[j]);
                                            }
                                        }
                                    }
                                },
                                None => {},
                            }
                        },
                        None => {},
                    }
                } else {
                    names.insert(binding.exported.replicate());
                    proof {
                        with_item_contains::<String>(held, own[i as int].exported);
                        with_item_ascending::<String>(held, own[i as int].exported);
                    }
                }
                i = i + 1;
                proof {
                    assert forall|n: Seq<char>| #[trigger]
                        names.deep_view().contains(n) <==> (known.contains(n) || exists|j: int|
                            0 <= j < i && (#[trigger] own[j]).kind != ExportBindingKind::Star
                                && own[j].exported == n) by {
                        if held.contains(n) && !known.contains(n) {
                            let j = choose|j: int|
                                0 <= j < i - 1 && (#[trigger] own[j]).kind
                                    != ExportBindingKind::Star && own[j].exported == n;
                            assert(own[j].exported == n);
                        }
                        if own[i - 1].kind != ExportBindingKind::Star && own[i - 1].exported == n {
                            assert(names.deep_view().contains(n));
                        }
                    }
                    assert forall|b: usize| #[trigger]
                        pending@.contains(b) <==> (left.contains(b) || exists|j: int|
                            0 <= j < i && passes_on(fs, is, current, #[trigger] own[j], b)) by {
                        if waiting.contains(b) && !left.contains(b) {
                            let j = choose|j: int|
                                0 <= j < i - 1 && passes_on(fs, is, current, #[trigger] own[j], b);
                            assert(passes_on(fs, is, current, own[j], b));
                        }
                        if passes_on(fs, is, current, own[i - 1], b) {
                            assert(pending@.contains(b));
                        }
                    }
                }
            }
            proof {
                assert forall|n: Seq<char>| #[trigger] names.deep_view().contains(n) implies is_exported(
                    fs,
                    is,
                    file,
                    n,
                ) by {
                    if !known.contains(n) {
                        assert(names_export(fs[current as int].symbol_facts.exports, n));
                        assert(reaches(star_step(fs, is), file, current));
                    }
                }
                assert forall|j: int| 0 <= j < pending@.len() implies #[trigger] pending@[j] < count
                    && reaches(step, file, pending@[j]) by {
                    let b = pending@[j];
                    assert(pending@.contains(b));
                    if left.contains(b) {
                        let q = choose|q: int| 0 <= q < left.len() && left[q] == b;
                        assert(before[q] == b);
                    } else {
                        let q = choose|q: int|
                            0 <= q < own.len() && passes_on(fs, is, current, #[trigger] own[q], b);
                        assert(step(current, b));
                        reaches_further(step, file, current, b);
                    }
                }
                assert forall|a: usize, n: Seq<char>|
                    a < count && visited@[a as int] && #[trigger] names_export(
                        fs[a as int].symbol_facts.exports,
                        n,
                    ) implies names.deep_view().contains(n) by {
                    if a == current {
                        let q = choose|q: int|
                            0 <= q < own.len() && (#[trigger] own[q]).kind
                                != ExportBindingKind::Star && own[q].exported == n;
                        assert(own[q].exported == n);
                    } else {
                        assert(flags[a as int]);
                        assert(known.contains(n));
                    }
                }
                assert forall|a: usize, b: usize|
                    a < count && visited@[a as int] && #[trigger] step(a, b) implies b < count && (
                visited@[b as int] || pending@.contains(b)) by {
                    if a == current {
                        let q = choose|q: int|
                            0 <= q < own.len() && passes_on(fs, is, a, #[trigger] own[q], b);
                        assert(pending@.contains(b));
                        let p = choose|p: int| 0 <= p < pending@.len() && pending@[p] == b;
                        assert(pending@[p] < count);
                    } else {
                        assert(flags[a as int]);
                        if before.contains(b) && b != current {
                            assert(left.contains(b));
                        }
                    }
                }
                assert(visited@[file as int] || pending@.contains(file)) by {
                    if before.contains(file) && file != current {
                        assert(left.contains(file));
                    }
                }
            }
        }
    }
    proof {
        let inside = |x: usize| x < count && visited@[x as int];
        assert forall|n: Seq<char>| #[trigger] names.deep_view().contains(n) <==> is_exported(
            fs,
            is,
            file,
            n,
        ) by {
            if is_exported(fs, is, file, n) {
                let f = choose|f: usize|
                    f < fs.len() && #[trigger] reaches(star_step(fs, is), file, f) && names_export(
                        fs[f as int].symbol_facts.exports,
                        n,
                    );
                assert(inside(file));
                reached_stays_inside(step, inside, file, f);
            }
        }
        listed_is::<String>(
            |name: Seq<char>| is_exported(fs, is, file, name),
            names.deep_view(),
        );
    }
    names.into_items()
}

/// Whether an export is one that a name can stand for.
pub open spec fn answers(binding: ExportBindingModel, name: Seq<char>) -> bool {
    binding.exported == name || binding.kind == ExportBindingKind::Star
}

/// Under which name an export that stands for `name` finds it where it comes from.
pub open spec fn name_at_source(binding: ExportBindingModel, name: Seq<char>) -> Seq<char> {
    if binding.kind == ExportBindingKind::Star {
        name
    } else {
        match binding.imported {
            Some(imported) => imported,
            None => name,
        }
    }
}

/// Whether an export of the file at place `at.0` takes the name `at.1` from `to`.
pub open spec fn takes_from(
    facts: Seq<FileFactsModel>,
    imports: Seq<Seq<ImportReportModel>>,
    at: (usize, Seq<char>),
    binding: ExportBindingModel,
    to: (usize, Seq<char>),
) -> bool {
    &&& answers(binding, at.1)
    &&& binding.source is Some
    &&& target_file(facts, imports, at.0, binding.source->0) == Some(to.0)
    &&& to.1 == name_at_source(binding, at.1)
}

/// Which exported name is taken from which other.
pub open spec fn reexport_step(
    facts: Seq<FileFactsModel>,
    imports: Seq<Seq<ImportReportModel>>,
) -> spec_fn((usize, Seq<char>), (usize, Seq<char>)) -> bool {
    |a: (usize, Seq<char>), b: (usize, Seq<char>)|
        a.0 < facts.len() && exists|k: int|
            0 <= k < facts[a.0 as int].symbol_facts.exports.len() && takes_from(
                facts,
                imports,
                a,
                #[trigger] facts[a.0 as int].symbol_facts.exports[k],
                b,
            )
}

/// Whether an export makes the name `at.1` of the file at place `at.0` a symbol of that
/// file.
pub open spec fn binds(
    at: (usize, Seq<char>),
    binding: ExportBindingModel,
    target: (SymbolKey, UsageKind),
) -> bool {
    &&& answers(binding, at.1)
    &&& binding.local is Some
    &&& target == (
        SymbolKey { file: at.0, symbol: binding.local->0 },
        usage(binding.type_only),
    )
}

/// Whether an exported name stands for a symbol of its own file.
pub open spec fn stands_for(
    facts: Seq<FileFactsModel>,
    at: (usize, Seq<char>),
    target: (SymbolKey, UsageKind),
) -> bool {
    at.0 < facts.len() && exists|k: int|
        0 <= k < facts[at.0 as int].symbol_facts.exports.len() && binds(
            at,
            #[trigger] facts[at.0 as int].symbol_facts.exports[k],
            target,
        )
}

/// Whether an exported name stands for a symbol, of its own file or of one that it is
/// taken from.
pub open spec fn is_export_target(
    facts: Seq<FileFactsModel>,
    imports: Seq<Seq<ImportReportModel>>,
    file: usize,
    name: Seq<char>,
    target: (SymbolKey, UsageKind),
) -> bool {
    exists|at: (usize, Seq<char>)| #[trigger]
        reaches(reexport_step(facts, imports), (file, name), at) && stands_for(facts, at, target)
}

/// All symbols that an exported name stands for, in order.
pub open spec fn export_targets(
    facts: Seq<FileFactsModel>,
    imports: Seq<Seq<ImportReportModel>>,
    file: usize,
    name: Seq<char>,
) -> Seq<(SymbolKey, UsageKind)> {
    listed::<(SymbolKey, UsageKind)>(
        |target: (SymbolKey, UsageKind)| is_export_target(facts, imports, file, name, target),
    )
}

/// The names under which exports find what they take from other files.
spec fn pool_of(exports: Seq<ExportBindingModel>) -> Set<Seq<char>>
    decreases exports.len(),
{
    if exports.len() == 0 {
        Set::empty()
    } else {
        match exports.last().imported {
            Some(name) => pool_of(exports.drop_last()).insert(name),
            None => pool_of(exports.drop_last()),
        }
    }
}

spec fn name_pool(facts: Seq<FileFactsModel>) -> Set<Seq<char>>
    decreases facts.len(),
{
    if facts.len() == 0 {
        Set::empty()
    } else {
        name_pool(facts.drop_last()).union(pool_of(facts.last().symbol_facts.exports))
    }
}

spec fn pair_pool(count: nat, names: Set<Seq<char>>) -> Set<(usize, Seq<char>)>
    decreases count,
{
    if count == 0 {
        Set::empty()
    } else {
        pair_pool((count - 1) as nat, names).union(
            names.map(|name: Seq<char>| ((count - 1) as usize, name)),
        )
    }
}

proof fn pool_of_holds(exports: Seq<ExportBindingModel>)
    ensures
        pool_of(exports).finite(),
        forall|k: int|
            0 <= k < exports.len() && (#[trigger] exports[k]).imported is Some ==> pool_of(
                exports,
            ).contains(exports[k].imported->0),
    decreases exports.len(),
{
    if exports.len() > 0 {
        pool_of_holds(exports.drop_last());
        assert forall|k: int|
            0 <= k < exports.len() && (#[trigger] exports[k]).imported is Some implies pool_of(
            exports,
        ).contains(exports[k].imported->0) by {
            if k < exports.len() - 1 {
                assert(exports.drop_last()[k] == exports[k]);
            }
        }
    }
}

proof fn name_pool_holds(facts: Seq<FileFactsModel>)
    ensures
        name_pool(facts).finite(),
        forall|f: int, k: int|
            0 <= f < facts.len() && 0 <= k < facts[f].symbol_facts.exports.len() && (
            #[trigger] facts[f].symbol_facts.exports[k]).imported is Some ==> name_pool(
                facts,
            ).contains(facts[f].symbol_facts.exports[k].imported->0),
    decreases facts.len(),
{
    if facts.len() > 0 {
        name_pool_holds(facts.drop_last());
        pool_of_holds(facts.last().symbol_facts.exports);
        assert forall|f: int, k: int|
            0 <= f < facts.len() && 0 <= k < facts[f].symbol_facts.exports.len() && (
            #[trigger] facts[f].symbol_facts.exports[k]).imported is Some implies name_pool(
            facts,
        ).contains(facts[f].symbol_facts.exports[k].imported->0) by {
            if f < facts.len() - 1 {
                assert(facts.drop_last()[f] == facts[f]);
                assert(facts.drop_last()[f].symbol_facts.exports[k].imported is Some);
            }
        }
    }
}

proof fn pair_pool_holds(count: nat, names: Set<Seq<char>>)
    requires
        names.finite(),
    ensures
        pair_pool(count, names).finite(),
        forall|f: usize, n: Seq<char>|
            f < count && names.contains(n) ==> #[trigger] pair_pool(count, names).contains((f, n)),
    decreases count,
{
    if count > 0 {
        pair_pool_holds((count - 1) as nat, names);
        let pair = |name: Seq<char>| ((count - 1) as usize, name);
        names.lemma_map_finite(pair);
        assert forall|f: usize, n: Seq<char>| f < count && names.contains(n) implies #[trigger] pair_pool(
            count,
            names,
        ).contains((f, n)) by {
            if f == count - 1 {
                assert(pair(n) == (f, n));
                assert(names.map(pair).contains((f, n)));
            } else {
                assert(pair_pool((count - 1) as nat, names).contains((f, n)));
            }
        }
    }
}

proof fn one_less(
    pool: Set<(usize, Seq<char>)>,
    seen: Seq<(usize, Seq<char>)>,
    x: (usize, Seq<char>),
)
    requires
        pool.finite(),
        pool.contains(x),
        !seen.contains(x),
    ensures
        forall|now: Seq<(usize, Seq<char>)>|
            (forall|y: (usize, Seq<char>)| #[trigger] now.contains(y) <==> (seen.contains(y) || y == x))
                ==> (#[trigger] pool.difference(now.to_set())).len() < pool.difference(seen.to_set()).len(),
{
    let before = pool.difference(seen.to_set());
    assert(before.contains(x));
    assert forall|now: Seq<(usize, Seq<char>)>|
        (forall|y: (usize, Seq<char>)| #[trigger] now.contains(y) <==> (seen.contains(y) || y == x)) implies
        (#[trigger] pool.difference(now.to_set())).len() < before.len() by {
        let after = pool.difference(now.to_set());
        assert forall|y: (usize, Seq<char>)| after.contains(y) <==> before.remove(x).contains(y) by {
            assert(now.to_set().contains(y) <==> now.contains(y));
            assert(seen.to_set().contains(y) <==> seen.contains(y));
        }
        assert(after =~= before.remove(x));
    }
}

/// All symbols that an exported name stands for, in order.
#[verifier::rlimit(60)]
fn resolve_export_targets(
    facts: &Vec<FileFacts>,
    imports: &Vec<Vec<ImportReport>>,
    file: usize,
    name: &str,
) -> (r: Vec<(SymbolKey, UsageKind)>)
    requires
        file < facts@.len(),
    ensures
        r.deep_view() == export_targets(facts.deep_view(), imports.deep_view(), file, name@),
{
    let ghost fs = facts.deep_view();
    let ghost is = imports.deep_view();
    let ghost step = reexport_step(fs, is);
    let ghost start = (file, name@);
    let count: usize = facts.len();
    let ghost names = name_pool(fs).insert(name@);
    let ghost pool = pair_pool(count as nat, names);
    proof {
        name_pool_holds(fs);
        pair_pool_holds(count as nat, names);
        reaches_itself(step, start);
    }
    let mut targets: OrderedSet<(SymbolKey, UsageKind)> = OrderedSet::new();
    let mut visited: OrderedSet<(usize, String)> = OrderedSet::new();
    let mut pending: Vec<(usize, String)> = Vec::new();
    push_item(&mut pending, (file, name.to_string()));
    assert(pending.deep_view()[0] == start);
    while pending.len() > 0
        invariant
            fs == facts.deep_view(),
            is == imports.deep_view(),
            step == reexport_step(fs, is),
            start == (file, name@),
            count == facts.len(),
            file < count,
            names.contains(name@),
            forall|f: int, k: int|
                0 <= f < fs.len() && 0 <= k < fs[f].symbol_facts.exports.len() && (
                #[trigger] fs[f].symbol_facts.exports[k]).imported is Some ==> names.contains(
                    fs[f].symbol_facts.exports[k].imported->0,
                ),
            pool.finite(),
            forall|f: usize, n: Seq<char>|
                f < count && names.contains(n) ==> #[trigger] pool.contains((f, n)),
            ascending::<(SymbolKey, UsageKind)>(targets.deep_view()),
            forall|t: (SymbolKey, UsageKind)| #[trigger]
                targets.deep_view().contains(t) ==> is_export_target(fs, is, file, name@, t),
            forall|i: int|
                0 <= i < pending@.len() ==> (#[trigger] pending.deep_view()[i]).0 < count
                    && names.contains(pending.deep_view()[i].1) && reaches(
                    step,
                    start,
                    pending.deep_view()[i],
                ),
            forall|a: (usize, Seq<char>)| #[trigger]
                visited.deep_view().contains(a) ==> a.0 < count && names.contains(a.1) && reaches(
                    step,
                    start,
                    a,
                ),
            visited.deep_view().contains(start) || pending.deep_view().contains(start),
            forall|a: (usize, Seq<char>), t: (SymbolKey, UsageKind)| #[trigger]
                visited.deep_view().contains(a) && #[trigger] stands_for(fs, a, t)
                    ==> targets.deep_view().contains(t),
            forall|a: (usize, Seq<char>), b: (usize, Seq<char>)| #[trigger]
                visited.deep_view().contains(a) && #[trigger] step(a, b)
                    ==> visited.deep_view().contains(b) || pending.deep_view().contains(b),
        decreases pool.difference(visited.deep_view().to_set()).len(), pending.len(),
    {
        let ghost before = pending.deep_view();
        let ghost seen = visited.deep_view();
        let ghost known = targets.deep_view();
        let current: (usize, String) = pending.pop().unwrap();
        let ghost at = current.deep_view();
        let ghost left = pending.deep_view();
        proof {
            assert(before =~= left.push(at));
            assert(before[before.len() - 1] == at);
            assert forall|x: (usize, Seq<char>)| before.contains(x) && x != at implies left.contains(
                x,
            ) by {
                let i = choose|i: int| 0 <= i < before.len() && before[i] == x;
                assert(left[i] == x);
            }
            assert forall|i: int| 0 <= i < left.len() implies (#[trigger] left[i]).0 < count
                && names.contains(left[i].1) && reaches(step, start, left[i]) by {
                assert(before[i] == left[i]);
            }
        }
        if !visited.contains(&current) {
            let copy: (usize, String) = current.replicate();
            visited.insert(copy);
            proof {
                with_item_contains::<(usize, String)>(seen, at);
                assert(pool.contains((at.0, at.1)));
                one_less(pool, seen, at);
                assert(pool.difference(visited.deep_view().to_set()).len() < pool.difference(seen.to_set()).len());
            }
            let exports: &Vec<ExportBinding> = &facts[current.0].symbol_facts.exports;
            let ghost own = exports.deep_view();
            assert(own == fs[at.0 as int].symbol_facts.exports);
            visit_exports(facts, imports, &current, exports, &mut targets, &mut pending);
            proof {
                assert forall|t: (SymbolKey, UsageKind)| #[trigger]
                    targets.deep_view().contains(t) implies is_export_target(
                    fs,
                    is,
                    file,
                    name@,
                    t,
                ) by {
                    if !known.contains(t) {
                        assert(stands_for(fs, at, t));
                        assert(reaches(reexport_step(fs, is), (file, name@), at));
                    }
                }
                assert forall|i: int| 0 <= i < pending@.len() implies (
                #[trigger] pending.deep_view()[i]).0 < count && names.contains(
                    pending.deep_view()[i].1,
                ) && reaches(step, start, pending.deep_view()[i]) by {
                    let b = pending.deep_view()[i];
                    assert(pending.deep_view().contains(b));
                    if left.contains(b) {
                        let q = choose|q: int| 0 <= q < left.len() && left[q] == b;
                        assert(left[q] == b);
                    } else {
                        let q = choose|q: int|
                            0 <= q < own.len() && takes_from(fs, is, at, #[trigger] own[q], b);
                        assert(step(at, b));
                        reaches_further(step, start, at, b);
                        assert(fs[at.0 as int].symbol_facts.exports[q] == own[q]);
                        if own[q].kind != ExportBindingKind::Star && own[q].imported is Some {
                            assert(names.contains(
                                fs[at.0 as int].symbol_facts.exports[q].imported->0,
                            ));
                        }
                    }
                }
                assert forall|a: (usize, Seq<char>), t: (SymbolKey, UsageKind)| #[trigger]
                    visited.deep_view().contains(a) && #[trigger] stands_for(
                        fs,
                        a,
                        t,
                    ) implies targets.deep_view().contains(t) by {
                    if a == at {
                        let q = choose|q: int|
                            0 <= q < own.len() && binds(at, #[trigger] own[q], t);
                        assert(binds(at, own[q], t));
                    } else {
                        assert(seen.contains(a));
                        assert(known.contains(t));
                    }
                }
                assert forall|a: (usize, Seq<char>), b: (usize, Seq<char>)| #[trigger]
                    visited.deep_view().contains(a) && #[trigger] step(
                        a,
                        b,
                    ) implies visited.deep_view().contains(b) || pending.deep_view().contains(b) by {
                    if a == at {
                        let q = choose|q: int|
                            0 <= q < own.len() && takes_from(fs, is, at, #[trigger] own[q], b);
                        assert(takes_from(fs, is, at, own[q], b));
                    } else {
                        assert(seen.contains(a));
                        if !seen.contains(b) && b != at {
                            assert(left.contains(b));
                        }
                    }
                }
                if before.contains(start) && start != at {
                    assert(left.contains(start));
                }
            }
        }
    }
    proof {
        let inside = |x: (usize, Seq<char>)| visited.deep_view().contains(x);
        assert(inside(start));
        assert forall|x: (usize, Seq<char>), y: (usize, Seq<char>)| #[trigger]
            inside(x) && #[trigger] step(x, y) implies inside(y) by {
            assert(visited.deep_view().contains(x));
        }
        assert forall|t: (SymbolKey, UsageKind)| #[trigger]
            targets.deep_view().contains(t) <==> is_export_target(fs, is, file, name@, t) by {
            if is_export_target(fs, is, file, name@, t) {
                let a = choose|a: (usize, Seq<char>)| #[trigger]
                    reaches(reexport_step(fs, is), (file, name@), a) && stands_for(fs, a, t);
                reached_stays_inside(step, inside, start, a);
                assert(visited.deep_view().contains(a));
            }
        }
        listed_is::<(SymbolKey, UsageKind)>(
            |target: (SymbolKey, UsageKind)| is_export_target(fs, is, file, name@, target),
            targets.deep_view(),
        );
    }
    targets.into_items()
}

#[verifier::rlimit(40)]
fn visit_exports(
    facts: &Vec<FileFacts>,
    imports: &Vec<Vec<ImportReport>>,
    at: &(usize, String),
    exports: &Vec<ExportBinding>,
    targets: &mut OrderedSet<(SymbolKey, UsageKind)>,
    pending: &mut Vec<(usize, String)>,
)
    requires
        ascending::<(SymbolKey, UsageKind)>(old(targets).deep_view()),
    ensures
        ascending::<(SymbolKey, UsageKind)>(final(targets).deep_view()),
        forall|t: (SymbolKey, UsageKind)| #[trigger]
            final(targets).deep_view().contains(t) <==> (old(targets).deep_view().contains(t)
                || exists|k: int|
                0 <= k < exports@.len() && binds(
                    at.deep_view(),
                    #[trigger] exports.deep_view()[k],
                    t,
                )),
        forall|b: (usize, Seq<char>)| #[trigger]
            final(pending).deep_view().contains(b) <==> (old(pending).deep_view().contains(b)
                || exists|k: int|
                0 <= k < exports@.len() && takes_from(
                    facts.deep_view(),
                    imports.deep_view(),
                    at.deep_view(),
                    #[trigger] exports.deep_view()[k],
                    b,
                )),
        forall|i: int|
            0 <= i < final(pending)@.len() ==> (#[trigger] final(pending).deep_view()[i]).0
                < facts@.len() || old(pending).deep_view().contains(
                final(pending).deep_view()[i],
            ),
{
    let ghost fs = facts.deep_view();
    let ghost is = imports.deep_view();
    let ghost here = at.deep_view();
    let ghost own = exports.deep_view();
    let ghost known = targets.deep_view();
    let ghost left = pending.deep_view();
    let mut i: usize = 0;
    while i < exports.len()
        invariant
            i <= exports.len(),
            fs == facts.deep_view(),
            is == imports.deep_view(),
            here == at.deep_view(),
            own == exports.deep_view(),
            ascending::<(SymbolKey, UsageKind)>(targets.deep_view()),
            forall|t: (SymbolKey, UsageKind)| #[trigger]
                targets.deep_view().contains(t) <==> (known.contains(t) || exists|k: int|
                    0 <= k < i && binds(here, #[trigger] own[k], t)),
            forall|b: (usize, Seq<char>)| #[trigger]
                pending.deep_view().contains(b) <==> (left.contains(b) || exists|k: int|
                    0 <= k < i && takes_from(fs, is, here, #[trigger] own[k], b)),
            forall|j: int|
                0 <= j < pending@.len() ==> (#[trigger] pending.deep_view()[j]).0 < facts@.len()
                    || left.contains(pending.deep_view()[j]),
        decreases exports.len() - i,
    {
        let binding: &ExportBinding = &exports[i];
        assert(own[i as int] == binding.deep_view());
        let ghost held = targets.deep_view();
        let ghost waiting = pending.deep_view();
        let star: bool = binding.kind == ExportBindingKind::Star;
        if star || same(&binding.exported, &at.1) {
            assert(answers(own[i as int], here.1));
            match binding.local {
                Some(local) => {
                    let target: (SymbolKey, UsageKind) = (
                        SymbolKey { file: at.0, symbol: local },
                        usage_of(binding.type_only),
                    );
                    let ghost added = target.deep_view();
                    targets.insert(target);
                    proof {
                        assert(binds(here, own[i as int], added));
                        with_item_contains::<(SymbolKey, UsageKind)>(held, added);
                        with_item_ascending::<(SymbolKey, UsageKind)>(held, added);
                    }
                },
                None => {},
            }
            match &binding.source {
                Some(source) => {
                    match resolved_target_file(facts, imports, at.0, source) {
                        Some(target) => {
                            let next: String = if star {
                                at.1.replicate()
                            } else {
                                match &binding.imported {
                                    Some(imported) => imported.replicate(),
                                    None => at.1.replicate(),
                                }
                            };
                            let ghost added = (target, next@);
                            push_item(pending, (target, next));
                            proof {
                                assert(takes_from(fs, is, here, own[i as int], added));
                                let now = pending.deep_view();
                                assert(now =~= waiting.push(added));
                                assert(now[now.len() - 1] == added);
                                assert forall|b: (usize, Seq<char>)| #[trigger]
                                    now.contains(b) <==> (waiting.contains(b) || b == added) by {
                                    if waiting.contains(b) {
                                        let q = choose|q: int|
                                            0 <= q < waiting.len() && waiting[q] == b;
                                        assert(now[q] == b);
                                    }
                                    if now.contains(b) && b != added {
                                        let q = choose|q: int| 0 <= q < now.len() && now[q] == b;
                                        assert(waiting[q] == b);
                                    }
                                }
                                assert forall|j: int| 0 <= j < pending@.len() implies (
                                #[trigger] pending.deep_view()[j]).0 < facts@.len()
                                    || left.contains(pending.deep_view()[j]) by {
                                    if j < waiting.len() {
                                        assert(now[j] == waiting[j]);
                                    }
                                }
                            }
                        },
                        None => {},
                    }
                },
                None => {},
            }
        }
        i = i + 1;
        proof {
            assert forall|t: (SymbolKey, UsageKind)| #[trigger]
                targets.deep_view().contains(t) <==> (known.contains(t) || exists|k: int|
                    0 <= k < i && binds(here, #[trigger] own[k], t)) by {
                if held.contains(t) && !known.contains(t) {
                    let k = choose|k: int| 0 <= k < i - 1 && binds(here, #[trigger] own[k], t);
                    assert(binds(here, own[k], t));
                }
                if binds(here, own[i - 1], t) {
                    assert(targets.deep_view().contains(t));
                }
            }
            assert forall|b: (usize, Seq<char>)| #[trigger]
                pending.deep_view().contains(b) <==> (left.contains(b) || exists|k: int|
                    0 <= k < i && takes_from(fs, is, here, #[trigger] own[k], b)) by {
                if waiting.contains(b) && !left.contains(b) {
                    let k = choose|k: int|
                        0 <= k < i - 1 && takes_from(fs, is, here, #[trigger] own[k], b);
                    assert(takes_from(fs, is, here, own[k], b));
                }
                if takes_from(fs, is, here, own[i - 1], b) {
                    assert(pending.deep_view().contains(b));
                }
            }
        }
    }
}

/// The links of an imported symbol to what an exported name stands for.
pub open spec fn links_to(
    source: SymbolKey,
    source_usage: UsageKind,
    targets: Seq<(SymbolKey, UsageKind)>,
) -> Seq<ResolvedSymbolLink> {
    targets.map_values(
        |target: (SymbolKey, UsageKind)|
            ResolvedSymbolLink {
                source,
                source_usage,
                target: target.0,
                target_usage: target.1,
            },
    )
}

/// The names of a file that an import binding stands for.
pub open spec fn bound_names(
    facts: Seq<FileFactsModel>,
    imports: Seq<Seq<ImportReportModel>>,
    binding: ImportBindingModel,
    target: usize,
) -> Seq<Seq<char>> {
    match binding.kind {
        ImportBindingKind::Default => seq!["default"@],
        ImportBindingKind::Named => match binding.imported {
            Some(name) => seq![name],
            None => Seq::empty(),
        },
        ImportBindingKind::Namespace => names_exported(facts, imports, target),
        ImportBindingKind::CommonJs => names_exported(facts, imports, target),
    }
}

/// The links of an imported symbol to what some names of a file stand for.
pub open spec fn links_by_name(
    items: Seq<Seq<char>>,
    facts: Seq<FileFactsModel>,
    imports: Seq<Seq<ImportReportModel>>,
    source: SymbolKey,
    source_usage: UsageKind,
    target: usize,
) -> Seq<ResolvedSymbolLink>
    decreases items.len(),
{
    if items.len() == 0 {
        Seq::empty()
    } else {
        let rest = links_by_name(items.drop_last(), facts, imports, source, source_usage, target);
        let last = items.last();
        rest + links_to(source, source_usage, export_targets(facts, imports, target, last))
    }
}

/// The links of the imports of a file.
pub open spec fn links_by_binding(
    items: Seq<ImportBindingModel>,
    facts: Seq<FileFactsModel>,
    imports: Seq<Seq<ImportReportModel>>,
    file: usize,
) -> Seq<ResolvedSymbolLink>
    decreases items.len(),
{
    if items.len() == 0 {
        Seq::empty()
    } else {
        let rest = links_by_binding(items.drop_last(), facts, imports, file);
        let last = items.last();
        match target_file(facts, imports, file, last.source) {
            Some(target) => rest + links_by_name(
                bound_names(facts, imports, last, target),
                facts,
                imports,
                SymbolKey { file, symbol: last.local },
                usage(last.type_only),
                target,
            ),
            None => rest,
        }
    }
}

/// The links of the imports of the first files.
pub open spec fn links_by_file(
    items: Seq<FileFactsModel>,
    facts: Seq<FileFactsModel>,
    imports: Seq<Seq<ImportReportModel>>,
) -> Seq<ResolvedSymbolLink>
    decreases items.len(),
{
    if items.len() == 0 {
        Seq::empty()
    } else {
        let rest = links_by_file(items.drop_last(), facts, imports);
        let last = items.last();
        rest + links_by_binding(
            last.symbol_facts.imports,
            facts,
            imports,
            (items.len() - 1) as usize,
        )
    }
}

/// The links of all imports, in order.
pub open spec fn symbol_links(
    facts: Seq<FileFactsModel>,
    imports: Seq<Seq<ImportReportModel>>,
) -> Seq<ResolvedSymbolLink> {
    collected::<ResolvedSymbolLink>(links_by_file(facts, facts, imports))
}

fn link_names(
    names: &Vec<String>,
    facts: &Vec<FileFacts>,
    imports: &Vec<Vec<ImportReport>>,
    source: SymbolKey,
    source_usage: UsageKind,
    target: usize,
    links: &mut Vec<ResolvedSymbolLink>,
)
    requires
        target < facts@.len(),
    ensures
        final(links).deep_view() == old(links).deep_view() + links_by_name(
            names.deep_view(),
            facts.deep_view(),
            imports.deep_view(),
            source,
            source_usage,
            target,
        ),
{
    let ghost fs = facts.deep_view();
    let ghost is = imports.deep_view();
    let ghost first = links.deep_view();
    let ghost model = names.deep_view();
    let mut i: usize = 0;
    while i < names.len()
        invariant
            i <= names.len(),
            model == names.deep_view(),
            links.deep_view() =~= first + links_by_name(model.take(i as int), fs, is, source, source_usage, target),
            fs == facts.deep_view(),
            is == imports.deep_view(),
            target < facts@.len(),
        decreases names.len() - i,
    {
        proof {
            assert(model.take(i + 1).drop_last() =~= model.take(i as int));
            assert(model.take(i + 1).last() == names@[i as int].deep_view());
        }
        let targets: Vec<(SymbolKey, UsageKind)> = resolve_export_targets(
            facts,
            imports,
            target,
            &names[i],
        );
        add_links(source, source_usage, &targets, links);
        i = i + 1;
    }
    assert(model.take(i as int) =~= model);
}

fn add_links(
    source: SymbolKey,
    source_usage: UsageKind,
    targets: &Vec<(SymbolKey, UsageKind)>,
    links: &mut Vec<ResolvedSymbolLink>,
)
    ensures
        final(links).deep_view() == old(links).deep_view() + links_to(
            source,
            source_usage,
            targets.deep_view(),
        ),
{
    let ghost first = links.deep_view();
    let ghost model = targets.deep_view();
    let mut i: usize = 0;
    while i < targets.len()
        invariant
            i <= targets.len(),
            model == targets.deep_view(),
            links.deep_view() =~= first + links_to(source, source_usage, model.take(i as int)),
        decreases targets.len() - i,
    {
        proof {
            assert(model.take(i + 1).drop_last() =~= model.take(i as int));
            assert(model.take(i + 1).last() == targets@[i as int].deep_view());
        }
        push_item(
            links,
            ResolvedSymbolLink {
                source,
                source_usage,
                target: targets[i].0,
                target_usage: targets[i].1,
            },
        );
        assert(model.take(i + 1) =~= model.take(i as int).push(targets@[i as int].deep_view()));
        i = i + 1;
    }
    assert(model.take(i as int) =~= model);
}

fn link_bindings(
    bindings: &Vec<ImportBinding>,
    facts: &Vec<FileFacts>,
    imports: &Vec<Vec<ImportReport>>,
    file: usize,
    links: &mut Vec<ResolvedSymbolLink>,
)
    ensures
        final(links).deep_view() == old(links).deep_view() + links_by_binding(
            bindings.deep_view(),
            facts.deep_view(),
            imports.deep_view(),
            file,
        ),
{
    let ghost fs = facts.deep_view();
    let ghost is = imports.deep_view();
    let ghost first = links.deep_view();
    let ghost model = bindings.deep_view();
    let mut i: usize = 0;
    while i < bindings.len()
        invariant
            i <= bindings.len(),
            model == bindings.deep_view(),
            links.deep_view() =~= first + links_by_binding(model.take(i as int), fs, is, file),
            fs == facts.deep_view(),
            is == imports.deep_view(),
        decreases bindings.len() - i,
    {
        proof {
            assert(model.take(i + 1).drop_last() =~= model.take(i as int));
            assert(model.take(i + 1).last() == bindings@[i as int].deep_view());
        }
        let binding: &ImportBinding = &bindings[i];
        match resolved_target_file(facts, imports, file, &binding.source) {
            Some(target) => {
                let names: Vec<String> = match binding.kind {
                    ImportBindingKind::Default => one_text("default"),
                    ImportBindingKind::Named => {
                        match &binding.imported {
                            Some(name) => one_text(name),
                            None => no_texts(),
                        }
                    },
                    ImportBindingKind::Namespace => exported_names(facts, imports, target),
                    ImportBindingKind::CommonJs => exported_names(facts, imports, target),
                };
                link_names(
                    &names,
                    facts,
                    imports,
                    SymbolKey { file, symbol: binding.local },
                    usage_of(binding.type_only),
                    target,
                    links,
                );
            },
            None => {},
        }
        i = i + 1;
    }
    assert(model.take(i as int) =~= model);
}

/// Which exported symbols the imported ones stand for.
#[must_use]
pub fn build_symbol_links(
    facts: &Vec<FileFacts>,
    imports: &Vec<Vec<ImportReport>>,
) -> (r: Vec<ResolvedSymbolLink>)
    ensures
        r.deep_view() == symbol_links(facts.deep_view(), imports.deep_view()),
{
    let ghost is = imports.deep_view();
    let mut links: Vec<ResolvedSymbolLink> = Vec::new();
    let ghost model = facts.deep_view();
    let mut i: usize = 0;
    while i < facts.len()
        invariant
            i <= facts.len(),
            model == facts.deep_view(),
            links.deep_view() =~= links_by_file(model.take(i as int), model, is),
            is == imports.deep_view(),
        decreases facts.len() - i,
    {
        proof {
            assert(model.take(i + 1).drop_last() =~= model.take(i as int));
            assert(model.take(i + 1).last() == facts@[i as int].deep_view());
        }
        link_bindings(&facts[i].symbol_facts.imports, facts, imports, i, &mut links);
        i = i + 1;
    }
    assert(model.take(i as int) =~= model);
    let unique: OrderedSet<ResolvedSymbolLink> = OrderedSet::from_items(links);
    unique.into_items()
}

/// Whether a file is open to the world: only entries are, those that are named where
/// some are named, else all or none.
pub open spec fn opened(
    facts: Seq<FileFactsModel>,
    entries: Seq<usize>,
    fallback: bool,
    named: Option<Seq<Seq<char>>>,
    file: usize,
) -> bool {
    entries.contains(file) && match named {
        Some(paths) => paths.contains(facts[file as int].path),
        None => fallback,
    }
}

/// Which files are open to the world.
#[must_use]
pub fn open_world_files(
    facts: &Vec<FileFacts>,
    entries: &Vec<usize>,
    fallback_open_world: bool,
    explicit_open_world_entries: &Option<OrderedSet<String>>,
) -> (r: Vec<bool>)
    requires
        forall|i: int| 0 <= i < entries@.len() ==> #[trigger] entries@[i] < facts@.len(),
    ensures
        r@.len() == facts@.len(),
        forall|file: int|
            0 <= file < facts@.len() ==> #[trigger] r@[file] == opened(
                facts.deep_view(),
                entries@,
                fallback_open_world,
                explicit_open_world_entries.deep_view(),
                file as usize,
            ),
{
    let ghost fs = facts.deep_view();
    let ghost named = explicit_open_world_entries.deep_view();
    let count: usize = facts.len();
    let mut files: Vec<bool> = Vec::new();
    let mut k: usize = 0;
    while k < count
        invariant
            k <= count,
            files@.len() == k,
            forall|a: int| 0 <= a < k ==> !#[trigger] files@[a],
        decreases count - k,
    {
        files.push(false);
        k = k + 1;
    }
    let mut i: usize = 0;
    while i < entries.len()
        invariant
            i <= entries.len(),
            count == facts.len(),
            files@.len() == count,
            fs == facts.deep_view(),
            named == explicit_open_world_entries.deep_view(),
            forall|j: int| 0 <= j < entries@.len() ==> #[trigger] entries@[j] < facts@.len(),
            forall|file: int|
                0 <= file < count ==> #[trigger] files@[file] == opened(
                    fs,
                    entries@.take(i as int),
                    fallback_open_world,
                    named,
                    file as usize,
                ),
        decreases entries.len() - i,
    {
        let ghost before = files@;
        let entry: usize = entries[i];
        let path: &String = &facts[entry].path;
        assert(fs[entry as int].path == path@);
        let open: bool = match explicit_open_world_entries {
            Some(paths) => paths.contains(path),
            None => fallback_open_world,
        };
        files.set(entry, open);
        proof {
            let now = entries@.take(i + 1);
            let seen = entries@.take(i as int);
            assert(now =~= seen.push(entry));
            assert forall|file: int| 0 <= file < count implies #[trigger] files@[file] == opened(
                fs,
                now,
                fallback_open_world,
                named,
                file as usize,
            ) by {
                if file == entry {
                    assert(now[i as int] == entry);
                    assert(now.contains(entry));
                } else {
                    assert(files@[file] == before[file]);
                    assert(now.contains(file as usize) <==> seen.contains(file as usize)) by {
                        if now.contains(file as usize) {
                            let q = choose|q: int| 0 <= q < now.len() && now[q] == file as usize;
                            assert(seen[q] == file as usize);
                        }
                        if seen.contains(file as usize) {
                            let q = choose|q: int| 0 <= q < seen.len() && seen[q] == file as usize;
                            assert(now[q] == file as usize);
                        }
                    }
                }
            }
        }
        i = i + 1;
    }
    assert(entries@.take(i as int) =~= entries@);
    files
}

/// The names under which an export offers what it takes from another file.
pub open spec fn offered_names(
    facts: Seq<FileFactsModel>,
    imports: Seq<Seq<ImportReportModel>>,
    file: usize,
    binding: ExportBindingModel,
) -> Seq<Seq<char>> {
    if binding.kind == ExportBindingKind::Star {
        match binding.source {
            Some(source) => match target_file(facts, imports, file, source) {
                Some(target) => names_exported(facts, imports, target),
                None => Seq::empty(),
            },
            None => Seq::empty(),
        }
    } else {
        seq![binding.exported]
    }
}

/// What exported names stand for, as roots.
pub open spec fn roots_of(targets: Seq<(SymbolKey, UsageKind)>) -> Seq<SymbolRoot> {
    targets.map_values(
        |target: (SymbolKey, UsageKind)| SymbolRoot { symbol: target.0, usage: target.1 },
    )
}

/// The symbols that some exported names of a file stand for.
pub open spec fn roots_by_name(
    items: Seq<Seq<char>>,
    facts: Seq<FileFactsModel>,
    imports: Seq<Seq<ImportReportModel>>,
    file: usize,
) -> Seq<SymbolRoot>
    decreases items.len(),
{
    if items.len() == 0 {
        Seq::empty()
    } else {
        let rest = roots_by_name(items.drop_last(), facts, imports, file);
        let last = items.last();
        rest + roots_of(export_targets(facts, imports, file, last))
    }
}

/// The symbols that the exports of a file take from other files.
pub open spec fn roots_by_binding(
    items: Seq<ExportBindingModel>,
    facts: Seq<FileFactsModel>,
    imports: Seq<Seq<ImportReportModel>>,
    file: usize,
) -> Seq<SymbolRoot>
    decreases items.len(),
{
    if items.len() == 0 {
        Seq::empty()
    } else {
        let rest = roots_by_binding(items.drop_last(), facts, imports, file);
        let last = items.last();
        if last.local is Some {
            rest
        } else {
            rest + roots_by_name(offered_names(facts, imports, file, last), facts, imports, file)
        }
    }
}

/// The symbols that the open files among the first take from other files.
pub open spec fn roots_by_file(
    items: Seq<bool>,
    facts: Seq<FileFactsModel>,
    imports: Seq<Seq<ImportReportModel>>,
) -> Seq<SymbolRoot>
    decreases items.len(),
{
    if items.len() == 0 {
        Seq::empty()
    } else {
        let rest = roots_by_file(items.drop_last(), facts, imports);
        let last = items.last();
        if last {
            rest + roots_by_binding(
                facts[items.len() - 1].symbol_facts.exports,
                facts,
                imports,
                (items.len() - 1) as usize,
            )
        } else {
            rest
        }
    }
}

/// The symbols of other files that files open to the world pass on, in order.
pub open spec fn reexport_roots(
    facts: Seq<FileFactsModel>,
    imports: Seq<Seq<ImportReportModel>>,
    open_world_files: Seq<bool>,
) -> Seq<SymbolRoot> {
    collected::<SymbolRoot>(roots_by_file(open_world_files, facts, imports))
}

fn add_roots(targets: &Vec<(SymbolKey, UsageKind)>, roots: &mut Vec<SymbolRoot>)
    ensures
        final(roots).deep_view() == old(roots).deep_view() + roots_of(targets.deep_view()),
{
    let ghost first = roots.deep_view();
    let ghost model = targets.deep_view();
    let mut i: usize = 0;
    while i < targets.len()
        invariant
            i <= targets.len(),
            model == targets.deep_view(),
            roots.deep_view() =~= first + roots_of(model.take(i as int)),
        decreases targets.len() - i,
    {
        proof {
            assert(model.take(i + 1).drop_last() =~= model.take(i as int));
            assert(model.take(i + 1).last() == targets@[i as int].deep_view());
        }
        push_item(roots, SymbolRoot { symbol: targets[i].0, usage: targets[i].1 });
        assert(model.take(i + 1) =~= model.take(i as int).push(targets@[i as int].deep_view()));
        i = i + 1;
    }
    assert(model.take(i as int) =~= model);
}

fn root_names(
    names: &Vec<String>,
    facts: &Vec<FileFacts>,
    imports: &Vec<Vec<ImportReport>>,
    file: usize,
    roots: &mut Vec<SymbolRoot>,
)
    requires
        file < facts@.len(),
    ensures
        final(roots).deep_view() == old(roots).deep_view() + roots_by_name(
            names.deep_view(),
            facts.deep_view(),
            imports.deep_view(),
            file,
        ),
{
    let ghost fs = facts.deep_view();
    let ghost is = imports.deep_view();
    let ghost first = roots.deep_view();
    let ghost model = names.deep_view();
    let mut i: usize = 0;
    while i < names.len()
        invariant
            i <= names.len(),
            model == names.deep_view(),
            roots.deep_view() =~= first + roots_by_name(model.take(i as int), fs, is, file),
            fs == facts.deep_view(),
            is == imports.deep_view(),
            file < facts@.len(),
        decreases names.len() - i,
    {
        proof {
            assert(model.take(i + 1).drop_last() =~= model.take(i as int));
            assert(model.take(i + 1).last() == names@[i as int].deep_view());
        }
        let targets: Vec<(SymbolKey, UsageKind)> = resolve_export_targets(
            facts,
            imports,
            file,
            &names[i],
        );
        add_roots(&targets, roots);
        i = i + 1;
    }
    assert(model.take(i as int) =~= model);
}

fn root_bindings(
    facts: &Vec<FileFacts>,
    imports: &Vec<Vec<ImportReport>>,
    file: usize,
    roots: &mut Vec<SymbolRoot>,
)
    requires
        file < facts@.len(),
    ensures
        final(roots).deep_view() == old(roots).deep_view() + roots_by_binding(
            facts.deep_view()[file as int].symbol_facts.exports,
            facts.deep_view(),
            imports.deep_view(),
            file,
        ),
{
    let ghost fs = facts.deep_view();
    let ghost is = imports.deep_view();
    let ghost first = roots.deep_view();
    let exports: &Vec<ExportBinding> = &facts[file].symbol_facts.exports;
    assert(exports.deep_view() == fs[file as int].symbol_facts.exports);
    let ghost model = exports.deep_view();
    let mut i: usize = 0;
    while i < exports.len()
        invariant
            i <= exports.len(),
            model == exports.deep_view(),
            roots.deep_view() =~= first + roots_by_binding(model.take(i as int), fs, is, file),
            fs == facts.deep_view(),
            is == imports.deep_view(),
            file < facts@.len(),
        decreases exports.len() - i,
    {
        proof {
            assert(model.take(i + 1).drop_last() =~= model.take(i as int));
            assert(model.take(i + 1).last() == exports@[i as int].deep_view());
        }
        let binding: &ExportBinding = &exports[i];
        if binding.local.is_none() {
            let names: Vec<String> = if binding.kind == ExportBindingKind::Star {
                match &binding.source {
                    Some(source) => {
                        match resolved_target_file(facts, imports, file, source) {
                            Some(target) => exported_names(facts, imports, target),
                            None => no_texts(),
                        }
                    },
                    None => no_texts(),
                }
            } else {
                one_text(&binding.exported)
            };
            root_names(&names, facts, imports, file, roots);
        }
        i = i + 1;
    }
    assert(model.take(i as int) =~= model);
}

/// The symbols of other files that files open to the world pass on.
#[must_use]
pub fn open_world_reexport_roots(
    facts: &Vec<FileFacts>,
    imports: &Vec<Vec<ImportReport>>,
    open_world_files: &Vec<bool>,
) -> (r: Vec<SymbolRoot>)
    requires
        open_world_files@.len() == facts@.len(),
    ensures
        r.deep_view() == reexport_roots(
            facts.deep_view(),
            imports.deep_view(),
            open_world_files.deep_view(),
        ),
{
    let ghost fs = facts.deep_view();
    let ghost is = imports.deep_view();
    let mut roots: Vec<SymbolRoot> = Vec::new();
    let ghost model = open_world_files.deep_view();
    let mut i: usize = 0;
    while i < open_world_files.len()
        invariant
            i <= open_world_files.len(),
            model == open_world_files.deep_view(),
            roots.deep_view() =~= roots_by_file(model.take(i as int), fs, is),
            fs == facts.deep_view(),
            is == imports.deep_view(),
            open_world_files@.len() == facts@.len(),
        decreases open_world_files.len() - i,
    {
        proof {
            assert(model.take(i + 1).drop_last() =~= model.take(i as int));
            assert(model.take(i + 1).last() == open_world_files@[i as int].deep_view());
        }
        if open_world_files[i] {
            root_bindings(facts, imports, i, &mut roots);
        }
        i = i + 1;
    }
    assert(model.take(i as int) =~= model);
    let unique: OrderedSet<SymbolRoot> = OrderedSet::from_items(roots);
    unique.into_items()
}

} // verus!
