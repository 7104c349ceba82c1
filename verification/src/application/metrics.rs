//! What stages of an analysis took.

use crate::collections::OrderedMap;
use crate::discovery::workspace::ConfigurationOverride;
use crate::domain::report::ScanReport;
use crate::values::Value;
use vstd::prelude::*;

verus! {

/// What a stage of an analysis took, in nanoseconds, and how many things it went through.
#[derive(Debug, Clone, Copy, PartialEq, Eq, Structural)]
pub struct ProjectStageMetrics {
    pub duration: u128,
    pub count: usize,
}

impl DeepView for ProjectStageMetrics {
    type V = ProjectStageMetrics;

    open spec fn deep_view(&self) -> ProjectStageMetrics {
        *self
    }
}

impl Value for ProjectStageMetrics {
    fn replicate(&self) -> (r: Self) {
        *self
    }

    fn same_value(&self, other: &Self) -> (r: bool) {
        *self == *other
    }
}

/// What the caches of an analysis did.
#[derive(Debug, Clone, Copy, PartialEq, Eq, Structural)]
pub struct ProjectCacheMetrics {
    pub hits: usize,
    pub misses: usize,
    pub generation_writes: usize,
}

impl DeepView for ProjectCacheMetrics {
    type V = ProjectCacheMetrics;

    open spec fn deep_view(&self) -> ProjectCacheMetrics {
        *self
    }
}

impl Value for ProjectCacheMetrics {
    fn replicate(&self) -> (r: Self) {
        *self
    }

    fn same_value(&self, other: &Self) -> (r: bool) {
        *self == *other
    }
}

/// What the stages of the analysis of a project took.
#[derive(Debug, Clone, Copy, PartialEq, Eq, Structural)]
pub struct ProjectScanMetrics {
    pub workspace_discovery: ProjectStageMetrics,
    pub configuration_loading: ProjectStageMetrics,
    pub file_discovery: ProjectStageMetrics,
    pub plugin_discovery: ProjectStageMetrics,
    pub fact_loading: ProjectStageMetrics,
    pub module_resolution_graph: ProjectStageMetrics,
    pub reachability_rules_report: ProjectStageMetrics,
    pub cache_persistence: ProjectStageMetrics,
    pub deep_analysis: ProjectStageMetrics,
    pub profile_analysis: ProjectStageMetrics,
    pub policy: ProjectStageMetrics,
    /// What the caches of facts and of deep evidence did.
    pub cache: ProjectCacheMetrics,
}

impl DeepView for ProjectScanMetrics {
    type V = ProjectScanMetrics;

    open spec fn deep_view(&self) -> ProjectScanMetrics {
        *self
    }
}

impl Value for ProjectScanMetrics {
    fn replicate(&self) -> (r: Self) {
        *self
    }

    fn same_value(&self, other: &Self) -> (r: bool) {
        *self == *other
    }
}

/// What the stages of one scan took.
#[derive(Debug, Clone, Copy, PartialEq, Eq, Structural)]
pub struct ScanStageMetrics {
    pub fact_loading: ProjectStageMetrics,
    pub module_resolution_graph: ProjectStageMetrics,
    pub reachability_rules_report: ProjectStageMetrics,
    pub cache_persist: ProjectStageMetrics,
}

impl DeepView for ScanStageMetrics {
    type V = ScanStageMetrics;

    open spec fn deep_view(&self) -> ScanStageMetrics {
        *self
    }
}

impl Value for ScanStageMetrics {
    fn replicate(&self) -> (r: Self) {
        *self
    }

    fn same_value(&self, other: &Self) -> (r: bool) {
        *self == *other
    }
}

/// What the analysis of a project gives: the report, what its stages took, and the
/// configuration that was in force for each package.
#[derive(Debug)]
pub struct ProjectScanOutput {
    pub report: ScanReport,
    pub metrics: ProjectScanMetrics,
    pub effective_configuration: OrderedMap<String, ConfigurationOverride>,
}

/// A stage that took nothing.
pub open spec fn no_stage() -> ProjectStageMetrics {
    ProjectStageMetrics { duration: 0, count: 0 }
}

impl Default for ProjectScanMetrics {
    /// An analysis that took nothing.
    fn default() -> (r: ProjectScanMetrics)
        ensures
            r.workspace_discovery == no_stage(),
            r.configuration_loading == no_stage(),
            r.file_discovery == no_stage(),
            r.plugin_discovery == no_stage(),
            r.fact_loading == no_stage(),
            r.module_resolution_graph == no_stage(),
            r.reachability_rules_report == no_stage(),
            r.cache_persistence == no_stage(),
            r.deep_analysis == no_stage(),
            r.profile_analysis == no_stage(),
            r.policy == no_stage(),
            r.cache == (ProjectCacheMetrics { hits: 0, misses: 0, generation_writes: 0 }),
    {
        let none = ProjectStageMetrics { duration: 0, count: 0 };
        ProjectScanMetrics {
            workspace_discovery: none,
            configuration_loading: none,
            file_discovery: none,
            plugin_discovery: none,
            fact_loading: none,
            module_resolution_graph: none,
            reachability_rules_report: none,
            cache_persistence: none,
            deep_analysis: none,
            profile_analysis: none,
            policy: none,
            cache: ProjectCacheMetrics { hits: 0, misses: 0, generation_writes: 0 },
        }
    }
}

/// Whether two stages can be taken together.
pub open spec fn fit_together(a: ProjectStageMetrics, b: ProjectStageMetrics) -> bool {
    a.duration + b.duration <= u128::MAX && a.count + b.count <= usize::MAX
}

/// Two stages taken together.
pub open spec fn together(a: ProjectStageMetrics, b: ProjectStageMetrics) -> ProjectStageMetrics {
    ProjectStageMetrics {
        duration: (a.duration + b.duration) as u128,
        count: (a.count + b.count) as usize,
    }
}

fn add_stage(a: ProjectStageMetrics, b: ProjectStageMetrics) -> (r: ProjectStageMetrics)
    requires
        fit_together(a, b),
    ensures
        r == together(a, b),
{
    ProjectStageMetrics { duration: a.duration + b.duration, count: a.count + b.count }
}

/// Adds what the stages of one scan took to those of the project.
pub fn aggregate_scan_measurements(
    aggregate: &mut ProjectScanMetrics,
    measurements: ScanStageMetrics,
)
    requires
        fit_together(old(aggregate).fact_loading, measurements.fact_loading),
        fit_together(old(aggregate).module_resolution_graph, measurements.module_resolution_graph),
        fit_together(
            old(aggregate).reachability_rules_report,
            measurements.reachability_rules_report,
        ),
        fit_together(old(aggregate).cache_persistence, measurements.cache_persist),
    ensures
        *final(aggregate) == (ProjectScanMetrics {
            fact_loading: together(old(aggregate).fact_loading, measurements.fact_loading),
            module_resolution_graph: together(
                old(aggregate).module_resolution_graph,
                measurements.module_resolution_graph,
            ),
            reachability_rules_report: together(
                old(aggregate).reachability_rules_report,
                measurements.reachability_rules_report,
            ),
            cache_persistence: together(
                old(aggregate).cache_persistence,
                measurements.cache_persist,
            ),
            ..*old(aggregate)
        }),
{
    aggregate.fact_loading = add_stage(aggregate.fact_loading, measurements.fact_loading);
    aggregate.module_resolution_graph = add_stage(
        aggregate.module_resolution_graph,
        measurements.module_resolution_graph,
    );
    aggregate.reachability_rules_report = add_stage(
        aggregate.reachability_rules_report,
        measurements.reachability_rules_report,
    );
    aggregate.cache_persistence = add_stage(
        aggregate.cache_persistence,
        measurements.cache_persist,
    );
}

} // verus!
