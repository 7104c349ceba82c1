//! The conditions under which the modules of a project are resolved.

use crate::application::errors::{ProjectScanError, ProjectScanErrorModel};
use crate::collections::{
    collected, lookup, unvisited, visiting_leaves_fewer, OrderedMap, OrderedSet,
};
use crate::discovery::workspace::{
    EntryTargetProfile, PackageContext, PackageContextModel, TargetConfiguration,
    TargetConfigurationModel,
};
use crate::plugins::contract::{DetectedBuiltinPlugin, DetectedBuiltinPluginModel};
use crate::text::{ascii_lowered, one_text, same, to_ascii_lowercase, trim, trimmed, two_texts};
use crate::values::{append_items, push_item};
use vstd::prelude::*;

verus! {

/// The target profiles that need no definition.
pub open spec fn built_in_profile(s: Seq<char>) -> bool {
    ||| s == "node"@
    ||| s == "production"@
    ||| s == "worker"@
    ||| s == "browser"@
    ||| s == "bundler"@
    ||| s == "types"@
    ||| s == "cli"@
    ||| s == "test"@
    ||| s == "development"@
}

/// The target profiles that need no definition.
fn is_built_in_profile(s: &str) -> (r: bool)
    ensures
        r == built_in_profile(s@),
{
    same(s, "node")
        || same(s, "production")
        || same(s, "worker")
        || same(s, "browser")
        || same(s, "bundler")
        || same(s, "types")
        || same(s, "cli")
        || same(s, "test")
        || same(s, "development")
}

/// The conditions that a built-in profile stands for.
pub open spec fn built_in_conditions(profile: Seq<char>) -> Seq<Seq<char>> {
    if !built_in_profile(profile) {
        Seq::empty()
    } else if profile == "production"@ || profile == "worker"@ || profile == "cli"@ || profile
        == "test"@ || profile == "development"@ {
        seq![profile, "node"@]
    } else if profile == "bundler"@ {
        seq![profile, "browser"@]
    } else {
        seq![profile]
    }
}

fn list_built_in_conditions(profile: &str) -> (r: Vec<String>)
    ensures
        r.deep_view() == built_in_conditions(profile@),
{
    if !is_built_in_profile(profile) {
        crate::text::no_texts()
    } else if same(profile, "production") || same(profile, "worker") || same(profile, "cli") || same(
        profile,
        "test",
    ) || same(profile, "development") {
        two_texts(profile, "node")
    } else if same(profile, "bundler") {
        two_texts(profile, "browser")
    } else {
        one_text(profile)
    }
}

/// The conditions of a profile: those it stands for itself, those of the profile that it
/// extends, and its own. The profiles in `visiting` wait for it.
pub open spec fn profile_conditions(
    profile: Seq<char>,
    targets: Seq<(Seq<char>, TargetConfigurationModel)>,
    visiting: Set<Seq<char>>,
) -> Result<Seq<Seq<char>>, ProjectScanErrorModel>
    decreases unvisited(targets, visiting),
{
    if visiting.contains(profile) {
        Err(ProjectScanErrorModel::TargetProfileCycle(profile))
    } else {
        match lookup(targets, profile) {
            None => if built_in_profile(profile) {
                Ok(built_in_conditions(profile))
            } else {
                Err(ProjectScanErrorModel::UnknownTargetProfile(profile))
            },
            Some(target) => match target.extends {
                None => Ok(built_in_conditions(profile) + target.conditions),
                Some(parent) => {
                    proof {
                        visiting_leaves_fewer(targets, visiting, profile);
                    }
                    match profile_conditions(parent, targets, visiting.insert(profile)) {
                        Ok(above) => Ok(
                            built_in_conditions(profile) + above + target.conditions,
                        ),
                        Err(error) => Err(error),
                    }
                },
            },
        }
    }
}

fn holds_name(names: &Vec<String>, name: &str) -> (r: bool)
    ensures
        r == names.deep_view().to_set().contains(name@),
{
    let ghost model = names.deep_view();
    let mut i: usize = 0;
    while i < names.len()
        invariant
            i <= names.len(),
            model == names.deep_view(),
            forall|k: int| 0 <= k < i ==> #[trigger] model[k] != name@,
        decreases names.len() - i,
    {
        assert(model[i as int] == names@[i as int]@);
        if same(&names[i], name) {
            return true;
        }
        i = i + 1;
    }
    false
}

proof fn pushed_name_is_visited(before: Seq<Seq<char>>, name: Seq<char>)
    ensures
        before.push(name).to_set() == before.to_set().insert(name),
{
    let after = before.push(name);
    assert forall|n: Seq<char>| after.to_set().contains(n) <==> before.to_set().insert(
        name,
    ).contains(n) by {
        if before.contains(n) {
            let i = choose|i: int| 0 <= i < before.len() && before[i] == n;
            assert(after[i] == n);
        }
        if after.contains(n) && n != name {
            let i = choose|i: int| 0 <= i < after.len() && after[i] == n;
            assert(before[i] == n);
        }
        assert(after[before.len() as int] == name);
    }
    assert(after.to_set() =~= before.to_set().insert(name));
}

fn resolve_target_condition(
    profile: &str,
    targets: &OrderedMap<String, TargetConfiguration>,
    visiting: &mut Vec<String>,
) -> (r: Result<Vec<String>, ProjectScanError>)
    ensures
        match r {
            Ok(conditions) => profile_conditions(
                profile@,
                targets.deep_view(),
                old(visiting).deep_view().to_set(),
            ) == Ok::<Seq<Seq<char>>, ProjectScanErrorModel>(conditions.deep_view()),
            Err(error) => profile_conditions(
                profile@,
                targets.deep_view(),
                old(visiting).deep_view().to_set(),
            ) == Err::<Seq<Seq<char>>, ProjectScanErrorModel>(error.deep_view()),
        },
    decreases unvisited(targets.deep_view(), old(visiting).deep_view().to_set()),
{
    let ghost model = targets.deep_view();
    let ghost waiting = visiting.deep_view();
    if holds_name(visiting, profile) {
        return Err(ProjectScanError::TargetProfileCycle(profile.to_string()));
    }
    let key: String = profile.to_string();
    match targets.get(&key) {
        None => {
            if is_built_in_profile(profile) {
                Ok(list_built_in_conditions(profile))
            } else {
                Err(ProjectScanError::UnknownTargetProfile(key))
            }
        },
        Some(target) => {
            let mut conditions: Vec<String> = list_built_in_conditions(profile);
            match &target.extends {
                None => {},
                Some(parent) => {
                    push_item(visiting, profile.to_string());
                    proof {
                        pushed_name_is_visited(waiting, profile@);
                        visiting_leaves_fewer(model, waiting.to_set(), profile@);
                    }
                    match resolve_target_condition(parent, targets, visiting) {
                        Ok(above) => {
                            append_items(&mut conditions, &above);
                        },
                        Err(error) => {
                            return Err(error);
                        },
                    }
                },
            }
            append_items(&mut conditions, &target.conditions);
            Ok(conditions)
        },
    }
}

/// The conditions of some profiles, one after the other, or the first fault.
pub open spec fn listed_conditions(
    items: Seq<Seq<char>>,
    targets: Seq<(Seq<char>, TargetConfigurationModel)>,
) -> Result<Seq<Seq<char>>, ProjectScanErrorModel>
    decreases items.len(),
{
    if items.len() == 0 {
        Ok(Seq::empty())
    } else {
        let rest = listed_conditions(items.drop_last(), targets);
        let last = items.last();
        match rest {
            Ok(conditions) => match profile_conditions(last, targets, Set::empty()) {
                Ok(more) => Ok(conditions + more),
                Err(error) => Err(error),
            },
            Err(error) => Err(error),
        }
    }
}

/// The conditions of some profiles in order, or the first fault.
pub open spec fn conditions_for(
    profiles: Seq<Seq<char>>,
    targets: Seq<(Seq<char>, TargetConfigurationModel)>,
) -> Result<Seq<Seq<char>>, ProjectScanErrorModel> {
    match listed_conditions(profiles, targets) {
        Ok(conditions) => Ok(collected::<String>(conditions)),
        Err(error) => Err(error),
    }
}

proof fn listed_conditions_fail_early(
    profiles: Seq<Seq<char>>,
    targets: Seq<(Seq<char>, TargetConfigurationModel)>,
    n: int,
)
    requires
        0 <= n <= profiles.len(),
        listed_conditions(profiles.take(n), targets) is Err,
    ensures
        listed_conditions(profiles, targets) == listed_conditions(profiles.take(n), targets),
    decreases profiles.len() - n,
{
    if n < profiles.len() {
        assert(profiles.take(n + 1).drop_last() =~= profiles.take(n));
        listed_conditions_fail_early(profiles, targets, n + 1);
    } else {
        assert(profiles.take(n) =~= profiles);
    }
}

fn list_conditions(
    profiles: &Vec<String>,
    targets: &OrderedMap<String, TargetConfiguration>,
) -> (r: Result<Vec<String>, ProjectScanError>)
    ensures
        match r {
            Ok(conditions) => listed_conditions(profiles.deep_view(), targets.deep_view()) == Ok::<
                Seq<Seq<char>>,
                ProjectScanErrorModel,
            >(conditions.deep_view()),
            Err(error) => listed_conditions(profiles.deep_view(), targets.deep_view()) == Err::<
                Seq<Seq<char>>,
                ProjectScanErrorModel,
            >(error.deep_view()),
        },
{
    let ghost known = targets.deep_view();
    let mut all: Vec<String> = Vec::new();
    assert(all.deep_view() =~= Seq::<Seq<char>>::empty());
    let ghost model = profiles.deep_view();
    let mut i: usize = 0;
    while i < profiles.len()
        invariant
            i <= profiles.len(),
            model == profiles.deep_view(),
            known == targets.deep_view(),
            listed_conditions(model.take(i as int), known) == Ok::<Seq<Seq<char>>, ProjectScanErrorModel>(all.deep_view()),
        decreases profiles.len() - i,
    {
        proof {
            assert(model.take(i + 1).drop_last() =~= model.take(i as int));
            assert(model.take(i + 1).last() == profiles@[i as int].deep_view());
        }
        let mut visiting: Vec<String> = Vec::new();
        assert(visiting.deep_view().to_set() =~= Set::<Seq<char>>::empty());
        match resolve_target_condition(&profiles[i], targets, &mut visiting) {
            Ok(more) => {
                append_items(&mut all, &more);
            },
            Err(error) => {
                proof {
                    listed_conditions_fail_early(model, known, i + 1);
                }
                return Err(error);
            },
        }
        i = i + 1;
    }
    assert(model.take(i as int) =~= model);
    Ok(all)
}

/// The conditions of some profiles in order.
pub fn resolve_conditions_for_targets(
    profiles: &Vec<String>,
    targets: &OrderedMap<String, TargetConfiguration>,
) -> (r: Result<OrderedSet<String>, ProjectScanError>)
    ensures
        match r {
            Ok(conditions) => conditions_for(profiles.deep_view(), targets.deep_view()) == Ok::<
                Seq<Seq<char>>,
                ProjectScanErrorModel,
            >(conditions.deep_view()),
            Err(error) => conditions_for(profiles.deep_view(), targets.deep_view()) == Err::<
                Seq<Seq<char>>,
                ProjectScanErrorModel,
            >(error.deep_view()),
        },
{
    match list_conditions(profiles, targets) {
        Ok(conditions) => Ok(OrderedSet::from_items(conditions)),
        Err(error) => Err(error),
    }
}

/// Profiles with one more, unless it is among them.
pub open spec fn with_entry_profile(
    profiles: Seq<EntryTargetProfile>,
    profile: EntryTargetProfile,
) -> Seq<EntryTargetProfile> {
    if profiles.contains(profile) {
        profiles
    } else {
        profiles.push(profile)
    }
}

/// Adds a profile, unless it is among them.
fn push_profile(profiles: &mut Vec<EntryTargetProfile>, profile: EntryTargetProfile)
    ensures
        final(profiles)@ == with_entry_profile(old(profiles)@, profile),
{
    let mut i: usize = 0;
    while i < profiles.len()
        invariant
            i <= profiles.len(),
            profiles@ == old(profiles)@,
            forall|k: int| 0 <= k < i ==> #[trigger] profiles@[k] != profile,
        decreases profiles.len() - i,
    {
        if profiles[i] == profile {
            return;
        }
        i = i + 1;
    }
    profiles.push(profile);
}

/// For whom entries are wanted under some conditions.
pub open spec fn entry_profiles(items: Seq<Seq<char>>) -> Seq<EntryTargetProfile>
    decreases items.len(),
{
    if items.len() == 0 {
        Seq::empty()
    } else {
        let rest = entry_profiles(items.drop_last());
        let last = items.last();
        if last == "node"@ || last == "production"@ || last == "worker"@ {
            with_entry_profile(
                with_entry_profile(rest, EntryTargetProfile::NodeImport),
                EntryTargetProfile::NodeRequire,
            )
        } else if last == "browser"@ || last == "bundler"@ {
            with_entry_profile(
                with_entry_profile(rest, EntryTargetProfile::Browser),
                EntryTargetProfile::Bundler,
            )
        } else if last == "types"@ {
            with_entry_profile(rest, EntryTargetProfile::Types)
        } else if last == "cli"@ {
            with_entry_profile(rest, EntryTargetProfile::CommandLine)
        } else {
            rest
        }
    }
}

/// For whom the entries of a manifest are wanted in some profiles.
pub open spec fn manifest_profiles_for(
    profiles: Seq<Seq<char>>,
    targets: Seq<(Seq<char>, TargetConfigurationModel)>,
) -> Result<Seq<EntryTargetProfile>, ProjectScanErrorModel> {
    match conditions_for(profiles, targets) {
        Ok(conditions) => {
            let wanted = entry_profiles(conditions);
            if wanted.len() == 0 {
                Ok(seq![EntryTargetProfile::NodeImport])
            } else {
                Ok(wanted)
            }
        },
        Err(error) => Err(error),
    }
}

/// For whom the entries of a manifest are wanted in some profiles.
pub fn manifest_profiles(
    profiles: &Vec<String>,
    targets: &OrderedMap<String, TargetConfiguration>,
) -> (r: Result<Vec<EntryTargetProfile>, ProjectScanError>)
    ensures
        match r {
            Ok(wanted) => manifest_profiles_for(profiles.deep_view(), targets.deep_view()) == Ok::<
                Seq<EntryTargetProfile>,
                ProjectScanErrorModel,
            >(wanted@),
            Err(error) => manifest_profiles_for(profiles.deep_view(), targets.deep_view()) == Err::<
                Seq<EntryTargetProfile>,
                ProjectScanErrorModel,
            >(error.deep_view()),
        },
{
    let conditions: OrderedSet<String> = match resolve_conditions_for_targets(profiles, targets) {
        Ok(conditions) => conditions,
        Err(error) => {
            return Err(error);
        },
    };
    let items: &Vec<String> = conditions.items();
    let mut wanted: Vec<EntryTargetProfile> = Vec::new();
    let ghost model = items.deep_view();
    let mut i: usize = 0;
    while i < items.len()
        invariant
            i <= items.len(),
            model == items.deep_view(),
            wanted@ =~= entry_profiles(model.take(i as int)),
        decreases items.len() - i,
    {
        proof {
            assert(model.take(i + 1).drop_last() =~= model.take(i as int));
            assert(model.take(i + 1).last() == items@[i as int].deep_view());
        }
        let condition: &String = &items[i];
        if same(condition, "node") || same(condition, "production") || same(condition, "worker") {
            push_profile(&mut wanted, EntryTargetProfile::NodeImport);
            push_profile(&mut wanted, EntryTargetProfile::NodeRequire);
        } else if same(condition, "browser") || same(condition, "bundler") {
            push_profile(&mut wanted, EntryTargetProfile::Browser);
            push_profile(&mut wanted, EntryTargetProfile::Bundler);
        } else if same(condition, "types") {
            push_profile(&mut wanted, EntryTargetProfile::Types);
        } else if same(condition, "cli") {
            push_profile(&mut wanted, EntryTargetProfile::CommandLine);
        }
        i = i + 1;
    }
    assert(model.take(i as int) =~= model);
    if wanted.len() == 0 {
        wanted.push(EntryTargetProfile::NodeImport);
        assert(wanted@ =~= seq![EntryTargetProfile::NodeImport]);
    }
    Ok(wanted)
}

/// The conditions that plugins contribute.
pub open spec fn plugin_conditions(items: Seq<DetectedBuiltinPluginModel>) -> Seq<Seq<char>>
    decreases items.len(),
{
    if items.len() == 0 {
        Seq::empty()
    } else {
        let rest = plugin_conditions(items.drop_last());
        let last = items.last();
        rest + last.plugin.contributions.target_conditions
    }
}

/// The plugins of a package in a profile.
pub open spec fn plugins_in(
    context: PackageContextModel,
    profile: Seq<char>,
) -> Seq<DetectedBuiltinPluginModel> {
    match lookup(context.plugins_by_profile, profile) {
        Some(plugins) => plugins,
        None => Seq::empty(),
    }
}

/// The conditions of a profile in some packages, or the first fault.
pub open spec fn profile_in_contexts(
    items: Seq<PackageContextModel>,
    profile: Seq<char>,
) -> Result<Seq<Seq<char>>, ProjectScanErrorModel>
    decreases items.len(),
{
    if items.len() == 0 {
        Ok(Seq::empty())
    } else {
        let rest = profile_in_contexts(items.drop_last(), profile);
        let last = items.last();
        match rest {
            Ok(conditions) => match conditions_for(seq![profile], last.effective.targets) {
                Ok(more) => Ok(conditions + more + plugin_conditions(plugins_in(last, profile))),
                Err(error) => Err(error),
            },
            Err(error) => Err(error),
        }
    }
}

/// The conditions of some profiles in some packages, or the first fault.
pub open spec fn profiles_in_contexts(
    items: Seq<Seq<char>>,
    contexts: Seq<PackageContextModel>,
) -> Result<Seq<Seq<char>>, ProjectScanErrorModel>
    decreases items.len(),
{
    if items.len() == 0 {
        Ok(Seq::empty())
    } else {
        let rest = profiles_in_contexts(items.drop_last(), contexts);
        let last = items.last();
        match rest {
            Ok(conditions) => match profile_in_contexts(contexts, last) {
                Ok(more) => Ok(conditions + more),
                Err(error) => Err(error),
            },
            Err(error) => Err(error),
        }
    }
}

/// The conditions under which modules are resolved in some profiles, in order.
pub open spec fn resolver_conditions(
    profiles: Seq<Seq<char>>,
    contexts: Seq<PackageContextModel>,
) -> Result<Seq<Seq<char>>, ProjectScanErrorModel> {
    match profiles_in_contexts(profiles, contexts) {
        Ok(conditions) => Ok(collected::<String>(conditions.push("default"@))),
        Err(error) => Err(error),
    }
}

proof fn profile_in_contexts_fails_early(
    contexts: Seq<PackageContextModel>,
    profile: Seq<char>,
    n: int,
)
    requires
        0 <= n <= contexts.len(),
        profile_in_contexts(contexts.take(n), profile) is Err,
    ensures
        profile_in_contexts(contexts, profile) == profile_in_contexts(contexts.take(n), profile),
    decreases contexts.len() - n,
{
    if n < contexts.len() {
        assert(contexts.take(n + 1).drop_last() =~= contexts.take(n));
        profile_in_contexts_fails_early(contexts, profile, n + 1);
    } else {
        assert(contexts.take(n) =~= contexts);
    }
}

proof fn profiles_in_contexts_fail_early(
    profiles: Seq<Seq<char>>,
    contexts: Seq<PackageContextModel>,
    n: int,
)
    requires
        0 <= n <= profiles.len(),
        profiles_in_contexts(profiles.take(n), contexts) is Err,
    ensures
        profiles_in_contexts(profiles, contexts) == profiles_in_contexts(
            profiles.take(n),
            contexts,
        ),
    decreases profiles.len() - n,
{
    if n < profiles.len() {
        assert(profiles.take(n + 1).drop_last() =~= profiles.take(n));
        profiles_in_contexts_fail_early(profiles, contexts, n + 1);
    } else {
        assert(profiles.take(n) =~= profiles);
    }
}

fn add_plugin_conditions(plugins: &Vec<DetectedBuiltinPlugin>, out: &mut Vec<String>)
    ensures
        final(out).deep_view() == old(out).deep_view() + plugin_conditions(plugins.deep_view()),
{
    let ghost first = out.deep_view();
    let ghost model = plugins.deep_view();
    let mut i: usize = 0;
    while i < plugins.len()
        invariant
            i <= plugins.len(),
            model == plugins.deep_view(),
            out.deep_view() =~= first + plugin_conditions(model.take(i as int)),
        decreases plugins.len() - i,
    {
        proof {
            assert(model.take(i + 1).drop_last() =~= model.take(i as int));
            assert(model.take(i + 1).last() == plugins@[i as int].deep_view());
        }
        append_items(out, &plugins[i].plugin.contributions.target_conditions);
        i = i + 1;
    }
    assert(model.take(i as int) =~= model);
}

fn conditions_in_contexts(profile: &str, contexts: &Vec<PackageContext>) -> (r: Result<
    Vec<String>,
    ProjectScanError,
>)
    ensures
        match r {
            Ok(conditions) => profile_in_contexts(contexts.deep_view(), profile@) == Ok::<
                Seq<Seq<char>>,
                ProjectScanErrorModel,
            >(conditions.deep_view()),
            Err(error) => profile_in_contexts(contexts.deep_view(), profile@) == Err::<
                Seq<Seq<char>>,
                ProjectScanErrorModel,
            >(error.deep_view()),
        },
{
    let one: Vec<String> = one_text(profile);
    let key: String = profile.to_string();
    let mut all: Vec<String> = Vec::new();
    assert(all.deep_view() =~= Seq::<Seq<char>>::empty());
    let ghost model = contexts.deep_view();
    let mut i: usize = 0;
    while i < contexts.len()
        invariant
            i <= contexts.len(),
            model == contexts.deep_view(),
            one.deep_view() == seq![profile@],
            key@ == profile@,
            profile_in_contexts(model.take(i as int), profile@) == Ok::<Seq<Seq<char>>, ProjectScanErrorModel>(all.deep_view()),
        decreases contexts.len() - i,
    {
        proof {
            assert(model.take(i + 1).drop_last() =~= model.take(i as int));
            assert(model.take(i + 1).last() == contexts@[i as int].deep_view());
        }
        let context: &PackageContext = &contexts[i];
        match resolve_conditions_for_targets(&one, &context.effective.targets) {
            Ok(more) => {
                append_items(&mut all, more.items());
                match context.plugins_by_profile.get(&key) {
                    Some(plugins) => {
                        add_plugin_conditions(plugins, &mut all);
                    },
                    None => {
                        assert(all.deep_view() + Seq::<Seq<char>>::empty() =~= all.deep_view());
                    },
                }
            },
            Err(error) => {
                proof {
                    profile_in_contexts_fails_early(model, profile@, i + 1);
                }
                return Err(error);
            },
        }
        i = i + 1;
    }
    assert(model.take(i as int) =~= model);
    Ok(all)
}

/// The conditions under which modules are resolved in some profiles, in order.
pub fn resolve_target_conditions(
    profiles: &Vec<String>,
    contexts: &Vec<PackageContext>,
) -> (r: Result<Vec<String>, ProjectScanError>)
    ensures
        match r {
            Ok(conditions) => resolver_conditions(profiles.deep_view(), contexts.deep_view())
                == Ok::<Seq<Seq<char>>, ProjectScanErrorModel>(conditions.deep_view()),
            Err(error) => resolver_conditions(profiles.deep_view(), contexts.deep_view()) == Err::<
                Seq<Seq<char>>,
                ProjectScanErrorModel,
            >(error.deep_view()),
        },
{
    let ghost known = contexts.deep_view();
    let mut all: Vec<String> = Vec::new();
    assert(all.deep_view() =~= Seq::<Seq<char>>::empty());
    let ghost model = profiles.deep_view();
    let mut i: usize = 0;
    while i < profiles.len()
        invariant
            i <= profiles.len(),
            model == profiles.deep_view(),
            known == contexts.deep_view(),
            profiles_in_contexts(model.take(i as int), known) == Ok::<Seq<Seq<char>>, ProjectScanErrorModel>(all.deep_view()),
        decreases profiles.len() - i,
    {
        proof {
            assert(model.take(i + 1).drop_last() =~= model.take(i as int));
            assert(model.take(i + 1).last() == profiles@[i as int].deep_view());
        }
        match conditions_in_contexts(&profiles[i], contexts) {
            Ok(more) => {
                append_items(&mut all, &more);
            },
            Err(error) => {
                proof {
                    profiles_in_contexts_fail_early(model, known, i + 1);
                }
                return Err(error);
            },
        }
        i = i + 1;
    }
    assert(model.take(i as int) =~= model);
    push_item(&mut all, "default".to_string());
    let unique: OrderedSet<String> = OrderedSet::from_items(all);
    Ok(unique.into_items())
}

/// The target profiles that are analyzed where none are named.
pub open spec fn default_profiles() -> Seq<Seq<char>> {
    seq!["node"@, "browser"@, "types"@, "cli"@, "test"@]
}

/// The target profiles that are analyzed where none are named.
#[must_use]
pub fn default_target_profiles() -> (r: Vec<String>)
    ensures
        r.deep_view() == default_profiles(),
{
    let mut out: Vec<String> = two_texts("node", "browser");
    push_item(&mut out, "types".to_string());
    push_item(&mut out, "cli".to_string());
    push_item(&mut out, "test".to_string());
    assert(out.deep_view() =~= default_profiles());
    out
}

/// Profiles without spaces around them and in small letters, as far as something is left.
pub open spec fn tidy_profiles(items: Seq<Seq<char>>) -> Seq<Seq<char>>
    decreases items.len(),
{
    if items.len() == 0 {
        Seq::empty()
    } else {
        let rest = tidy_profiles(items.drop_last());
        let last = items.last();
        if ascii_lowered(trimmed(last)).len() == 0 {
            rest
        } else {
            rest.push(ascii_lowered(trimmed(last)))
        }
    }
}

/// The profiles to analyze, in order and each once.
pub open spec fn profiles_to_analyze(profiles: Seq<Seq<char>>) -> Seq<Seq<char>> {
    if profiles.len() == 0 {
        default_profiles()
    } else {
        collected::<String>(tidy_profiles(profiles))
    }
}

/// The profiles to analyze, in order and each once.
#[must_use]
pub fn normalized_profiles(profiles: &Vec<String>) -> (r: Vec<String>)
    ensures
        r.deep_view() == profiles_to_analyze(profiles.deep_view()),
{
    if profiles.len() == 0 {
        return default_target_profiles();
    }
    let mut out: Vec<String> = Vec::new();
    let ghost model = profiles.deep_view();
    let mut i: usize = 0;
    while i < profiles.len()
        invariant
            i <= profiles.len(),
            model == profiles.deep_view(),
            out.deep_view() =~= tidy_profiles(model.take(i as int)),
        decreases profiles.len() - i,
    {
        proof {
            assert(model.take(i + 1).drop_last() =~= model.take(i as int));
            assert(model.take(i + 1).last() == profiles@[i as int].deep_view());
        }
        let trimmed_profile: String = trim(&profiles[i]);
        let lowered: String = to_ascii_lowercase(&trimmed_profile);
        let chars: Vec<char> = crate::text::chars_of(&lowered);
        if chars.len() > 0 {
            push_item(&mut out, lowered);
        }
        i = i + 1;
    }
    assert(model.take(i as int) =~= model);
    let unique: OrderedSet<String> = OrderedSet::from_items(out);
    unique.into_items()
}

} // verus!
