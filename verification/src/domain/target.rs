//! Target profiles and their inheritance.

use crate::collections::{
    lookup, unvisited, visiting_leaves_fewer, with_items, with_items_is_ordered, OrderedMap,
    OrderedSet,
};
use crate::text::{concat3, same};
use crate::values::{push_item, Ordered, Value};
use vstd::prelude::*;

verus! {

/// Whether code outside the project may use what the project exports.
#[derive(Debug, Clone, Copy, PartialEq, Eq, Structural)]
pub enum WorldMode {
    Open,
    Closed,
}

impl DeepView for WorldMode {
    type V = WorldMode;

    open spec fn deep_view(&self) -> WorldMode {
        *self
    }
}

impl Value for WorldMode {
    fn replicate(&self) -> (r: Self) {
        *self
    }

    fn same_value(&self, other: &Self) -> (r: bool) {
        *self == *other
    }
}

impl WorldMode {
    /// The place of the variant in the order of the type.
    pub open spec fn place(self) -> nat {
        match self {
            WorldMode::Open => 0,
            WorldMode::Closed => 1,
        }
    }

    fn place_of(&self) -> (r: u8)
        ensures
            r == self.place(),
    {
        match self {
            WorldMode::Open => 0,
            WorldMode::Closed => 1,
        }
    }
}

impl Ordered for WorldMode {
    open spec fn before(a: WorldMode, b: WorldMode) -> bool {
        a.place() < b.place()
    }

    fn is_before(&self, other: &Self) -> (r: bool) {
        self.place_of() < other.place_of()
    }

    proof fn before_irreflexive(a: WorldMode) {
    }

    proof fn before_transitive(a: WorldMode, b: WorldMode, c: WorldMode) {
    }

    proof fn before_total(a: WorldMode, b: WorldMode) {
    }
}

/// A target profile with everything it inherits.
#[derive(Debug, PartialEq, Eq)]
pub struct TargetProfile {
    pub name: String,
    pub conditions: OrderedSet<String>,
    pub world: WorldMode,
}

/// What a [`TargetProfile`] holds.
pub struct TargetProfileModel {
    pub name: Seq<char>,
    pub conditions: Seq<Seq<char>>,
    pub world: WorldMode,
}

impl DeepView for TargetProfile {
    type V = TargetProfileModel;

    open spec fn deep_view(&self) -> TargetProfileModel {
        TargetProfileModel {
            name: self.name.deep_view(),
            conditions: self.conditions.deep_view(),
            world: self.world.deep_view(),
        }
    }
}

impl Value for TargetProfile {
    fn replicate(&self) -> (r: Self) {
        TargetProfile {
            name: self.name.replicate(),
            conditions: self.conditions.replicate(),
            world: self.world.replicate(),
        }
    }

    fn same_value(&self, other: &Self) -> (r: bool) {
        self.name.same_value(&other.name)
            && self.conditions.same_value(&other.conditions)
            && self.world.same_value(&other.world)
    }
}

/// A target profile as it is written down.
#[derive(Debug, PartialEq, Eq)]
pub struct TargetProfileDefinition {
    pub extends: Option<String>,
    pub conditions: OrderedSet<String>,
    pub world: Option<WorldMode>,
}

/// What a [`TargetProfileDefinition`] holds.
pub struct TargetProfileDefinitionModel {
    pub extends: Option<Seq<char>>,
    pub conditions: Seq<Seq<char>>,
    pub world: Option<WorldMode>,
}

impl DeepView for TargetProfileDefinition {
    type V = TargetProfileDefinitionModel;

    open spec fn deep_view(&self) -> TargetProfileDefinitionModel {
        TargetProfileDefinitionModel {
            extends: self.extends.deep_view(),
            conditions: self.conditions.deep_view(),
            world: self.world.deep_view(),
        }
    }
}

impl Value for TargetProfileDefinition {
    fn replicate(&self) -> (r: Self) {
        TargetProfileDefinition {
            extends: self.extends.replicate(),
            conditions: self.conditions.replicate(),
            world: self.world.replicate(),
        }
    }

    fn same_value(&self, other: &Self) -> (r: bool) {
        self.extends.same_value(&other.extends)
            && self.conditions.same_value(&other.conditions)
            && self.world.same_value(&other.world)
    }
}

/// Why target profiles cannot be resolved.
#[derive(Debug, PartialEq, Eq)]
pub enum TargetProfileError {
    /// A profile extends a profile of this name, which is not defined.
    UnknownParent(String),
    /// The inheritance comes back to the profile of this name.
    Cycle(String),
}

/// What a [`TargetProfileError`] holds.
pub enum TargetProfileErrorModel {
    UnknownParent(Seq<char>),
    Cycle(Seq<char>),
}

impl DeepView for TargetProfileError {
    type V = TargetProfileErrorModel;

    open spec fn deep_view(&self) -> TargetProfileErrorModel {
        match self {
            TargetProfileError::UnknownParent(name) => TargetProfileErrorModel::UnknownParent(name@),
            TargetProfileError::Cycle(name) => TargetProfileErrorModel::Cycle(name@),
        }
    }
}

impl TargetProfileError {
    /// The message for the user.
    pub fn message(&self) -> (r: String)
        ensures
            r@ == match self {
                TargetProfileError::UnknownParent(name) => "target profile `"@ + name@
                    + "` extends an unknown profile"@,
                TargetProfileError::Cycle(name) =>
                    "target profile inheritance contains a cycle through `"@ + name@ + "`"@,
            },
    {
        match self {
            TargetProfileError::UnknownParent(name) => concat3(
                "target profile `",
                name,
                "` extends an unknown profile",
            ),
            TargetProfileError::Cycle(name) => concat3(
                "target profile inheritance contains a cycle through `",
                name,
                "`",
            ),
        }
    }
}

/// Definitions by name.
pub type Definitions = Seq<(Seq<char>, TargetProfileDefinitionModel)>;

/// A profile: what its parent has, its own conditions added, its own world in place of that of the
/// parent.
pub open spec fn inherited(
    name: Seq<char>,
    definition: TargetProfileDefinitionModel,
    conditions: Seq<Seq<char>>,
    world: WorldMode,
) -> TargetProfileModel {
    TargetProfileModel {
        name,
        conditions: with_items::<String>(conditions, definition.conditions),
        world: match definition.world {
            Some(own) => own,
            None => world,
        },
    }
}

/// The profile `name`, while the profiles in `visiting` wait for it.
pub open spec fn resolution(
    definitions: Definitions,
    default_world: WorldMode,
    name: Seq<char>,
    visiting: Set<Seq<char>>,
) -> Result<TargetProfileModel, TargetProfileErrorModel>
    decreases unvisited(definitions, visiting),
{
    if visiting.contains(name) {
        Err(TargetProfileErrorModel::Cycle(name))
    } else {
        match lookup(definitions, name) {
            None => Err(TargetProfileErrorModel::UnknownParent(name)),
            Some(definition) => match definition.extends {
                None => Ok(inherited(name, definition, Seq::empty(), default_world)),
                Some(parent) => if lookup(definitions, parent) is None {
                    Err(TargetProfileErrorModel::UnknownParent(parent))
                } else {
                    proof {
                        visiting_leaves_fewer(definitions, visiting, name);
                    }
                    match resolution(definitions, default_world, parent, visiting.insert(name)) {
                        Err(error) => Err(error),
                        Ok(above) => Ok(
                            inherited(name, definition, above.conditions, above.world),
                        ),
                    }
                },
            },
        }
    }
}

/// The profile `name`.
pub open spec fn resolved(
    definitions: Definitions,
    default_world: WorldMode,
    name: Seq<char>,
) -> Result<TargetProfileModel, TargetProfileErrorModel> {
    resolution(definitions, default_world, name, Set::empty())
}

/// The first `n` profiles, in the order of their names, or the first error among them.
pub open spec fn resolved_up_to(
    definitions: Definitions,
    default_world: WorldMode,
    n: nat,
) -> Result<Seq<TargetProfileModel>, TargetProfileErrorModel>
    decreases n,
{
    if n == 0 {
        Ok(Seq::empty())
    } else {
        match resolved_up_to(definitions, default_world, (n - 1) as nat) {
            Err(error) => Err(error),
            Ok(profiles) => match resolved(definitions, default_world, definitions[n - 1].0) {
                Err(error) => Err(error),
                Ok(profile) => Ok(profiles.push(profile)),
            },
        }
    }
}

proof fn error_stays(definitions: Definitions, default_world: WorldMode, n: nat, m: nat)
    requires
        n <= m,
        resolved_up_to(definitions, default_world, n) is Err,
    ensures
        resolved_up_to(definitions, default_world, m) == resolved_up_to(
            definitions,
            default_world,
            n,
        ),
    decreases m,
{
    if n < m {
        error_stays(definitions, default_world, n, (m - 1) as nat);
    }
}

/// Resolves target inheritance into deterministic, fully populated profiles.
///
/// # Errors
///
/// Returns [`TargetProfileError::UnknownParent`] when a profile extends an
/// undefined profile, or [`TargetProfileError::Cycle`] when inheritance is
/// cyclic.
pub fn resolve_target_profiles(
    definitions: &OrderedMap<String, TargetProfileDefinition>,
    default_world: WorldMode,
) -> (r: Result<Vec<TargetProfile>, TargetProfileError>)
    ensures
        match r {
            Ok(profiles) => resolved_up_to(
                definitions.deep_view(),
                default_world,
                definitions.deep_view().len(),
            ) == Ok::<_, TargetProfileErrorModel>(profiles.deep_view()),
            Err(error) => resolved_up_to(
                definitions.deep_view(),
                default_world,
                definitions.deep_view().len(),
            ) == Err::<Seq<TargetProfileModel>, _>(error.deep_view()),
        },
{
    let ghost model = definitions.deep_view();
    let mut profiles: Vec<TargetProfile> = Vec::new();
    let mut i: usize = 0;
    assert(profiles.deep_view() =~= Seq::empty());
    while i < definitions.entries().len()
        invariant
            i <= definitions.entries().len(),
            model == definitions.deep_view(),
            resolved_up_to(model, default_world, i as nat) == Ok::<_, TargetProfileErrorModel>(
                profiles.deep_view(),
            ),
        decreases definitions.entries().len() - i,
    {
        assert(model[i as int].0 == definitions.entries()@[i as int].0@);
        let name = &definitions.entries()[i].0;
        let mut visiting: Vec<String> = Vec::new();
        assert(visiting.deep_view().to_set() =~= Set::<Seq<char>>::empty());
        match resolve_profile(name, definitions, default_world, &mut visiting) {
            Ok(profile) => push_item(&mut profiles, profile),
            Err(error) => {
                proof {
                    error_stays(model, default_world, (i + 1) as nat, model.len());
                }
                return Err(error);
            },
        }
        i = i + 1;
    }
    Ok(profiles)
}

fn holds_name(names: &Vec<String>, name: &str) -> (r: bool)
    ensures
        r == names.deep_view().to_set().contains(name@),
{
    let mut i: usize = 0;
    while i < names.len()
        invariant
            i <= names.len(),
            forall|j: int| 0 <= j < i ==> names.deep_view()[j] != name@,
        decreases names.len() - i,
    {
        if same(&names[i], name) {
            assert(names.deep_view()[i as int] == name@);
            return true;
        }
        i = i + 1;
    }
    false
}

fn resolve_profile(
    name: &str,
    definitions: &OrderedMap<String, TargetProfileDefinition>,
    default_world: WorldMode,
    visiting: &mut Vec<String>,
) -> (r: Result<TargetProfile, TargetProfileError>)
    ensures
        match r {
            Ok(profile) => resolution(
                definitions.deep_view(),
                default_world,
                name@,
                old(visiting).deep_view().to_set(),
            ) == Ok::<_, TargetProfileErrorModel>(profile.deep_view()),
            Err(error) => resolution(
                definitions.deep_view(),
                default_world,
                name@,
                old(visiting).deep_view().to_set(),
            ) == Err::<TargetProfileModel, _>(error.deep_view()),
        },
    decreases unvisited(definitions.deep_view(), old(visiting).deep_view().to_set()),
{
    let ghost model = definitions.deep_view();
    let ghost waiting = visiting.deep_view().to_set();
    if holds_name(visiting, name) {
        return Err(TargetProfileError::Cycle(name.to_owned()));
    }
    let definition = match definitions.get(&name.to_owned()) {
        None => {
            return Err(TargetProfileError::UnknownParent(name.to_owned()));
        },
        Some(definition) => definition,
    };
    let mut conditions: OrderedSet<String> = OrderedSet::new();
    let mut world = default_world;
    if let Some(parent_name) = &definition.extends {
        if !definitions.contains_key(parent_name) {
            return Err(TargetProfileError::UnknownParent(parent_name.clone()));
        }
        let ghost front = visiting.deep_view();
        push_item(visiting, name.to_owned());
        proof {
            visiting_leaves_fewer(model, waiting, name@);
            assert(visiting.deep_view().to_set() =~= waiting.insert(name@)) by {
                let longer = visiting.deep_view();
                assert forall|n: Seq<char>| longer.to_set().contains(n) <==> waiting.insert(
                    name@,
                ).contains(n) by {
                    if front.contains(n) {
                        let i = choose|i: int| 0 <= i < front.len() && front[i] == n;
                        assert(longer[i] == n);
                    }
                    if longer.contains(n) && n != name@ {
                        let i = choose|i: int| 0 <= i < longer.len() && longer[i] == n;
                        assert(front[i] == n);
                    }
                    assert(longer[front.len() as int] == name@);
                }
            }
        }
        match resolve_profile(parent_name, definitions, default_world, visiting) {
            Err(error) => {
                return Err(error);
            },
            Ok(parent) => {
                conditions = parent.conditions;
                world = parent.world;
            },
        }
    }
    conditions.extend(definition.conditions.items());
    if let Some(own) = definition.world {
        world = own;
    }
    Ok(TargetProfile { name: name.to_owned(), conditions, world })
}

/// A profile has every condition of the profile that it extends, and its own.
pub proof fn profiles_inherit_conditions(
    definitions: Definitions,
    default_world: WorldMode,
    name: Seq<char>,
    visiting: Set<Seq<char>>,
    condition: Seq<char>,
)
    requires
        resolution(definitions, default_world, name, visiting) is Ok,
        !visiting.contains(name),
    ensures
        ({
            let profile = resolution(definitions, default_world, name, visiting)->Ok_0;
            let definition = lookup(definitions, name)->0;
            let above = match definition.extends {
                None => Seq::empty(),
                Some(parent) => resolution(
                    definitions,
                    default_world,
                    parent,
                    visiting.insert(name),
                )->Ok_0.conditions,
            };
            &&& lookup(definitions, name) is Some
            &&& definition.extends matches Some(parent) ==> resolution(
                definitions,
                default_world,
                parent,
                visiting.insert(name),
            ) is Ok
            &&& profile.conditions.contains(condition) <==> above.contains(condition)
                || definition.conditions.contains(condition)
            &&& definition.world matches Some(own) ==> profile.world == own
        }),
{
    let definition = lookup(definitions, name)->0;
    let above = match definition.extends {
        None => Seq::empty(),
        Some(parent) => resolution(
            definitions,
            default_world,
            parent,
            visiting.insert(name),
        )->Ok_0.conditions,
    };
    with_items_is_ordered::<String>(above, definition.conditions);
    assert(with_items::<String>(above, definition.conditions).contains(condition) <==> (
    above.contains(condition) || definition.conditions.contains(condition)));
}

/// The profile reached from `name` by going up `k` times, if all those profiles are defined.
pub open spec fn ancestor(definitions: Definitions, name: Seq<char>, k: nat) -> Option<Seq<char>>
    decreases k,
{
    if k == 0 {
        Some(name)
    } else {
        match ancestor(definitions, name, (k - 1) as nat) {
            None => None,
            Some(below) => match lookup(definitions, below) {
                None => None,
                Some(definition) => definition.extends,
            },
        }
    }
}

/// Going up from the parent is going up once more from the child.
pub proof fn ancestor_of_parent(
    definitions: Definitions,
    name: Seq<char>,
    parent: Seq<char>,
    k: nat,
)
    requires
        lookup(definitions, name) matches Some(d) && d.extends == Some(parent),
    ensures
        ancestor(definitions, name, k + 1) == ancestor(definitions, parent, k),
    decreases k,
{
    if k > 0 {
        ancestor_of_parent(definitions, name, parent, (k - 1) as nat);
        assert(ancestor(definitions, name, k + 1) == match ancestor(definitions, name, k) {
            None => None,
            Some(below) => match lookup(definitions, below) {
                None => None,
                Some(definition) => definition.extends,
            },
        });
    } else {
        reveal_with_fuel(ancestor, 2);
    }
}

/// Cyclic inheritance is always visible: a profile that is its own ancestor does not resolve.
pub proof fn cycles_are_visible(
    definitions: Definitions,
    default_world: WorldMode,
    name: Seq<char>,
    visiting: Set<Seq<char>>,
    k: nat,
)
    requires
        k > 0,
        ancestor(definitions, name, k) == Some(name),
    ensures
        resolution(definitions, default_world, name, visiting) is Err,
    decreases unvisited(definitions, visiting),
{
    if !visiting.contains(name) && lookup(definitions, name) is Some {
        let definition = lookup(definitions, name)->0;
        match definition.extends {
            None => {
                no_ancestors(definitions, name, k);
            },
            Some(parent) => {
                if lookup(definitions, parent) is Some {
                    ancestor_of_parent(definitions, name, parent, (k - 1) as nat);
                    // The parent comes back to itself through `name`.
                    ancestor_of_parent_cycle(definitions, name, parent, k);
                    visiting_leaves_fewer(definitions, visiting, name);
                    cycles_are_visible(
                        definitions,
                        default_world,
                        parent,
                        visiting.insert(name),
                        k,
                    );
                }
            },
        }
    }
}

proof fn ancestor_of_parent_cycle(
    definitions: Definitions,
    name: Seq<char>,
    parent: Seq<char>,
    k: nat,
)
    requires
        k > 0,
        lookup(definitions, name) matches Some(d) && d.extends == Some(parent),
        ancestor(definitions, name, k) == Some(name),
    ensures
        ancestor(definitions, parent, k) == Some(parent),
{
    ancestor_of_parent(definitions, name, parent, k);
    assert(ancestor(definitions, name, k + 1) == Some(parent));
}

proof fn no_ancestors(definitions: Definitions, name: Seq<char>, k: nat)
    requires
        k > 0,
        lookup(definitions, name) matches Some(d) && d.extends is None,
    ensures
        ancestor(definitions, name, k) is None,
    decreases k,
{
    if k > 1 {
        no_ancestors(definitions, name, (k - 1) as nat);
    } else {
        reveal_with_fuel(ancestor, 2);
    }
}

} // verus!
