use orphanode::collections::{OrderedMap, OrderedSet};
use orphanode::domain::evidence::{EvidenceGraph, EvidenceKind};
use orphanode::domain::graph::{components_within, reachable_from_many};
use orphanode::domain::ids::{InternedStringId, StringInterner};
use orphanode::domain::target::{
    resolve_target_profiles, TargetProfileDefinition, TargetProfileError, WorldMode,
};

#[test]
fn explanations_choose_a_deterministic_shortest_path() {
    let mut graph = EvidenceGraph::default();
    let root = graph.add_node(EvidenceKind::Entry, "entry", None, None);
    let alternate = graph.add_node(EvidenceKind::Entry, "alternate", None, None);
    let import = graph.add_node(EvidenceKind::Import, "import", None, None);
    let target = graph.add_node(EvidenceKind::Package, "chalk", None, None);
    graph.add_edge(root, import);
    graph.add_edge(import, target);
    graph.add_edge(alternate, target);

    let path = graph.shortest_path(&vec![root, alternate], target);
    assert_eq!(
        path.iter()
            .map(|node| node.summary.as_str())
            .collect::<Vec<_>>(),
        ["alternate", "chalk"]
    );
}

#[test]
fn there_is_no_path_to_what_nothing_leads_to() {
    let mut graph = EvidenceGraph::default();
    let root = graph.add_node(EvidenceKind::Entry, "entry", Some("src/a.ts".to_owned()), Some((1, 2)));
    let lonely = graph.add_node(EvidenceKind::Symbol, "lonely", None, None);

    assert!(graph.shortest_path(&vec![root], lonely).is_empty());
    assert_eq!(graph.shortest_path(&vec![lonely], lonely).len(), 1);
    let node = graph.node(root).expect("known node");
    assert_eq!(node.start, Some(1));
    assert_eq!(node.end, Some(2));
}

#[test]
fn interning_is_stable_and_deduplicated() {
    let mut interner = StringInterner::default();
    let first = interner.intern("src/index.ts");
    let second = interner.intern("chalk");
    let duplicate = interner.intern("src/index.ts");

    assert_eq!(first, duplicate);
    assert_ne!(first, second);
    assert_eq!(interner.get(first), Some("src/index.ts"));
    assert_eq!(interner.len(), 2);
}

#[test]
fn what_was_not_interned_is_not_found() {
    let mut interner = StringInterner::default();

    assert!(interner.is_empty());
    let only = interner.intern("only");
    assert_eq!(only.index(), 0);
    assert_eq!(interner.get(InternedStringId(1)), None);
}

#[test]
fn profiles_inherit_conditions_and_can_override_world_mode() {
    let mut definitions = OrderedMap::new();
    definitions.insert(
        "node".to_owned(),
        TargetProfileDefinition {
            extends: None,
            conditions: set(&["node", "import"]),
            world: None,
        },
    );
    definitions.insert(
        "test".to_owned(),
        TargetProfileDefinition {
            extends: Some("node".to_owned()),
            conditions: set(&["development"]),
            world: Some(WorldMode::Closed),
        },
    );

    let profiles =
        resolve_target_profiles(&definitions, WorldMode::Open).expect("resolve profiles");
    let test = profiles
        .iter()
        .find(|profile| profile.name == "test")
        .expect("test profile");
    assert_eq!(test.conditions, set(&["development", "import", "node"]));
    assert_eq!(test.world, WorldMode::Closed);
    let node = profiles
        .iter()
        .find(|profile| profile.name == "node")
        .expect("node profile");
    assert_eq!(node.world, WorldMode::Open);
}

#[test]
fn profile_cycles_are_visible() {
    let mut definitions = OrderedMap::new();
    definitions.insert(
        "a".to_owned(),
        TargetProfileDefinition {
            extends: Some("b".to_owned()),
            conditions: OrderedSet::new(),
            world: None,
        },
    );
    definitions.insert(
        "b".to_owned(),
        TargetProfileDefinition {
            extends: Some("a".to_owned()),
            conditions: OrderedSet::new(),
            world: None,
        },
    );

    assert!(matches!(
        resolve_target_profiles(&definitions, WorldMode::Closed),
        Err(TargetProfileError::Cycle(_))
    ));
}

#[test]
fn unknown_parents_are_told() {
    let mut definitions = OrderedMap::new();
    definitions.insert(
        "a".to_owned(),
        TargetProfileDefinition {
            extends: Some("gone".to_owned()),
            conditions: OrderedSet::new(),
            world: None,
        },
    );

    let error = resolve_target_profiles(&definitions, WorldMode::Closed).unwrap_err();

    assert!(matches!(error, TargetProfileError::UnknownParent(_)));
    assert!(error.message().contains("gone"));
}

#[test]
fn reachability_follows_edges() {
    let reachable = reachable_from_many(5, &vec![(0, 1), (1, 2), (3, 4), (4, 3)], &vec![0]);

    assert_eq!(reachable, [true, true, true, false, false]);
}

#[test]
fn components_group_cycles() {
    let components = components_within(
        &vec![(0, 1), (3, 4), (4, 3)],
        &vec![false, false, true, true, true],
    );

    assert_eq!(components, [vec![2], vec![3, 4]]);
}

fn set(values: &[&str]) -> OrderedSet<String> {
    OrderedSet::from_items(values.iter().map(|value| (*value).to_owned()).collect())
}

#[test]
fn ordered_collections_keep_their_order() {
    let mut counts = OrderedMap::from_entries(vec![("a".to_owned(), 1u8), ("c".to_owned(), 3)]);
    counts.insert("b".to_owned(), 2);
    counts.insert("c".to_owned(), 4);
    let named = OrderedSet::from_items(vec!["b".to_owned(), "a".to_owned(), "b".to_owned()]);

    assert_eq!(counts.entries().len(), 3);
    assert_eq!(
        counts.into_entries(),
        [("a".to_owned(), 1), ("b".to_owned(), 2), ("c".to_owned(), 4)]
    );
    assert_eq!(*named.items(), ["a", "b"]);
}
