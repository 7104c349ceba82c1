//! Why something is retained, as a graph of evidence.

use crate::collections::{ascending, with_item, with_item_ascending, with_item_contains, OrderedSet};
use crate::domain::ids::EvidenceId;
use crate::values::{push_item, Ordered, Value};
use vstd::prelude::*;

verus! {

/// What a piece of evidence is.
#[derive(Debug, Clone, Copy, PartialEq, Eq, Structural)]
pub enum EvidenceKind {
    Entry,
    Manifest,
    Script,
    Configuration,
    Import,
    Export,
    Symbol,
    Member,
    Package,
    Plugin,
    Retain,
    Blocker,
}

impl DeepView for EvidenceKind {
    type V = EvidenceKind;

    open spec fn deep_view(&self) -> EvidenceKind {
        *self
    }
}

impl Value for EvidenceKind {
    fn replicate(&self) -> (r: Self) {
        *self
    }

    fn same_value(&self, other: &Self) -> (r: bool) {
        *self == *other
    }
}

impl EvidenceKind {
    /// The place of the variant in the order of the type.
    pub open spec fn place(self) -> nat {
        match self {
            EvidenceKind::Entry => 0,
            EvidenceKind::Manifest => 1,
            EvidenceKind::Script => 2,
            EvidenceKind::Configuration => 3,
            EvidenceKind::Import => 4,
            EvidenceKind::Export => 5,
            EvidenceKind::Symbol => 6,
            EvidenceKind::Member => 7,
            EvidenceKind::Package => 8,
            EvidenceKind::Plugin => 9,
            EvidenceKind::Retain => 10,
            EvidenceKind::Blocker => 11,
        }
    }

    fn place_of(&self) -> (r: u8)
        ensures
            r == self.place(),
    {
        match self {
            EvidenceKind::Entry => 0,
            EvidenceKind::Manifest => 1,
            EvidenceKind::Script => 2,
            EvidenceKind::Configuration => 3,
            EvidenceKind::Import => 4,
            EvidenceKind::Export => 5,
            EvidenceKind::Symbol => 6,
            EvidenceKind::Member => 7,
            EvidenceKind::Package => 8,
            EvidenceKind::Plugin => 9,
            EvidenceKind::Retain => 10,
            EvidenceKind::Blocker => 11,
        }
    }
}

impl Ordered for EvidenceKind {
    open spec fn before(a: EvidenceKind, b: EvidenceKind) -> bool {
        a.place() < b.place()
    }

    fn is_before(&self, other: &Self) -> (r: bool) {
        self.place_of() < other.place_of()
    }

    proof fn before_irreflexive(a: EvidenceKind) {
    }

    proof fn before_transitive(a: EvidenceKind, b: EvidenceKind, c: EvidenceKind) {
    }

    proof fn before_total(a: EvidenceKind, b: EvidenceKind) {
    }
}

/// A piece of evidence.
#[derive(Debug, PartialEq, Eq)]
pub struct EvidenceNode {
    pub id: EvidenceId,
    pub kind: EvidenceKind,
    pub summary: String,
    pub path: Option<String>,
    pub start: Option<u32>,
    pub end: Option<u32>,
}

/// What a [`EvidenceNode`] holds.
pub struct EvidenceNodeModel {
    pub id: EvidenceId,
    pub kind: EvidenceKind,
    pub summary: Seq<char>,
    pub path: Option<Seq<char>>,
    pub start: Option<u32>,
    pub end: Option<u32>,
}

impl DeepView for EvidenceNode {
    type V = EvidenceNodeModel;

    open spec fn deep_view(&self) -> EvidenceNodeModel {
        EvidenceNodeModel {
            id: self.id.deep_view(),
            kind: self.kind.deep_view(),
            summary: self.summary.deep_view(),
            path: self.path.deep_view(),
            start: self.start.deep_view(),
            end: self.end.deep_view(),
        }
    }
}

impl Value for EvidenceNode {
    fn replicate(&self) -> (r: Self) {
        EvidenceNode {
            id: self.id.replicate(),
            kind: self.kind.replicate(),
            summary: self.summary.replicate(),
            path: self.path.replicate(),
            start: self.start.replicate(),
            end: self.end.replicate(),
        }
    }

    fn same_value(&self, other: &Self) -> (r: bool) {
        self.id.same_value(&other.id)
            && self.kind.same_value(&other.kind)
            && self.summary.same_value(&other.summary)
            && self.path.same_value(&other.path)
            && self.start.same_value(&other.start)
            && self.end.same_value(&other.end)
    }
}

/// Pieces of evidence, and which of them lead to which.
#[derive(Debug)]
pub struct EvidenceGraph {
    nodes: Vec<EvidenceNode>,
    outgoing: Vec<OrderedSet<EvidenceId>>,
}

/// What an [`EvidenceGraph`] holds: the nodes, and for each node the targets of its edges.
pub struct EvidenceGraphModel {
    pub nodes: Seq<EvidenceNodeModel>,
    pub outgoing: Seq<Seq<EvidenceId>>,
}

impl EvidenceGraphModel {
    /// Each node has the identifier of its position, and its edges are in order without repetition.
    pub open spec fn wf(self) -> bool {
        &&& self.outgoing.len() == self.nodes.len()
        &&& self.nodes.len() <= u32::MAX + 1
        &&& forall|i: int| 0 <= i < self.nodes.len() ==> (#[trigger] self.nodes[i]).id.0 == i
        &&& forall|i: int|
            0 <= i < self.outgoing.len() ==> ascending::<EvidenceId>(#[trigger] self.outgoing[i])
    }

    /// Whether an edge leads from node `v` to node `w`.
    pub open spec fn edge(self, v: int, w: int) -> bool {
        &&& 0 <= v < self.nodes.len()
        &&& 0 <= w < self.nodes.len()
        &&& self.outgoing[v].contains(EvidenceId(w as u32))
    }

    /// Whether exactly `k` edges lead from `v` to `target`.
    pub open spec fn walk(self, v: int, target: int, k: nat) -> bool
        decreases k,
    {
        if k == 0 {
            v == target && 0 <= v < self.nodes.len()
        } else {
            exists|w: int| #[trigger] self.edge(v, w) && self.walk(w, target, (k - 1) as nat)
        }
    }

    /// Whether `k` is the least number of edges that lead from `v` to `target`.
    pub open spec fn distance(self, v: int, target: int, k: nat) -> bool {
        self.walk(v, target, k) && forall|j: nat| j < k ==> !#[trigger] self.walk(v, target, j)
    }

    /// Whether `path` leads from one of `sources` to `target` along edges.
    pub open spec fn path(self, sources: Seq<EvidenceId>, target: int, path: Seq<int>) -> bool {
        &&& path.len() > 0
        &&& 0 <= path[0] < self.nodes.len()
        &&& sources.contains(EvidenceId(path[0] as u32))
        &&& path.last() == target
        &&& 0 <= target < self.nodes.len()
        &&& forall|i: int| 0 <= i < path.len() - 1 ==> self.edge(#[trigger] path[i], path[i + 1])
    }

    /// Whether `path` is the first, by the order of identifiers, of the shortest paths.
    pub open spec fn best_path(
        self,
        sources: Seq<EvidenceId>,
        target: int,
        path: Seq<int>,
    ) -> bool {
        &&& self.path(sources, target, path)
        &&& forall|other: Seq<int>| #[trigger]
            self.path(sources, target, other) ==> path.len() <= other.len() && (path.len()
                == other.len() ==> path == other || first_before(path, other))
    }

    /// The nodes along `path`.
    pub open spec fn nodes_along(self, path: Seq<int>) -> Seq<EvidenceNodeModel> {
        path.map_values(|v: int| self.nodes[v])
    }
}

/// Whether `a` has the smaller number where `a` and `b` first differ.
pub open spec fn first_before(a: Seq<int>, b: Seq<int>) -> bool {
    exists|k: int|
        0 <= k < a.len() && k < b.len() && #[trigger] a[k] < b[k] && a.take(k) == b.take(k)
}

impl View for EvidenceGraph {
    type V = EvidenceGraphModel;

    closed spec fn view(&self) -> EvidenceGraphModel {
        EvidenceGraphModel {
            nodes: self.nodes.deep_view(),
            outgoing: self.outgoing.deep_view(),
        }
    }
}

impl Default for EvidenceGraph {
    fn default() -> (r: Self)
        ensures
            r@.wf(),
            r@.nodes.len() == 0,
            r@.outgoing.len() == 0,
    {
        EvidenceGraph { nodes: Vec::new(), outgoing: Vec::new() }
    }
}

impl EvidenceGraph {
    /// Adds an evidence node and returns its graph-local identifier.
    ///
    /// An identifier must still be free.
    #[must_use]
    pub fn add_node(
        &mut self,
        kind: EvidenceKind,
        summary: &str,
        path: Option<String>,
        span: Option<(u32, u32)>,
    ) -> (r: EvidenceId)
        requires
            old(self)@.wf(),
            old(self)@.nodes.len() <= u32::MAX,
        ensures
            final(self)@.wf(),
            r.0 == old(self)@.nodes.len(),
            final(self)@.nodes == old(self)@.nodes.push(
                EvidenceNodeModel {
                    id: r,
                    kind,
                    summary: summary@,
                    path: path.deep_view(),
                    start: match span {
                        Some(s) => Some(s.0),
                        None => None,
                    },
                    end: match span {
                        Some(s) => Some(s.1),
                        None => None,
                    },
                },
            ),
            final(self)@.outgoing == old(self)@.outgoing.push(Seq::empty()),
    {
        let ghost before = self@;
        let id = EvidenceId(self.nodes.len() as u32);
        let node = EvidenceNode {
            id,
            kind,
            summary: summary.to_owned(),
            path,
            start: match span {
                Some(s) => Some(s.0),
                None => None,
            },
            end: match span {
                Some(s) => Some(s.1),
                None => None,
            },
        };
        push_item(&mut self.nodes, node);
        push_item(&mut self.outgoing, OrderedSet::new());
        proof {
            assert forall|i: int| 0 <= i < self@.nodes.len() implies (#[trigger] self@.nodes[i]).id.0
                == i by {
                if i < before.nodes.len() {
                    assert(self@.nodes[i] == before.nodes[i]);
                }
            }
            assert forall|i: int| 0 <= i < self@.outgoing.len() implies ascending::<EvidenceId>(
                #[trigger] self@.outgoing[i],
            ) by {
                if i < before.outgoing.len() {
                    assert(self@.outgoing[i] == before.outgoing[i]);
                }
            }
        }
        id
    }

    /// Adds a directed edge unless it already exists.
    ///
    /// `source` must identify a node of the graph.
    pub fn add_edge(&mut self, source: EvidenceId, target: EvidenceId)
        requires
            old(self)@.wf(),
            source.0 < old(self)@.nodes.len(),
        ensures
            final(self)@.wf(),
            final(self)@.nodes == old(self)@.nodes,
            final(self)@.outgoing == old(self)@.outgoing.update(
                source.0 as int,
                with_item::<EvidenceId>(old(self)@.outgoing[source.0 as int], target),
            ),
            forall|w: EvidenceId| #[trigger]
                final(self)@.outgoing[source.0 as int].contains(w) <==> old(self)@.outgoing[source.0 as int].contains(w) || w == target,
    {
        let ghost before = self@;
        let index = source.index();
        proof {
            with_item_ascending::<EvidenceId>(before.outgoing[index as int], target);
            with_item_contains::<EvidenceId>(before.outgoing[index as int], target);
        }
        assert(before.outgoing[index as int] == self.outgoing@[index as int].deep_view());
        self.outgoing[index].insert(target);
        assert(self@.outgoing =~= before.outgoing.update(
            index as int,
            with_item::<EvidenceId>(before.outgoing[index as int], target),
        ));
    }

    /// The node with this identifier.
    #[must_use]
    pub fn node(&self, id: EvidenceId) -> (r: Option<&EvidenceNode>)
        ensures
            r.deep_view() == if id.0 < self@.nodes.len() {
                Some(self@.nodes[id.0 as int])
            } else {
                None
            },
    {
        let index = id.index();
        if index < self.nodes.len() {
            Some(&self.nodes[index])
        } else {
            None
        }
    }
}

proof fn rest_of_path_walks(
    g: EvidenceGraphModel,
    sources: Seq<EvidenceId>,
    target: int,
    path: Seq<int>,
    i: int,
)
    requires
        g.path(sources, target, path),
        0 <= i < path.len(),
    ensures
        g.walk(path[i], target, (path.len() - 1 - i) as nat),
    decreases path.len() - i,
{
    if i < path.len() - 1 {
        rest_of_path_walks(g, sources, target, path, i + 1);
        assert(g.edge(path[i], path[i + 1]));
    }
}

proof fn start_of_path_walks(
    g: EvidenceGraphModel,
    sources: Seq<EvidenceId>,
    target: int,
    path: Seq<int>,
    i: int,
    m: nat,
)
    requires
        g.path(sources, target, path),
        0 <= i < path.len(),
        g.walk(path[i], target, m),
    ensures
        g.walk(path[0], target, (i + m) as nat),
    decreases i,
{
    if i > 0 {
        assert(g.edge(path[i - 1], path[i]));
        assert(g.walk(path[i - 1], target, m + 1));
        start_of_path_walks(g, sources, target, path, i - 1, m + 1);
    }
}

proof fn first_difference(a: Seq<int>, b: Seq<int>) -> (k: int)
    requires
        a.len() == b.len(),
        a != b,
    ensures
        0 <= k < a.len(),
        a[k] != b[k],
        a.take(k) == b.take(k),
    decreases a.len(),
{
    assert(a.len() > 0) by {
        if a.len() == 0 {
            assert(a =~= b);
        }
    }
    let x = a.drop_last();
    let y = b.drop_last();
    if x != y {
        let k = first_difference(x, y);
        assert(a.take(k) =~= x.take(k));
        assert(b.take(k) =~= y.take(k));
        k
    } else {
        let k = a.len() - 1;
        if a[k] == b[k] {
            assert(a =~= x.push(a[k]));
            assert(b =~= y.push(b[k]));
        }
        assert(a.take(k) =~= x);
        assert(b.take(k) =~= y);
        k
    }
}

/// What is known after all walks of at most `level` edges to `target` have been looked for.
spec fn measured(
    g: EvidenceGraphModel,
    target: int,
    found: Seq<Option<usize>>,
    level: nat,
) -> bool {
    &&& found.len() == g.nodes.len()
    &&& forall|v: int|
        0 <= v < found.len() ==> match #[trigger] found[v] {
            Some(k) => k <= level && g.distance(v, target, k as nat),
            None => forall|j: nat| j <= level ==> !#[trigger] g.walk(v, target, j),
        }
}

/// The distances are complete.
spec fn fully_measured(g: EvidenceGraphModel, target: int, found: Seq<Option<usize>>) -> bool {
    &&& found.len() == g.nodes.len()
    &&& forall|v: int|
        0 <= v < found.len() ==> match #[trigger] found[v] {
            Some(k) => g.distance(v, target, k as nat),
            None => forall|j: nat| !#[trigger] g.walk(v, target, j),
        }
}

/// A walk that is one edge longer goes through a node that is one edge nearer.
proof fn next_level(
    g: EvidenceGraphModel,
    target: int,
    found: Seq<Option<usize>>,
    level: nat,
    v: int,
)
    requires
        measured(g, target, found, level),
        0 <= v < found.len(),
        found[v] is None,
    ensures
        g.walk(v, target, level + 1) <==> exists|w: int| #[trigger]
            g.edge(v, w) && found[w] == Some(level as usize) && level <= usize::MAX,
{
    if g.walk(v, target, level + 1) {
        let w = choose|w: int| #[trigger] g.edge(v, w) && g.walk(w, target, level);
        match found[w] {
            Some(m) => {
                if m < level {
                    assert(g.walk(w, target, m as nat));
                    assert(g.walk(v, target, (m + 1) as nat));
                }
                assert(m == level);
            },
            None => {
                assert(!g.walk(w, target, level));
            },
        }
        assert(g.edge(v, w) && found[w] == Some(level as usize) && level <= usize::MAX);
    }
    if exists|w: int| #[trigger]
        g.edge(v, w) && found[w] == Some(level as usize) && level <= usize::MAX {
        let w = choose|w: int| #[trigger]
            g.edge(v, w) && found[w] == Some(level as usize) && level <= usize::MAX;
        assert(g.distance(w, target, level));
    }
}

/// When no node is at one distance, none is farther.
proof fn no_farther(
    g: EvidenceGraphModel,
    target: int,
    found: Seq<Option<usize>>,
    level: nat,
    v: int,
    j: nat,
)
    requires
        measured(g, target, found, level),
        forall|u: int|
            0 <= u < found.len() && #[trigger] found[u] is None ==> !g.walk(u, target, level + 1),
        0 <= v < found.len(),
        found[v] is None,
    ensures
        !g.walk(v, target, j),
    decreases j,
{
    if j <= level {
    } else if g.walk(v, target, j) {
        let w = choose|w: int| #[trigger] g.edge(v, w) && g.walk(w, target, (j - 1) as nat);
        match found[w] {
            None => {
                no_farther(g, target, found, level, w, (j - 1) as nat);
            },
            Some(m) => {
                assert(g.walk(w, target, m as nat));
                assert(g.walk(v, target, (m + 1) as nat));
            },
        }
    }
}

impl EvidenceGraph {
    fn has_edge_at(&self, v: usize, found: &Vec<Option<usize>>, level: usize) -> (r: bool)
        requires
            self@.wf(),
            v < self@.nodes.len(),
            found@.len() == self@.nodes.len(),
        ensures
            r == exists|w: int| #[trigger] self@.edge(v as int, w) && found@[w] == Some(level),
    {
        let ghost targets = self@.outgoing[v as int];
        let edges = self.outgoing[v].items();
        assert(targets == edges.deep_view());
        let mut i: usize = 0;
        while i < edges.len()
            invariant
                i <= edges.len(),
                self@.wf(),
                v < self@.nodes.len(),
                found@.len() == self@.nodes.len(),
                targets == edges.deep_view(),
                targets == self@.outgoing[v as int],
                forall|j: int|
                    0 <= j < i ==> (#[trigger] targets[j]).0 >= found@.len() || found@[targets[j].0
                        as int] != Some(level),
            decreases edges.len() - i,
        {
            let w = edges[i].index();
            assert(targets[i as int] == edges@[i as int]);
            if w < found.len() && found[w].is_some() && found[w].unwrap() == level {
                assert(targets.contains(EvidenceId(w as u32)));
                assert(self@.edge(v as int, w as int));
                return true;
            }
            i = i + 1;
        }
        assert forall|w: int| #[trigger] self@.edge(v as int, w) implies found@[w] != Some(level) by {
            let j = choose|j: int| 0 <= j < targets.len() && targets[j] == EvidenceId(w as u32);
            assert(targets[j].0 == w);
        }
        false
    }

    fn distances(&self, target: usize) -> (r: Vec<Option<usize>>)
        requires
            self@.wf(),
            target < self@.nodes.len(),
        ensures
            fully_measured(self@, target as int, r@),
    {
        let ghost g = self@;
        let n: usize = self.nodes.len();
        let mut found: Vec<Option<usize>> = Vec::new();
        let mut i: usize = 0;
        while i < n
            invariant
                i <= n,
                found@.len() == i,
                forall|j: int| 0 <= j < i ==> found@[j] is None,
            decreases n - i,
        {
            found.push(None);
            i = i + 1;
        }
        found.set(target, Some(0));
        let ghost mut done: Set<int> = set![target as int];
        let mut level: usize = 0;
        assert(measured(g, target as int, found@, 0)) by {
            assert forall|v: int| 0 <= v < found@.len() implies match #[trigger] found@[v] {
                Some(k) => k <= 0 && g.distance(v, target as int, k as nat),
                None => forall|j: nat| j <= 0 ==> !#[trigger] g.walk(v, target as int, j),
            } by {}
        }
        loop
            invariant
                g == self@,
                g.wf(),
                n == g.nodes.len(),
                target < n,
                measured(g, target as int, found@, level as nat),
                level < n,
                done.finite(),
                done.len() > level,
                forall|v: int| done.contains(v) <==> 0 <= v < n && found@[v] is Some,
            decreases n - done.len(),
        {
            let ghost before = found@;
            let ghost done_before = done;
            let mut changed = false;
            let mut v: usize = 0;
            while v < n
                invariant
                    v <= n,
                    g == self@,
                    g.wf(),
                    n == g.nodes.len(),
                    level < n,
                    before.len() == n,
                    found@.len() == n,
                    measured(g, target as int, before, level as nat),
                    forall|u: int| v <= u < n ==> found@[u] == before[u],
                    forall|u: int|
                        0 <= u < v ==> #[trigger] found@[u] == if before[u] is None && g.walk(
                            u,
                            target as int,
                            (level + 1) as nat,
                        ) {
                            Some((level + 1) as usize)
                        } else {
                            before[u]
                        },
                    changed <==> exists|u: int| 0 <= u < v && #[trigger] found@[u] != before[u],
                    done.finite(),
                    forall|u: int| done.contains(u) <==> 0 <= u < n && found@[u] is Some,
                    done.len() >= done_before.len(),
                    changed ==> done.len() > done_before.len(),
                decreases n - v,
            {
                let ghost now = found@;
                if found[v].is_none() {
                    let near = self.has_edge_at(v, &found, level);
                    proof {
                        next_level(g, target as int, before, level as nat, v as int);
                        assert forall|w: int| 0 <= w < n implies (now[w] == Some(level) <==> before[w]
                            == Some(level)) by {
                            if w < v {
                                assert(now[w] == if before[w] is None && g.walk(
                                    w,
                                    target as int,
                                    (level + 1) as nat,
                                ) {
                                    Some((level + 1) as usize)
                                } else {
                                    before[w]
                                });
                            }
                        }
                        assert(near <==> g.walk(v as int, target as int, (level + 1) as nat)) by {
                            if near {
                                let w = choose|w: int| #[trigger]
                                    g.edge(v as int, w) && now[w] == Some(level);
                                assert(g.edge(v as int, w) && before[w] == Some(level));
                            }
                            if g.walk(v as int, target as int, (level + 1) as nat) {
                                let w = choose|w: int| #[trigger]
                                    g.edge(v as int, w) && before[w] == Some(level);
                                assert(g.edge(v as int, w) && now[w] == Some(level));
                            }
                        }
                    }
                    if near {
                        found.set(v, Some(level + 1));
                        changed = true;
                        proof {
                            assert(found@[v as int] != before[v as int]);
                            done = done.insert(v as int);
                        }
                    }
                }
                v = v + 1;
                assert(changed <==> exists|u: int| 0 <= u < v && #[trigger] found@[u] != before[u])
                    by {
                    if exists|u: int| 0 <= u < v - 1 && #[trigger] now[u] != before[u] {
                        let u = choose|u: int| 0 <= u < v - 1 && #[trigger] now[u] != before[u];
                        assert(found@[u] != before[u]);
                    }
                    if exists|u: int| 0 <= u < v && #[trigger] found@[u] != before[u] {
                        let u = choose|u: int| 0 <= u < v && #[trigger] found@[u] != before[u];
                        if u < v - 1 {
                            assert(now[u] != before[u]);
                        }
                    }
                }
            }
            if !changed {
                proof {
                    assert(found@ =~= before);
                    assert forall|u: int|
                        0 <= u < before.len() && #[trigger] before[u] is None implies !g.walk(
                        u,
                        target as int,
                        (level + 1) as nat,
                    ) by {
                        assert(found@[u] == before[u]);
                    }
                    assert forall|u: int|
                        0 <= u < found@.len() && #[trigger] found@[u] is None implies forall|j: nat|
                         !#[trigger] g.walk(u, target as int, j) by {
                        assert forall|j: nat| !#[trigger] g.walk(u, target as int, j) by {
                            no_farther(g, target as int, before, level as nat, u, j);
                        }
                    }
                }
                return found;
            }
            proof {
                let all = vstd::set_lib::set_int_range(0, n as int);
                vstd::set_lib::lemma_int_range(0, n as int);
                assert(done.subset_of(all));
                vstd::set_lib::lemma_len_subset(done, all);
                assert forall|u: int| 0 <= u < found@.len() implies match #[trigger] found@[u] {
                    Some(k) => k <= level + 1 && g.distance(u, target as int, k as nat),
                    None => forall|j: nat| j <= level + 1 ==> !#[trigger] g.walk(
                        u,
                        target as int,
                        j,
                    ),
                } by {
                    if before[u] is None {
                        assert(forall|j: nat| j <= level ==> !#[trigger] g.walk(
                            u,
                            target as int,
                            j,
                        ));
                    }
                }
            }
            level = level + 1;
        }
    }

    /// The source that is nearest, and the first of these.
    fn nearest_source(&self, sources: &Vec<EvidenceId>, found: &Vec<Option<usize>>) -> (r: Option<
        usize,
    >)
        requires
            found@.len() == self@.nodes.len(),
            self@.nodes.len() <= u32::MAX + 1,
        ensures
            match r {
                Some(s) => {
                    &&& s < found@.len()
                    &&& sources@.contains(EvidenceId(s as u32))
                    &&& found@[s as int] is Some
                    &&& forall|i: int|
                        0 <= i < sources@.len() && (#[trigger] sources@[i]).0 < found@.len()
                            && found@[sources@[i].0 as int] is Some ==> found@[s as int]->0
                            < found@[sources@[i].0 as int]->0 || (found@[s as int]->0
                            == found@[sources@[i].0 as int]->0 && s <= sources@[i].0)
                },
                None => forall|i: int|
                    0 <= i < sources@.len() && (#[trigger] sources@[i]).0 < found@.len()
                        ==> found@[sources@[i].0 as int] is None,
            },
    {
        let mut best: Option<usize> = None;
        let mut i: usize = 0;
        while i < sources.len()
            invariant
                i <= sources.len(),
                found@.len() == self@.nodes.len(),
                self@.nodes.len() <= u32::MAX + 1,
                match best {
                    Some(s) => {
                        &&& s < found@.len()
                        &&& sources@.contains(EvidenceId(s as u32))
                        &&& found@[s as int] is Some
                        &&& forall|j: int|
                            0 <= j < i && (#[trigger] sources@[j]).0 < found@.len()
                                && found@[sources@[j].0 as int] is Some ==> found@[s as int]->0
                                < found@[sources@[j].0 as int]->0 || (found@[s as int]->0
                                == found@[sources@[j].0 as int]->0 && s <= sources@[j].0)
                    },
                    None => forall|j: int|
                        0 <= j < i && (#[trigger] sources@[j]).0 < found@.len()
                            ==> found@[sources@[j].0 as int] is None,
                },
            decreases sources.len() - i,
        {
            let s = sources[i].index();
            assert(sources@[i as int].0 == s);
            assert(sources@.contains(sources@[i as int]));
            if s < found.len() {
                if let Some(d) = found[s] {
                    let better = match best {
                        None => true,
                        Some(b) => match found[b] {
                            None => true,
                            Some(e) => d < e || (d == e && s < b),
                        },
                    };
                    if better {
                        best = Some(s);
                    }
                }
            }
            i = i + 1;
        }
        best
    }

    /// The first edge from `v` to a node at this distance.
    fn first_edge_at(&self, v: usize, found: &Vec<Option<usize>>, level: usize) -> (r: usize)
        requires
            self@.wf(),
            v < self@.nodes.len(),
            found@.len() == self@.nodes.len(),
            exists|w: int| #[trigger] self@.edge(v as int, w) && found@[w] == Some(level),
        ensures
            self@.edge(v as int, r as int),
            found@[r as int] == Some(level),
            forall|w: int| #[trigger]
                self@.edge(v as int, w) && found@[w] == Some(level) ==> r <= w,
    {
        let ghost targets = self@.outgoing[v as int];
        let edges = self.outgoing[v].items();
        assert(targets == edges.deep_view());
        assert(ascending::<EvidenceId>(targets));
        let mut i: usize = 0;
        while i < edges.len()
            invariant
                i <= edges.len(),
                self@.wf(),
                v < self@.nodes.len(),
                found@.len() == self@.nodes.len(),
                targets == edges.deep_view(),
                targets == self@.outgoing[v as int],
                ascending::<EvidenceId>(targets),
                forall|j: int|
                    0 <= j < i ==> (#[trigger] targets[j]).0 >= found@.len() || found@[targets[j].0
                        as int] != Some(level),
            decreases edges.len() - i,
        {
            let w = edges[i].index();
            assert(targets[i as int] == edges@[i as int]);
            if w < found.len() && found[w].is_some() && found[w].unwrap() == level {
                assert(targets.contains(EvidenceId(w as u32)));
                assert forall|u: int| #[trigger]
                    self@.edge(v as int, u) && found@[u] == Some(level) implies w <= u by {
                    let j = choose|j: int|
                        0 <= j < targets.len() && targets[j] == EvidenceId(u as u32);
                    assert(targets[j].0 == u);
                    if j > i {
                        assert(<EvidenceId as Ordered>::before(targets[i as int], targets[j]));
                    }
                }
                return w;
            }
            i = i + 1;
        }
        proof {
            let w = choose|w: int| #[trigger]
                self@.edge(v as int, w) && found@[w] == Some(level);
            let j = choose|j: int| 0 <= j < targets.len() && targets[j] == EvidenceId(w as u32);
            assert(targets[j].0 == w);
        }
        0
    }

    /// The nodes from a source to `target` along the shortest path; of several shortest paths,
    /// along the first in the order of identifiers. Empty when nothing leads to `target`.
    ///
    /// An edge to an identifier that no node has leads nowhere.
    #[must_use]
    pub fn shortest_path(&self, sources: &Vec<EvidenceId>, target: EvidenceId) -> (r: Vec<
        EvidenceNode,
    >)
        requires
            self@.wf(),
        ensures
            r.deep_view().len() > 0 ==> exists|path: Seq<int>| #[trigger]
                self@.best_path(sources@, target.0 as int, path) && r.deep_view()
                    == self@.nodes_along(path),
            r.deep_view().len() == 0 ==> forall|path: Seq<int>|
                !#[trigger] self@.path(sources@, target.0 as int, path),
    {
        let ghost g = self@;
        let goal = target.index();
        if goal >= self.nodes.len() {
            let none: Vec<EvidenceNode> = Vec::new();
            return none;
        }
        let found = self.distances(goal);
        let start = match self.nearest_source(sources, &found) {
            Some(start) => start,
            None => {
                let none: Vec<EvidenceNode> = Vec::new();
                proof {
                    assert forall|path: Seq<int>| !#[trigger] g.path(sources@, goal as int, path) by {
                        if g.path(sources@, goal as int, path) {
                            rest_of_path_walks(g, sources@, goal as int, path, 0);
                            let i = choose|i: int|
                                0 <= i < sources@.len() && sources@[i] == EvidenceId(
                                    path[0] as u32,
                                );
                            assert(sources@[i].0 == path[0]);
                        }
                    }
                }
                return none;
            },
        };
        let total: usize = found[start].unwrap();
        let mut left: usize = total;
        let mut current: usize = start;
        let ghost mut path: Seq<int> = seq![start as int];
        let mut nodes: Vec<EvidenceNode> = Vec::new();
        push_item(&mut nodes, self.nodes[current].replicate());
        assert(nodes.deep_view() =~= g.nodes_along(path));
        while left > 0
            invariant
                g == self@,
                g.wf(),
                goal < g.nodes.len(),
                fully_measured(g, goal as int, found@),
                left <= total,
                current < g.nodes.len(),
                found@[current as int] == Some(left),
                path.len() == total - left + 1,
                path[0] == start,
                path.last() == current,
                nodes.deep_view() == g.nodes_along(path),
                forall|i: int| 0 <= i < path.len() ==> 0 <= #[trigger] path[i] < g.nodes.len()
                    && found@[path[i]] == Some((total - i) as usize),
                forall|i: int|
                    0 <= i < path.len() - 1 ==> g.edge(#[trigger] path[i], path[i + 1]),
                forall|i: int, w: int|
                    0 <= i < path.len() - 1 && #[trigger] g.edge(path[i], w) && found@[w] == Some(
                        (total - i - 1) as usize,
                    ) ==> path[i + 1] <= w,
            decreases left,
        {
            proof {
                let v = current as int;
                assert(g.distance(v, goal as int, left as nat));
                let w = choose|w: int| #[trigger]
                    g.edge(v, w) && g.walk(w, goal as int, (left - 1) as nat);
                match found@[w] {
                    None => {
                        assert(!g.walk(w, goal as int, (left - 1) as nat));
                    },
                    Some(m) => {
                        assert(g.distance(w, goal as int, m as nat));
                        assert(g.walk(v, goal as int, (m + 1) as nat));
                        assert(m + 1 >= left);
                        assert(m <= left - 1);
                    },
                }
                assert(g.edge(v, w) && found@[w] == Some((left - 1) as usize));
            }
            let next = self.first_edge_at(current, &found, left - 1);
            let ghost longer = path.push(next as int);
            proof {
                assert forall|i: int| 0 <= i < longer.len() implies 0 <= #[trigger] longer[i]
                    < g.nodes.len() && found@[longer[i]] == Some((total - i) as usize) by {
                    if i < path.len() {
                        assert(longer[i] == path[i]);
                    }
                }
                assert forall|i: int| 0 <= i < longer.len() - 1 implies g.edge(
                    #[trigger] longer[i],
                    longer[i + 1],
                ) by {
                    assert(longer[i] == path[i]);
                }
                assert forall|i: int, w: int|
                    0 <= i < longer.len() - 1 && #[trigger] g.edge(longer[i], w) && found@[w]
                        == Some((total - i - 1) as usize) implies longer[i + 1] <= w by {
                    assert(longer[i] == path[i]);
                    if i < path.len() - 1 {
                        assert(g.edge(path[i], w));
                    }
                }
            }
            push_item(&mut nodes, self.nodes[next].replicate());
            assert(nodes.deep_view() =~= g.nodes_along(longer));
            current = next;
            left = left - 1;
            proof {
                path = longer;
            }
        }
        proof {
            assert(g.distance(current as int, goal as int, 0));
            assert(g.walk(current as int, goal as int, 0));
            assert(path.last() == goal);
            assert(sources@.contains(EvidenceId(path[0] as u32)));
            assert(g.path(sources@, goal as int, path));
            assert forall|other: Seq<int>| #[trigger]
                g.path(sources@, goal as int, other) implies path.len() <= other.len() && (
            path.len() == other.len() ==> path == other || first_before(path, other)) by {
                shortest_and_first(g, sources@, goal as int, found@, path, other, total as nat);
            }
            assert(g.best_path(sources@, goal as int, path));
        }
        nodes
    }
}

/// A path that goes one step nearer each time, to the first such node, comes before every other.
proof fn shortest_and_first(
    g: EvidenceGraphModel,
    sources: Seq<EvidenceId>,
    goal: int,
    found: Seq<Option<usize>>,
    path: Seq<int>,
    other: Seq<int>,
    total: nat,
)
    requires
        g.wf(),
        fully_measured(g, goal, found),
        g.path(sources, goal, path),
        g.path(sources, goal, other),
        path.len() == total + 1,
        forall|i: int|
            0 <= i < path.len() ==> 0 <= #[trigger] path[i] < g.nodes.len() && found[path[i]]
                == Some((total - i) as usize),
        total <= usize::MAX,
        forall|i: int, w: int|
            0 <= i < path.len() - 1 && #[trigger] g.edge(path[i], w) && found[w] == Some(
                (total - i - 1) as usize,
            ) ==> path[i + 1] <= w,
        forall|i: int|
            0 <= i < sources.len() && (#[trigger] sources[i]).0 < found.len()
                && found[sources[i].0 as int] is Some ==> found[path[0]]->0
                < found[sources[i].0 as int]->0 || (found[path[0]]->0
                == found[sources[i].0 as int]->0 && path[0] <= sources[i].0),
    ensures
        path.len() <= other.len(),
        path.len() == other.len() ==> path == other || first_before(path, other),
{
    rest_of_path_walks(g, sources, goal, other, 0);
    let s = choose|s: int| 0 <= s < sources.len() && sources[s] == EvidenceId(other[0] as u32);
    assert(sources[s].0 == other[0]);
    let d = found[other[0]];
    assert(d is Some) by {
        if d is None {
            assert(!g.walk(other[0], goal, (other.len() - 1) as nat));
        }
    }
    assert(g.distance(other[0], goal, d->0 as nat));
    assert(d->0 <= other.len() - 1);
    assert(found[path[0]] == Some((total - 0) as usize));
    if path.len() == other.len() && path != other {
        let k = first_difference(path, other);
        if k == 0 {
            assert(path[0] < other[0]);
        } else {
            assert(path.take(k)[k - 1] == other.take(k)[k - 1]);
            assert(g.edge(other[k - 1], other[k]));
            rest_of_path_walks(g, sources, goal, other, k);
            let m = found[other[k]];
            assert(m is Some) by {
                if m is None {
                    assert(!g.walk(other[k], goal, (other.len() - 1 - k) as nat));
                }
            }
            assert(g.distance(other[k], goal, m->0 as nat));
            assert(m->0 <= total - k);
            start_of_path_walks(g, sources, goal, other, k, m->0 as nat);
            assert(d->0 <= k + m->0);
            assert(m->0 == total - k);
            assert(g.edge(path[k - 1], other[k]));
            assert(path[k - 1 + 1] <= other[k]);
        }
        assert(path[k] < other[k]);
    }
}

} // verus!
