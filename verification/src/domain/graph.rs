//! What can be reached along edges.

use crate::values::{push_item, Value};
use vstd::prelude::*;

verus! {

/// Whether `n` steps or fewer lead from `a` to `b`.
pub open spec fn leads<S>(step: spec_fn(S, S) -> bool, a: S, b: S, n: nat) -> bool
    decreases n,
{
    a == b || (n > 0 && exists|c: S| leads(step, a, c, (n - 1) as nat) && #[trigger] step(c, b))
}

/// Whether steps lead from `a` to `b`.
pub open spec fn reaches<S>(step: spec_fn(S, S) -> bool, a: S, b: S) -> bool {
    exists|n: nat| leads(step, a, b, n)
}

/// Everything reaches itself.
pub proof fn reaches_itself<S>(step: spec_fn(S, S) -> bool, a: S)
    ensures
        reaches(step, a, a),
{
    assert(leads(step, a, a, 0));
}

/// One more step reaches further.
pub proof fn reaches_further<S>(step: spec_fn(S, S) -> bool, a: S, b: S, c: S)
    requires
        reaches(step, a, b),
        step(b, c),
    ensures
        reaches(step, a, c),
{
    let n = choose|n: nat| leads(step, a, b, n);
    assert(leads(step, a, b, ((n + 1) - 1) as nat));
    assert(leads(step, a, c, n + 1));
}

proof fn led_stays_inside<S>(
    step: spec_fn(S, S) -> bool,
    inside: spec_fn(S) -> bool,
    a: S,
    b: S,
    n: nat,
)
    requires
        inside(a),
        forall|x: S, y: S| #[trigger] inside(x) && #[trigger] step(x, y) ==> inside(y),
        leads(step, a, b, n),
    ensures
        inside(b),
    decreases n,
{
    if a != b {
        let c = choose|c: S| leads(step, a, c, (n - 1) as nat) && #[trigger] step(c, b);
        led_stays_inside(step, inside, a, c, (n - 1) as nat);
    }
}

/// What no step leaves holds all that its members reach.
pub proof fn reached_stays_inside<S>(
    step: spec_fn(S, S) -> bool,
    inside: spec_fn(S) -> bool,
    a: S,
    b: S,
)
    requires
        inside(a),
        forall|x: S, y: S| #[trigger] inside(x) && #[trigger] step(x, y) ==> inside(y),
        reaches(step, a, b),
    ensures
        inside(b),
{
    let n = choose|n: nat| leads(step, a, b, n);
    led_stays_inside(step, inside, a, b, n);
}

/// How many of the flags are not set.
pub open spec fn unset(flags: Seq<bool>) -> nat
    decreases flags.len(),
{
    if flags.len() == 0 {
        0
    } else {
        unset(flags.drop_last()) + if flags.last() {
            0nat
        } else {
            1nat
        }
    }
}

/// Setting a flag leaves one less unset.
pub proof fn setting_counts(flags: Seq<bool>, i: int)
    requires
        0 <= i < flags.len(),
        !flags[i],
    ensures
        unset(flags.update(i, true)) + 1 == unset(flags),
    decreases flags.len(),
{
    let updated = flags.update(i, true);
    if i == flags.len() - 1 {
        assert(updated.drop_last() =~= flags.drop_last());
    } else {
        assert(updated.drop_last() =~= flags.drop_last().update(i, true));
        setting_counts(flags.drop_last(), i);
    }
}

/// Along which edges a file uses another.
pub open spec fn uses(edges: Seq<(usize, usize)>) -> spec_fn(usize, usize) -> bool {
    |a: usize, b: usize| edges.contains((a, b))
}

/// Whether a file can be reached from one of the entries.
pub open spec fn reached_from(
    edges: Seq<(usize, usize)>,
    entries: Seq<usize>,
    file: usize,
) -> bool {
    exists|i: int| 0 <= i < entries.len() && reaches(uses(edges), #[trigger] entries[i], file)
}

fn neighbours(count: usize, edges: &Vec<(usize, usize)>) -> (r: Vec<Vec<usize>>)
    requires
        forall|i: int| 0 <= i < edges@.len() ==> (#[trigger] edges@[i]).0 < count,
    ensures
        r@.len() == count,
        forall|a: usize, b: usize|
            a < count ==> (#[trigger] r@[a as int]@.contains(b) <==> edges@.contains((a, b))),
{
    let mut lists: Vec<Vec<usize>> = Vec::new();
    let mut k: usize = 0;
    while k < count
        invariant
            k <= count,
            lists@.len() == k,
            forall|a: int| 0 <= a < k ==> (#[trigger] lists@[a])@ == Seq::<usize>::empty(),
        decreases count - k,
    {
        lists.push(Vec::new());
        k = k + 1;
    }
    let mut i: usize = 0;
    while i < edges.len()
        invariant
            i <= edges.len(),
            lists@.len() == count,
            forall|j: int| 0 <= j < edges@.len() ==> (#[trigger] edges@[j]).0 < count,
            forall|a: usize, b: usize|
                a < count ==> (#[trigger] lists@[a as int]@.contains(b) <==> edges@.take(
                    i as int,
                ).contains((a, b))),
        decreases edges.len() - i,
    {
        let ghost before = lists@;
        let ghost seen = edges@.take(i as int);
        let ghost now = edges@.take(i + 1);
        let from: usize = edges[i].0;
        let to: usize = edges[i].1;
        let mut own: Vec<usize> = lists[from].replicate();
        assert(own@ =~= own.deep_view());
        assert(lists@[from as int].deep_view() =~= lists@[from as int]@);
        own.push(to);
        lists.set(from, own);
        proof {
            assert(now =~= seen.push((from, to)));
            assert forall|a: usize, b: usize| a < count implies (
            #[trigger] lists@[a as int]@.contains(b) <==> now.contains((a, b))) by {
                let held = before[a as int]@;
                assert(held.contains(b) <==> seen.contains((a, b)));
                if now.contains((a, b)) {
                    let m = choose|m: int| 0 <= m < now.len() && now[m] == (a, b);
                    if m < i {
                        assert(seen[m] == (a, b));
                    } else {
                        assert(own@[own@.len() - 1] == to);
                    }
                    if a == from && seen.contains((a, b)) {
                        let q = choose|q: int| 0 <= q < held.len() && held[q] == b;
                        assert(own@[q] == b);
                    }
                }
                if lists@[a as int]@.contains(b) {
                    if a == from {
                        let q = choose|q: int| 0 <= q < own@.len() && own@[q] == b;
                        if q < held.len() {
                            assert(held[q] == b);
                            let m = choose|m: int| 0 <= m < seen.len() && seen[m] == (a, b);
                            assert(now[m] == (a, b));
                        } else {
                            assert(now[i as int] == (a, b));
                        }
                    } else {
                        let m = choose|m: int| 0 <= m < seen.len() && seen[m] == (a, b);
                        assert(now[m] == (a, b));
                    }
                }
            }
        }
        i = i + 1;
    }
    assert(edges@.take(i as int) =~= edges@);
    lists
}

/// Which of `count` files can be reached from the entries.
#[must_use]
pub fn reachable_from_many(
    count: usize,
    edges: &Vec<(usize, usize)>,
    entries: &Vec<usize>,
) -> (r: Vec<bool>)
    requires
        forall|i: int|
            0 <= i < edges@.len() ==> (#[trigger] edges@[i]).0 < count && edges@[i].1 < count,
        forall|i: int| 0 <= i < entries@.len() ==> #[trigger] entries@[i] < count,
    ensures
        r@.len() == count,
        forall|file: int|
            0 <= file < count ==> #[trigger] r@[file] == reached_from(
                edges@,
                entries@,
                file as usize,
            ),
{
    let lists: Vec<Vec<usize>> = neighbours(count, edges);
    let ghost step = uses(edges@);
    let mut reached: Vec<bool> = Vec::new();
    let mut k: usize = 0;
    while k < count
        invariant
            k <= count,
            reached@.len() == k,
            forall|a: int| 0 <= a < k ==> !#[trigger] reached@[a],
        decreases count - k,
    {
        reached.push(false);
        k = k + 1;
    }
    let mut pending: Vec<usize> = Vec::new();
    let mut e: usize = 0;
    while e < entries.len()
        invariant
            e <= entries.len(),
            pending@ == entries@.take(e as int),
        decreases entries.len() - e,
    {
        assert(entries@.take(e + 1) =~= entries@.take(e as int).push(entries@[e as int]));
        pending.push(entries[e]);
        e = e + 1;
    }
    assert(entries@.take(e as int) =~= entries@);
    proof {
        assert forall|i: int| 0 <= i < pending@.len() implies reached_from(
            edges@,
            entries@,
            #[trigger] pending@[i],
        ) by {
            reaches_itself(step, entries@[i]);
        }
    }
    while pending.len() > 0
        invariant
            lists@.len() == count,
            reached@.len() == count,
            step == uses(edges@),
            forall|a: usize, b: usize|
                a < count ==> (#[trigger] lists@[a as int]@.contains(b) <==> edges@.contains(
                    (a, b),
                )),
            forall|i: int|
                0 <= i < edges@.len() ==> (#[trigger] edges@[i]).0 < count && edges@[i].1 < count,
            forall|i: int|
                0 <= i < pending@.len() ==> #[trigger] pending@[i] < count && reached_from(
                    edges@,
                    entries@,
                    pending@[i],
                ),
            forall|a: int|
                0 <= a < count && #[trigger] reached@[a] ==> reached_from(
                    edges@,
                    entries@,
                    a as usize,
                ),
            forall|i: int|
                0 <= i < entries@.len() ==> #[trigger] entries@[i] < count && (
                reached@[entries@[i] as int] || pending@.contains(entries@[i])),
            forall|a: usize, b: usize|
                a < count && reached@[a as int] && #[trigger] edges@.contains((a, b)) ==> b < count
                    && (reached@[b as int] || pending@.contains(b)),
        decreases unset(reached@), pending.len(),
    {
        let ghost before = pending@;
        let ghost flags = reached@;
        let file: usize = pending.pop().unwrap();
        proof {
            assert(before =~= pending@.push(file));
            assert(before[before.len() - 1] == file);
            assert forall|x: usize| before.contains(x) && x != file implies pending@.contains(x) by {
                let i = choose|i: int| 0 <= i < before.len() && before[i] == x;
                assert(pending@[i] == x);
            }
            assert forall|i: int| 0 <= i < pending@.len() implies #[trigger] pending@[i] < count
                && reached_from(edges@, entries@, pending@[i]) by {
                assert(before[i] == pending@[i]);
            }
        }
        if !reached[file] {
            reached.set(file, true);
            proof {
                setting_counts(flags, file as int);
            }
            let ghost left = pending@;
            let mut i: usize = 0;
            while i < lists[file].len()
                invariant
                    file < count,
                    lists@.len() == count,
                    i <= lists@[file as int]@.len(),
                    pending@ == left + lists@[file as int]@.take(i as int),
                decreases lists@[file as int]@.len() - i,
            {
                let ghost own = lists@[file as int]@;
                assert(own.take(i + 1) =~= own.take(i as int).push(own[i as int]));
                pending.push(lists[file][i]);
                i = i + 1;
            }
            let ghost own = lists@[file as int]@;
            assert(own.take(i as int) =~= own);
            proof {
                assert forall|x: usize| left.contains(x) implies pending@.contains(x) by {
                    let j = choose|j: int| 0 <= j < left.len() && left[j] == x;
                    assert(pending@[j] == x);
                }
                assert forall|j: int| 0 <= j < pending@.len() implies #[trigger] pending@[j] < count
                    && reached_from(edges@, entries@, pending@[j]) by {
                    if j < left.len() {
                        assert(pending@[j] == left[j]);
                    } else {
                        let to = own[j - left.len()];
                        assert(pending@[j] == to);
                        assert(own.contains(to));
                        assert(edges@.contains((file, to)));
                        let q = choose|q: int| 0 <= q < edges@.len() && edges@[q] == (file, to);
                        assert(edges@[q].1 < count);
                        let s = choose|s: int|
                            0 <= s < entries@.len() && reaches(
                                uses(edges@),
                                #[trigger] entries@[s],
                                file,
                            );
                        reaches_further(step, entries@[s], file, to);
                    }
                }
                assert forall|a: usize, b: usize|
                    a < count && reached@[a as int] && #[trigger] edges@.contains((a, b)) implies b
                    < count && (reached@[b as int] || pending@.contains(b)) by {
                    if a == file {
                        assert(lists@[a as int]@.contains(b));
                        let j = choose|j: int| 0 <= j < own.len() && own[j] == b;
                        assert(pending@[left.len() + j] == b);
                        let q = choose|q: int| 0 <= q < edges@.len() && edges@[q] == (a, b);
                        assert(edges@[q].1 < count);
                    } else {
                        assert(flags[a as int]);
                    }
                }
            }
        }
    }
    proof {
        let inside = |x: usize| x < count && reached@[x as int];
        assert forall|file: int| 0 <= file < count implies #[trigger] reached@[file]
            == reached_from(edges@, entries@, file as usize) by {
            if reached_from(edges@, entries@, file as usize) {
                let s = choose|s: int|
                    0 <= s < entries@.len() && reaches(
                        uses(edges@),
                        #[trigger] entries@[s],
                        file as usize,
                    );
                assert(inside(entries@[s]));
                reached_stays_inside(step, inside, entries@[s], file as usize);
            }
        }
    }
    reached
}

/// The edges between files that are set in `included`.
pub open spec fn inner_edges(edges: Seq<(usize, usize)>, included: Seq<bool>) -> Seq<
    (usize, usize),
>
    decreases edges.len(),
{
    if edges.len() == 0 {
        Seq::empty()
    } else {
        let rest = inner_edges(edges.drop_last(), included);
        let last = edges.last();
        if included[last.0 as int] && included[last.1 as int] {
            rest.push(last)
        } else {
            rest
        }
    }
}

/// Whether two files reach each other along edges between included files.
pub open spec fn together(
    edges: Seq<(usize, usize)>,
    included: Seq<bool>,
    a: usize,
    b: usize,
) -> bool {
    reaches(uses(inner_edges(edges, included)), a, b) && reaches(
        uses(inner_edges(edges, included)),
        b,
        a,
    )
}

/// The included files among the first `n` that `file` is together with.
pub open spec fn component_of(
    edges: Seq<(usize, usize)>,
    included: Seq<bool>,
    file: usize,
    n: nat,
) -> Seq<usize>
    decreases n,
{
    if n == 0 {
        Seq::empty()
    } else {
        let rest = component_of(edges, included, file, (n - 1) as nat);
        if included[n - 1] && together(edges, included, file, (n - 1) as usize) {
            rest.push((n - 1) as usize)
        } else {
            rest
        }
    }
}

/// The groups of included files that reach each other, by their first file among the
/// first `n`. A file that no other reaches back is a group of its own.
pub open spec fn components(
    edges: Seq<(usize, usize)>,
    included: Seq<bool>,
    n: nat,
) -> Seq<Seq<usize>>
    decreases n,
{
    if n == 0 {
        Seq::empty()
    } else {
        let rest = components(edges, included, (n - 1) as nat);
        let file = (n - 1) as usize;
        if included[n - 1] && component_of(edges, included, file, (n - 1) as nat).len() == 0 {
            rest.push(component_of(edges, included, file, included.len()))
        } else {
            rest
        }
    }
}

fn find_inner_edges(edges: &Vec<(usize, usize)>, included: &Vec<bool>) -> (r: Vec<(usize, usize)>)
    requires
        forall|i: int|
            0 <= i < edges@.len() ==> (#[trigger] edges@[i]).0 < included@.len() && edges@[i].1
                < included@.len(),
    ensures
        r@ == inner_edges(edges@, included@),
        forall|i: int|
            0 <= i < r@.len() ==> (#[trigger] r@[i]).0 < included@.len() && r@[i].1
                < included@.len(),
{
    let mut inner: Vec<(usize, usize)> = Vec::new();
    let mut i: usize = 0;
    while i < edges.len()
        invariant
            i <= edges.len(),
            forall|k: int|
                0 <= k < edges@.len() ==> (#[trigger] edges@[k]).0 < included@.len() && edges@[k].1
                    < included@.len(),
            inner@ == inner_edges(edges@.take(i as int), included@),
            forall|k: int|
                0 <= k < inner@.len() ==> (#[trigger] inner@[k]).0 < included@.len() && inner@[k].1
                    < included@.len(),
        decreases edges.len() - i,
    {
        proof {
            assert(edges@.take(i + 1).drop_last() =~= edges@.take(i as int));
        }
        let edge: (usize, usize) = edges[i];
        if included[edge.0] && included[edge.1] {
            inner.push(edge);
        }
        i = i + 1;
    }
    assert(edges@.take(i as int) =~= edges@);
    inner
}

spec fn is_row(
    step: spec_fn(usize, usize) -> bool,
    count: usize,
    row: Seq<bool>,
    a: usize,
) -> bool {
    row.len() == count && forall|b: int|
        0 <= b < count ==> #[trigger] row[b] == reaches(step, a, b as usize)
}

/// The groups of included files that reach each other.
#[must_use]
pub fn components_within(edges: &Vec<(usize, usize)>, included: &Vec<bool>) -> (r: Vec<Vec<usize>>)
    requires
        forall|i: int|
            0 <= i < edges@.len() ==> (#[trigger] edges@[i]).0 < included@.len() && edges@[i].1
                < included@.len(),
    ensures
        r.deep_view() == components(edges@, included@, included@.len()),
{
    let inner: Vec<(usize, usize)> = find_inner_edges(edges, included);
    let count: usize = included.len();
    let ghost step = uses(inner@);
    let mut reach: Vec<Vec<bool>> = Vec::new();
    let mut k: usize = 0;
    while k < count
        invariant
            k <= count,
            count == included.len(),
            step == uses(inner@),
            reach@.len() == k,
            forall|i: int|
                0 <= i < inner@.len() ==> (#[trigger] inner@[i]).0 < count && inner@[i].1 < count,
            forall|a: int|
                0 <= a < k && included@[a] ==> is_row(
                    step,
                    count,
                    (#[trigger] reach@[a])@,
                    a as usize,
                ),
        decreases count - k,
    {
        let mut row: Vec<bool> = Vec::new();
        if included[k] {
            let mut start: Vec<usize> = Vec::new();
            start.push(k);
            row = reachable_from_many(count, &inner, &start);
            proof {
                assert forall|b: int| 0 <= b < count implies #[trigger] row@[b] == reaches(
                    step,
                    k,
                    b as usize,
                ) by {
                    if reaches(step, k, b as usize) {
                        assert(reaches(uses(inner@), start@[0], b as usize));
                    }
                }
                assert(is_row(step, count, row@, k));
            }
        }
        reach.push(row);
        k = k + 1;
    }
    let mut groups: Vec<Vec<usize>> = Vec::new();
    let mut n: usize = 0;
    while n < count
        invariant
            n <= count,
            count == included.len(),
            reach@.len() == count,
            step == uses(inner@),
            inner@ == inner_edges(edges@, included@),
            forall|a: int|
                0 <= a < count && included@[a] ==> is_row(
                    step,
                    count,
                    (#[trigger] reach@[a])@,
                    a as usize,
                ),
            groups.deep_view() =~= components(edges@, included@, n as nat),
        decreases count - n,
    {
        if included[n] {
            let mut members: Vec<usize> = Vec::new();
            let mut first: bool = true;
            let mut m: usize = 0;
            while m < count
                invariant
                    m <= count,
                    n < count,
                    count == included.len(),
                    included@[n as int],
                    reach@.len() == count,
                    step == uses(inner@),
                    inner@ == inner_edges(edges@, included@),
                    forall|a: int|
                0 <= a < count && included@[a] ==> is_row(
                    step,
                    count,
                    (#[trigger] reach@[a])@,
                    a as usize,
                ),
                    members.deep_view() =~= component_of(edges@, included@, n, m as nat),
                    m <= n ==> first == (component_of(edges@, included@, n, m as nat).len() == 0),
                    m > n ==> first == (component_of(edges@, included@, n, n as nat).len() == 0),
                decreases count - m,
            {
                if included[m] {
                    assert(is_row(step, count, reach@[n as int]@, n));
                    assert(is_row(step, count, reach@[m as int]@, m));
                    assert(reach@[n as int]@[m as int] == reaches(step, n, m));
                    assert(reach@[m as int]@[n as int] == reaches(step, m, n));
                    if reach[n][m] && reach[m][n] {
                        push_item(&mut members, m);
                        if m < n {
                            first = false;
                        }
                    }
                }
                m = m + 1;
            }
            if first {
                push_item(&mut groups, members);
            }
        }
        n = n + 1;
    }
    groups
}

/// What is reached from what is reached is reached.
pub proof fn reaches_is_transitive<S>(step: spec_fn(S, S) -> bool, a: S, b: S, c: S)
    requires
        reaches(step, a, b),
        reaches(step, b, c),
    ensures
        reaches(step, a, c),
{
    let inside = |x: S| reaches(step, a, x);
    assert forall|x: S, y: S| #[trigger] inside(x) && #[trigger] step(x, y) implies inside(y) by {
        reaches_further(step, a, x, y);
    }
    reached_stays_inside(step, inside, b, c);
}

proof fn component_holds(
    edges: Seq<(usize, usize)>,
    included: Seq<bool>,
    file: usize,
    n: nat,
)
    requires
        n <= included.len(),
        included.len() <= usize::MAX,
    ensures
        forall|k: int|
            0 <= k < component_of(edges, included, file, n).len() ==> {
                let m = #[trigger] component_of(edges, included, file, n)[k];
                m < n && included[m as int] && together(edges, included, file, m)
            },
        forall|m: usize|
            m < n && included[m as int] && #[trigger] together(edges, included, file, m)
                ==> component_of(edges, included, file, n).contains(m),
    decreases n,
{
    if n > 0 {
        component_holds(edges, included, file, (n - 1) as nat);
        let rest = component_of(edges, included, file, (n - 1) as nat);
        let all = component_of(edges, included, file, n);
        assert forall|k: int| 0 <= k < all.len() implies {
            let m = #[trigger] all[k];
            m < n && included[m as int] && together(edges, included, file, m)
        } by {
            if k < rest.len() {
                assert(all[k] == rest[k]);
            }
        }
        assert forall|m: usize|
            m < n && included[m as int] && #[trigger] together(
                edges,
                included,
                file,
                m,
            ) implies all.contains(m) by {
            if m < n - 1 {
                assert(rest.contains(m));
                let k = choose|k: int| 0 <= k < rest.len() && rest[k] == m;
                assert(all[k] == m);
            } else {
                assert(all[all.len() - 1] == m);
            }
        }
    }
}

/// A group is never empty, and its files are included ones that reach each other.
pub proof fn components_hold_included_files(
    edges: Seq<(usize, usize)>,
    included: Seq<bool>,
    n: nat,
)
    requires
        n <= included.len(),
        included.len() <= usize::MAX,
    ensures
        forall|g: int|
            0 <= g < components(edges, included, n).len() ==> (#[trigger] components(
                edges,
                included,
                n,
            )[g]).len() > 0,
        forall|g: int, k: int|
            0 <= g < components(edges, included, n).len() && 0 <= k < components(
                edges,
                included,
                n,
            )[g].len() ==> {
                let m = #[trigger] components(edges, included, n)[g][k];
                m < included.len() && included[m as int]
            },
    decreases n,
{
    if n > 0 {
        components_hold_included_files(edges, included, (n - 1) as nat);
        let rest = components(edges, included, (n - 1) as nat);
        let all = components(edges, included, n);
        let file = (n - 1) as usize;
        component_holds(edges, included, file, included.len());
        let own = component_of(edges, included, file, included.len());
        if included[n - 1] {
            reaches_itself(uses(inner_edges(edges, included)), file);
            assert(together(edges, included, file, file));
            assert(own.contains(file));
        }
        assert forall|g: int| 0 <= g < all.len() implies (#[trigger] all[g]).len() > 0 by {
            if g < rest.len() {
                assert(all[g] == rest[g]);
            }
        }
        assert forall|g: int, k: int|
            0 <= g < all.len() && 0 <= k < all[g].len() implies ({
            let m = #[trigger] all[g][k];
            m < included.len() && included[m as int]
        }) by {
            if g < rest.len() {
                assert(all[g] == rest[g]);
                assert(rest[g][k] == all[g][k]);
            } else {
                assert(own[k] == all[g][k]);
            }
        }
    }
}

proof fn components_keep(
    edges: Seq<(usize, usize)>,
    included: Seq<bool>,
    m: nat,
    n: nat,
    group: Seq<usize>,
)
    requires
        m <= n,
        components(edges, included, m).contains(group),
    ensures
        components(edges, included, n).contains(group),
    decreases n,
{
    if m < n {
        components_keep(edges, included, m, (n - 1) as nat, group);
        let rest = components(edges, included, (n - 1) as nat);
        let k = choose|k: int| 0 <= k < rest.len() && rest[k] == group;
        assert(components(edges, included, n)[k] == group);
    }
}

/// Every included file is in a group.
pub proof fn every_included_file_has_a_component(
    edges: Seq<(usize, usize)>,
    included: Seq<bool>,
    file: usize,
)
    requires
        included.len() <= usize::MAX,
        file < included.len(),
        included[file as int],
    ensures
        exists|g: int|
            0 <= g < components(edges, included, included.len()).len() && (#[trigger] components(
                edges,
                included,
                included.len(),
            )[g]).contains(file),
{
    let step = uses(inner_edges(edges, included));
    let n = included.len();
    component_holds(edges, included, file, n);
    reaches_itself(step, file);
    assert(together(edges, included, file, file));
    let own = component_of(edges, included, file, n);
    assert(own.contains(file));
    let first = own[0];
    component_starts(edges, included, file, n);
    assert(component_of(edges, included, first, first as nat).len() == 0) by {
        component_holds(edges, included, first, first as nat);
        let earlier = component_of(edges, included, first, first as nat);
        if earlier.len() > 0 {
            let k = earlier[0];
            reaches_is_transitive(step, file, first, k);
            reaches_is_transitive(step, k, first, file);
            assert(together(edges, included, file, k));
            assert(own.contains(k));
        }
    }
    let group = component_of(edges, included, first, n);
    component_holds(edges, included, first, n);
    assert(together(edges, included, first, file));
    assert(group.contains(file));
    let at = components(edges, included, first as nat + 1);
    assert(at[at.len() - 1] == group);
    assert(at.contains(group));
    components_keep(edges, included, first as nat + 1, n, group);
    let all = components(edges, included, n);
    let g = choose|g: int| 0 <= g < all.len() && all[g] == group;
    assert(all[g].contains(file));
}

proof fn component_starts(
    edges: Seq<(usize, usize)>,
    included: Seq<bool>,
    file: usize,
    n: nat,
)
    requires
        n <= included.len(),
        included.len() <= usize::MAX,
    ensures
        ({
            let own = component_of(edges, included, file, n);
            forall|k: int| 0 <= k < own.len() ==> own[0] <= #[trigger] own[k]
        }),
    decreases n,
{
    if n > 0 {
        component_starts(edges, included, file, (n - 1) as nat);
        component_holds(edges, included, file, (n - 1) as nat);
        let rest = component_of(edges, included, file, (n - 1) as nat);
        let own = component_of(edges, included, file, n);
        assert forall|k: int| 0 <= k < own.len() implies own[0] <= #[trigger] own[k] by {
            if rest.len() > 0 {
                assert(own[0] == rest[0]);
                assert(rest[0] < n - 1);
                if k < rest.len() {
                    assert(own[k] == rest[k]);
                }
            }
        }
    }
}

} // verus!
