//! Which files a scan looks at, and from which it starts.

use crate::application::import_laws::told_apart;
use crate::application::resolution::PreparedFileModel;
use crate::application::scan::{
    display, entry_places, files_by_name, name_at, place_at, prepared_entries, prepared_files,
    source_path, CanonicalModel, ScanRequestModel, SuppliedPathModel,
};
use crate::collections::{
    ascending, keys_of, lookup, lookup_after_with_entry, lookup_finds, rank_of, rank_of_splits,
    with_entry, with_item_contains,
};
use crate::paths::PathPartModel;
use crate::values::Ordered;
use vstd::prelude::*;

verus! {

/// Whether the supplied path is that of an existing file at `place`, below the root.
pub open spec fn is_at(
    root: Seq<PathPartModel>,
    path: SuppliedPathModel,
    place: Seq<PathPartModel>,
) -> bool {
    path.canonical == CanonicalModel::Found(place) && root.is_prefix_of(place)
}

proof fn source_is_at(root: Seq<PathPartModel>, path: SuppliedPathModel)
    ensures
        match source_path(root, path) {
            Ok(place) => is_at(root, path, place),
            Err(_) => forall|place: Seq<PathPartModel>| !#[trigger] is_at(root, path, place),
        },
{
    match path.canonical {
        CanonicalModel::Found(place) => {
            if root.is_prefix_of(place) {
                assert(place.take(root.len() as int) =~= root);
            }
            if crate::paths::path_below(place, root) is Some {
                assert(root =~= place.subrange(0, root.len() as int));
            }
        },
        CanonicalModel::Missing(_) => {},
    }
}

spec fn holds_place(
    entries: Seq<(Seq<char>, Seq<PathPartModel>)>,
    place: Seq<PathPartModel>,
) -> bool {
    exists|k: int| 0 <= k < entries.len() && (#[trigger] entries[k]).1 == place
}

proof fn named_places(entries: Seq<(Seq<char>, Seq<PathPartModel>)>, place: Seq<PathPartModel>)
    ensures
        name_at(entries, place) is Some <==> holds_place(entries, place),
    decreases entries.len(),
{
    if entries.len() > 0 {
        let front = entries.drop_last();
        named_places(front, place);
        assert(entries[entries.len() - 1] == entries.last());
        if holds_place(front, place) {
            let k = choose|k: int| 0 <= k < front.len() && (#[trigger] front[k]).1 == place;
            assert(entries[k] == front[k]);
        }
        if holds_place(entries, place) && entries.last().1 != place {
            let k = choose|k: int| 0 <= k < entries.len() && (#[trigger] entries[k]).1 == place;
            assert(front[k] == entries[k]);
        }
    }
}

proof fn new_entry_is_inserted(
    s: Seq<(Seq<char>, Seq<PathPartModel>)>,
    k: Seq<char>,
    v: Seq<PathPartModel>,
)
    requires
        ascending::<String>(keys_of(s)),
        lookup(s, k) is None,
    ensures
        ({
            let r = with_entry::<String, Seq<PathPartModel>>(s, k, v);
            let i = rank_of::<String>(keys_of(s), k) as int;
            &&& 0 <= i <= s.len()
            &&& r == s.insert(i, (k, v))
        }),
{
    rank_of_splits::<String>(keys_of(s), k);
    lookup_finds(s, k);
    let i = rank_of::<String>(keys_of(s), k) as int;
    if i < s.len() && s[i].0 == k {
        assert(keys_of(s)[i] == k);
        assert(keys_of(s).contains(k));
    }
}

spec fn places_differ(entries: Seq<(Seq<char>, Seq<PathPartModel>)>) -> bool {
    forall|i: int, j: int|
        0 <= i < j < entries.len() ==> (#[trigger] entries[i]).1 != (#[trigger] entries[j]).1
}

proof fn files_are_those_supplied(items: Seq<SuppliedPathModel>, root: Seq<PathPartModel>)
    requires
        files_by_name(items, root) is Ok,
    ensures
        ({
            let entries = files_by_name(items, root)->Ok_0;
            &&& entries.len() == items.len()
            &&& ascending::<String>(keys_of(entries))
            &&& places_differ(entries)
            &&& forall|place: Seq<PathPartModel>| #[trigger]
                holds_place(entries, place) <==> exists|i: int|
                    0 <= i < items.len() && is_at(root, #[trigger] items[i], place)
            &&& forall|k: int|
                0 <= k < entries.len() ==> (#[trigger] entries[k]).0 == display(root, entries[k].1)
        }),
    decreases items.len(),
{
    if items.len() == 0 {
        assert(keys_of(files_by_name(items, root)->Ok_0) =~= Seq::empty());
    } else {
        let front = items.drop_last();
        let last = items.last();
        assert(files_by_name(front, root) is Ok);
        files_are_those_supplied(front, root);
        let rest = files_by_name(front, root)->Ok_0;
        let all = files_by_name(items, root)->Ok_0;
        source_is_at(root, last);
        let place = source_path(root, last)->Ok_0;
        let name = display(root, place);
        named_places(rest, place);
        new_entry_is_inserted(rest, name, place);
        lookup_after_with_entry::<String, Seq<PathPartModel>>(rest, name, place);
        let at = rank_of::<String>(keys_of(rest), name) as int;
        assert(all == rest.insert(at, (name, place)));
        assert forall|i: int| 0 <= i < at implies #[trigger] all[i] == rest[i] by {}
        assert forall|i: int| at < i < all.len() implies #[trigger] all[i] == rest[i - 1] by {}
        assert(all[at] == (name, place));
        assert forall|i: int, j: int| 0 <= i < j < all.len() implies (#[trigger] all[i]).1 != (
        #[trigger] all[j]).1 by {
            let a = if i < at {
                i
            } else {
                i - 1
            };
            let b = if j < at {
                j
            } else {
                j - 1
            };
            if i != at && j != at {
                assert(rest[a].1 != rest[b].1);
            } else if i == at {
                assert(rest[b].1 != place);
            } else {
                assert(rest[a].1 != place);
            }
        }
        assert forall|k: int| 0 <= k < all.len() implies (#[trigger] all[k]).0 == display(
            root,
            all[k].1,
        ) by {
            if k < at {
                assert(rest[k].0 == display(root, rest[k].1));
            } else if k > at {
                assert(rest[k - 1].0 == display(root, rest[k - 1].1));
            }
        }
        assert forall|p: Seq<PathPartModel>| #[trigger]
            holds_place(all, p) <==> exists|i: int|
                0 <= i < items.len() && is_at(root, #[trigger] items[i], p) by {
            assert(items[items.len() - 1] == last);
            if holds_place(all, p) {
                let k = choose|k: int| 0 <= k < all.len() && (#[trigger] all[k]).1 == p;
                if k == at {
                    assert(is_at(root, items[items.len() - 1], p));
                } else {
                    let q = if k < at {
                        k
                    } else {
                        k - 1
                    };
                    assert(rest[q].1 == p);
                    assert(holds_place(rest, p));
                    let i = choose|i: int|
                        0 <= i < front.len() && is_at(root, #[trigger] front[i], p);
                    assert(items[i] == front[i]);
                }
            }
            if exists|i: int| 0 <= i < items.len() && is_at(root, #[trigger] items[i], p) {
                let i = choose|i: int|
                    0 <= i < items.len() && is_at(root, #[trigger] items[i], p);
                if i < front.len() {
                    assert(front[i] == items[i]);
                    assert(holds_place(rest, p));
                    let k = choose|k: int| 0 <= k < rest.len() && (#[trigger] rest[k]).1 == p;
                    let q = if k < at {
                        k
                    } else {
                        k + 1
                    };
                    assert(all[q] == rest[k]);
                } else {
                    assert(p == place);
                    assert(all[at].1 == p);
                }
            }
        }
    }
}

/// Whether the place is that of one of the files.
pub open spec fn is_among(files: Seq<PreparedFileModel>, place: Seq<PathPartModel>) -> bool {
    exists|k: int| 0 <= k < files.len() && (#[trigger] files[k]).physical_path == place
}

/// A scan looks at the supplied files, all of them and no others, each once; no two of them are
/// called alike.
pub proof fn supplied_files_are_scanned(request: ScanRequestModel)
    requires
        prepared_files(request) is Ok,
        request.files.len() <= usize::MAX,
    ensures
        ({
            let files = prepared_files(request)->Ok_0;
            &&& files.len() == request.files.len()
            &&& told_apart(files)
            &&& forall|place: Seq<PathPartModel>| #[trigger]
                is_among(files, place) <==> exists|i: int|
                    0 <= i < request.files.len() && is_at(
                        request.root,
                        #[trigger] request.files[i],
                        place,
                    )
        }),
{
    files_are_those_supplied(request.files, request.root);
    let entries = files_by_name(request.files, request.root)->Ok_0;
    let files = prepared_files(request)->Ok_0;
    assert forall|k: int| 0 <= k < files.len() implies (#[trigger] files[k]).physical_path
        == entries[k].1 && files[k].display_path == entries[k].0 by {}
    assert forall|i: int, j: int| 0 <= i < j < files.len() implies (
    #[trigger] files[i]).physical_path != (#[trigger] files[j]).physical_path
        && files[i].display_path != files[j].display_path by {
        assert(entries[i].1 != entries[j].1);
        let keys = keys_of(entries);
        assert(keys[i] == entries[i].0 && keys[j] == entries[j].0);
        assert(<String as Ordered>::before(keys[i], keys[j]));
        <String as Ordered>::before_irreflexive(keys[i]);
    }
    assert forall|place: Seq<PathPartModel>| #[trigger]
        is_among(files, place) <==> exists|i: int|
            0 <= i < request.files.len() && is_at(
                request.root,
                #[trigger] request.files[i],
                place,
            ) by {
        assert(holds_place(entries, place) <==> is_among(files, place)) by {
            if holds_place(entries, place) {
                let k = choose|k: int| 0 <= k < entries.len() && (#[trigger] entries[k]).1 == place;
                assert(files[k].physical_path == place);
            }
            if is_among(files, place) {
                let k = choose|k: int|
                    0 <= k < files.len() && (#[trigger] files[k]).physical_path == place;
                assert(entries[k].1 == place);
            }
        }
    }
}

proof fn place_at_is(files: Seq<PreparedFileModel>, place: Seq<PathPartModel>)
    requires
        files.len() <= usize::MAX,
    ensures
        match place_at(files, place) {
            Some(k) => k < files.len() && files[k as int].physical_path == place,
            None => !is_among(files, place),
        },
    decreases files.len(),
{
    if files.len() > 0 {
        let front = files.drop_last();
        place_at_is(front, place);
        if is_among(files, place) && files.last().physical_path != place {
            let k = choose|k: int|
                0 <= k < files.len() && (#[trigger] files[k]).physical_path == place;
            assert(front[k] == files[k]);
        }
    }
}

proof fn entries_are_those_asked_for(
    items: Seq<SuppliedPathModel>,
    root: Seq<PathPartModel>,
    files: Seq<PreparedFileModel>,
)
    requires
        told_apart(files),
        entry_places(items, root, files) is Ok,
    ensures
        forall|e: usize| #[trigger]
            entry_places(items, root, files)->Ok_0.contains(e) <==> e < files.len() && exists|
                i: int,
            |
                0 <= i < items.len() && is_at(
                    root,
                    #[trigger] items[i],
                    files[e as int].physical_path,
                ),
    decreases items.len(),
{
    if items.len() > 0 {
        let front = items.drop_last();
        let last = items.last();
        assert(entry_places(front, root, files) is Ok);
        entries_are_those_asked_for(front, root, files);
        let rest = entry_places(front, root, files)->Ok_0;
        let all = entry_places(items, root, files)->Ok_0;
        source_is_at(root, last);
        let place = source_path(root, last)->Ok_0;
        place_at_is(files, place);
        let at = place_at(files, place)->0;
        with_item_contains::<usize>(rest, at);
        assert(items[items.len() - 1] == last);
        assert forall|e: usize| #[trigger] all.contains(e) <==> e < files.len() && exists|i: int|
            0 <= i < items.len() && is_at(
                root,
                #[trigger] items[i],
                files[e as int].physical_path,
            ) by {
            assert(all.contains(e) <==> rest.contains(e) || e == at);
            if rest.contains(e) {
                let i = choose|i: int|
                    0 <= i < front.len() && is_at(
                        root,
                        #[trigger] front[i],
                        files[e as int].physical_path,
                    );
                assert(items[i] == front[i]);
            }
            if e == at {
                assert(is_at(root, items[items.len() - 1], files[e as int].physical_path));
            }
            if e < files.len() && exists|i: int|
                0 <= i < items.len() && is_at(
                    root,
                    #[trigger] items[i],
                    files[e as int].physical_path,
                ) {
                let i = choose|i: int|
                    0 <= i < items.len() && is_at(
                        root,
                        #[trigger] items[i],
                        files[e as int].physical_path,
                    );
                if i < front.len() {
                    assert(front[i] == items[i]);
                    assert(rest.contains(e));
                } else {
                    assert(files[e as int].physical_path == place);
                    assert(files[at as int].physical_path == place);
                    assert(e == at);
                }
            }
        }
    }
}

/// A scan starts from the entries that it is asked to start from, and from no other file.
pub proof fn scans_start_from_the_entries(
    request: ScanRequestModel,
    files: Seq<PreparedFileModel>,
    e: usize,
)
    requires
        told_apart(files),
        prepared_entries(request, files) is Ok,
    ensures
        prepared_entries(request, files)->Ok_0.contains(e) <==> e < files.len() && exists|i: int|
            0 <= i < request.entries.len() && is_at(
                request.root,
                #[trigger] request.entries[i],
                files[e as int].physical_path,
            ),
{
    entries_are_those_asked_for(request.entries, request.root, files);
}

/// A scan takes on the files that are supplied where each of them exists below the root and no
/// two are the same or called alike; so it does the entries, where they are among the files and
/// none is given twice.
pub proof fn sound_requests_are_taken_on(request: ScanRequestModel)
    requires
        request.files.len() > 0,
        request.files.len() <= usize::MAX,
        forall|i: int|
            0 <= i < request.files.len() ==> (#[trigger] request.files[i]).canonical is Found
                && request.root.is_prefix_of(request.files[i].canonical->Found_0),
        forall|i: int, j: int|
            0 <= i < j < request.files.len() ==> (#[trigger] request.files[i]).canonical != (
            #[trigger] request.files[j]).canonical && display(
                request.root,
                request.files[i].canonical->Found_0,
            ) != display(request.root, request.files[j].canonical->Found_0),
    ensures
        prepared_files(request) is Ok,
{
    taken_on(request.files, request.root);
}

proof fn taken_on(items: Seq<SuppliedPathModel>, root: Seq<PathPartModel>)
    requires
        forall|i: int|
            0 <= i < items.len() ==> (#[trigger] items[i]).canonical is Found && root.is_prefix_of(
                items[i].canonical->Found_0,
            ),
        forall|i: int, j: int|
            0 <= i < j < items.len() ==> (#[trigger] items[i]).canonical != (
            #[trigger] items[j]).canonical && display(root, items[i].canonical->Found_0) != display(
                root,
                items[j].canonical->Found_0,
            ),
    ensures
        files_by_name(items, root) is Ok,
    decreases items.len(),
{
    if items.len() > 0 {
        let front = items.drop_last();
        let last = items.last();
        assert forall|i: int| 0 <= i < front.len() implies (#[trigger] front[i]).canonical is Found
            && root.is_prefix_of(front[i].canonical->Found_0) by {
            assert(items[i].canonical is Found);
        }
        assert forall|i: int, j: int| 0 <= i < j < front.len() implies (
        #[trigger] front[i]).canonical != (#[trigger] front[j]).canonical && display(
            root,
            front[i].canonical->Found_0,
        ) != display(root, front[j].canonical->Found_0) by {
            assert(items[i].canonical != items[j].canonical);
        }
        taken_on(front, root);
        files_are_those_supplied(front, root);
        let rest = files_by_name(front, root)->Ok_0;
        assert(items[items.len() - 1].canonical is Found);
        let place = last.canonical->Found_0;
        assert(is_at(root, last, place));
        source_is_at(root, last);
        named_places(rest, place);
        if holds_place(rest, place) {
            let i = choose|i: int| 0 <= i < front.len() && is_at(root, #[trigger] front[i], place);
            assert(items[i].canonical != items[items.len() - 1].canonical);
        }
        let name = display(root, place);
        lookup_finds(rest, name);
        if lookup(rest, name) is Some {
            let keys = keys_of(rest);
            let k = choose|k: int| 0 <= k < keys.len() && keys[k] == name;
            assert(rest[k].0 == name);
            assert(holds_place(rest, rest[k].1));
            let i = choose|i: int|
                0 <= i < front.len() && is_at(root, #[trigger] front[i], rest[k].1);
            assert(items[i].canonical != items[items.len() - 1].canonical);
            assert(display(root, items[i].canonical->Found_0) == name);
        }
    }
}

} // verus!
