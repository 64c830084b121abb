//! What holds of the store whatever it is asked to do, stated over the
//! views that the operations' contracts speak of.

use vstd::prelude::*;
use crate::hasher::spec_hash_bytes;
use crate::archive::{spec_sniff, ArchiveKind};
use crate::locator::{
    spec_candidate_path, spec_collect, spec_find_binaries, spec_first_place, spec_has_entry,
    spec_is_executable, LayoutView,
};
use crate::store::{
    lemma_hash_at_package_path, lemma_link_still_resolves, spec_raw_layout, spec_raw_mode,
    spec_raw_name, spec_work_for_bytes, StoreView, WorkView,
};
use crate::text::spec_join;
use crate::tree::{spec_hash_path, TreeView};

verus! {

/// Hashing is a function of the content: the same bytes have the same
/// hash, whenever and however often they are hashed.
pub proof fn law_same_bytes_same_hash(a: Seq<u8>, b: Seq<u8>)
    requires
        a == b,
    ensures
        spec_hash_bytes(a) == spec_hash_bytes(b),
{
}

/// The same holds of trees: two trees with the same names and the same
/// bytes have the same hash.  A tree's view holds nothing else, so no
/// metadata can enter.
pub proof fn law_same_tree_same_hash(a: TreeView, b: TreeView)
    requires
        a == b,
    ensures
        spec_hash_path(a) == spec_hash_path(b),
{
}

/// Adding is idempotent: once a blob is recorded, the plan for adding it
/// again asks for no work, and recording it again, whatever is found on
/// disk, leaves the store as it is.
pub proof fn law_add_is_idempotent(
    view: StoreView,
    bytes: Seq<u8>,
    layout: LayoutView,
    again: LayoutView,
)
    ensures
        ({
            let hash = spec_hash_bytes(bytes);
            let once = view.record(hash, layout);
            &&& once.has(hash)
            &&& once.plan_bytes(bytes).work == WorkView::Nothing
            &&& once.record(hash, again) == once
        }),
{
}

/// Content is written once: recording a package changes no package that
/// was there, and no link.
pub proof fn law_record_keeps_the_rest(
    view: StoreView,
    hash: Seq<char>,
    layout: LayoutView,
    other: Seq<char>,
)
    requires
        view.has(other),
    ensures
        view.record(hash, layout).has(other),
        view.record(hash, layout).packages[other] == view.packages[other],
        view.record(hash, layout).links == view.links,
{
}

/// What is stored can be asked for: after a blob was recorded under its
/// hash, the store has that hash, and the package it describes carries it
/// and lies in the content area under it.
pub proof fn law_round_trip(view: StoreView, bytes: Seq<u8>, layout: LayoutView)
    ensures
        ({
            let hash = spec_hash_bytes(bytes);
            let after = view.record(hash, layout);
            &&& after.has(hash)
            &&& after.describe(hash).hash == hash
            &&& after.describe(hash).path == after.package_path(hash)
            &&& after.hash_at(after.package_path(hash)) == Some(hash)
        }),
{
    let hash = spec_hash_bytes(bytes);
    lemma_hash_at_package_path(view.record(hash, layout), hash);
}

/// Recording a package leaves no link dangling.
pub proof fn law_record_keeps_links_valid(view: StoreView, hash: Seq<char>, layout: LayoutView)
    requires
        view.wf(),
    ensures
        view.record(hash, layout).wf(),
{
    let after = view.record(hash, layout);
    assert forall|name: Seq<char>| #[trigger] after.links.contains_key(name) implies after.link_resolves(
        name,
        after.links[name],
    ) by {
        lemma_link_still_resolves(view, after, name, view.links[name]);
    }
}

/// Collection keeps what it is told to keep and removes the rest: a
/// package is stored afterwards exactly if it was stored and its hash is in
/// the keep-set, and then it is unchanged.
pub proof fn law_gc_keeps_exactly(view: StoreView, keep: Seq<Seq<char>>, hash: Seq<char>)
    ensures
        view.gc(keep).has(hash) <==> view.has(hash) && keep.contains(hash),
        view.gc(keep).has(hash) ==> view.gc(keep).packages[hash] == view.packages[hash],
{
}

/// Collection removes every link that pointed into a removed package,
/// whatever the link is called, and leaves no link dangling.
pub proof fn law_gc_removes_links(view: StoreView, keep: Seq<Seq<char>>)
    requires
        view.wf(),
    ensures
        view.gc(keep).wf(),
        forall|hash: Seq<char>, name: Seq<char>|
            (#[trigger] view.collected(keep, hash) && #[trigger] view.links.contains_key(name)
                && view.find_binary_path(view.package_path(hash), name) == Some(view.links[name]))
                ==> !view.gc(keep).links.contains_key(name),
{
    let after = view.gc(keep);
    assert forall|m: Seq<char>| #[trigger] after.links.contains_key(m) implies after.link_resolves(
        m,
        after.links[m],
    ) by {
        assert forall|h: Seq<char>| view.points_into(h, m, after.links[m]) implies #[trigger] after.has(
            h,
        ) && after.packages[h] == view.packages[h] by {
            if !keep.contains(h) {
                assert(view.collected(keep, h));
                assert(view.points_into_collected(keep, m));
            }
        }
        lemma_link_still_resolves(view, after, m, after.links[m]);
    }
    assert forall|hash: Seq<char>, name: Seq<char>|
        (#[trigger] view.collected(keep, hash) && #[trigger] view.links.contains_key(name)
            && view.find_binary_path(view.package_path(hash), name) == Some(
            view.links[name],
        )) implies !view.gc(keep).links.contains_key(name) by {
        assert(view.points_into(hash, name, view.links[name]));
        assert(view.points_into_collected(keep, name));
    }
}

/// Collection deactivates what it removes: no link is left under the name
/// of a binary that a removed package offered.
pub proof fn law_gc_deactivates(
    view: StoreView,
    keep: Seq<Seq<char>>,
    hash: Seq<char>,
    name: Seq<char>,
)
    requires
        view.collected(keep, hash),
        spec_find_binaries(view.packages[hash]).contains(name),
    ensures
        !view.gc(keep).links.contains_key(name),
{
    assert(view.offered_by_collected(keep, name));
}

/// Collection leaves the other links alone: a link that points into no
/// removed package, and whose name no removed package offers, stays as it
/// was.
pub proof fn law_gc_keeps_other_links(view: StoreView, keep: Seq<Seq<char>>, name: Seq<char>)
    requires
        view.links.contains_key(name),
        !view.unlinked(keep, name),
    ensures
        view.gc(keep).links.contains_key(name),
        view.gc(keep).links[name] == view.links[name],
{
}

/// Activation goes by what exists, not by what may be run: a name among
/// those given that some candidate location of the stored package holds is
/// linked, to the first such location, whatever the entry's mode.
pub proof fn law_activation_goes_by_existence(
    view: StoreView,
    hash: Seq<char>,
    names: Seq<Seq<char>>,
    name: Seq<char>,
    place: int,
)
    requires
        view.has(hash),
        names.contains(name),
        0 <= place < 4,
        spec_has_entry(view.packages[hash].dir(place), name),
    ensures
        ({
            let after = view.activate(view.package_path(hash), names);
            let first = spec_first_place(view.packages[hash], name, 0);
            &&& 0 <= first <= place
            &&& after.links.contains_key(name)
            &&& after.links[name] == spec_candidate_path(view.package_path(hash), first, name)
        }),
{
    reveal_with_fuel(spec_first_place, 5);
    lemma_hash_at_package_path(view, hash);
}

/// Activation links each name that is found in the package to where it
/// lies, one link to a name; links of other names stay as they were.
pub proof fn law_activate_links(
    view: StoreView,
    pkg_path: Seq<char>,
    names: Seq<Seq<char>>,
    name: Seq<char>,
)
    ensures
        view.activates(pkg_path, names, name) ==> view.activate(
            pkg_path,
            names,
        ).links.contains_key(name) && Some(view.activate(pkg_path, names).links[name])
            == view.find_binary_path(pkg_path, name),
        !names.contains(name) ==> (view.activate(pkg_path, names).links.contains_key(name)
            <==> view.links.contains_key(name)),
        !names.contains(name) && view.links.contains_key(name) ==> view.activate(
            pkg_path,
            names,
        ).links[name] == view.links[name],
{
}

/// Activating a package again changes nothing: there is still one link to
/// each of its binaries, not two.
pub proof fn law_activate_is_idempotent(
    view: StoreView,
    pkg_path: Seq<char>,
    names: Seq<Seq<char>>,
)
    ensures
        view.activate(pkg_path, names).activate(pkg_path, names) == view.activate(
            pkg_path,
            names,
        ),
{
    let once = view.activate(pkg_path, names);
    let twice = once.activate(pkg_path, names);
    assert forall|n: Seq<char>| once.find_binary_path(pkg_path, n) == view.find_binary_path(pkg_path, n) by {}
    assert(twice.links =~= once.links);
}

/// Activation and deactivation leave no link dangling.
pub proof fn law_links_stay_valid(
    view: StoreView,
    pkg_path: Seq<char>,
    names: Seq<Seq<char>>,
)
    requires
        view.wf(),
    ensures
        view.activate(pkg_path, names).wf(),
        view.deactivate(names).wf(),
{
    let after = view.activate(pkg_path, names);
    assert forall|m: Seq<char>| #[trigger] after.links.contains_key(m) implies after.link_resolves(
        m,
        after.links[m],
    ) by {
        if view.activates(pkg_path, names, m) {
            let h = view.hash_at(pkg_path).unwrap();
            assert(after.points_into(h, m, after.links[m]));
        } else {
            lemma_link_still_resolves(view, after, m, after.links[m]);
        }
    }
    let less = view.deactivate(names);
    assert forall|m: Seq<char>| #[trigger] less.links.contains_key(m) implies less.link_resolves(
        m,
        less.links[m],
    ) by {
        lemma_link_still_resolves(view, less, m, less.links[m]);
    }
}

/// Deactivation removes the links of the names given and no other.
pub proof fn law_deactivate_unlinks(view: StoreView, names: Seq<Seq<char>>, name: Seq<char>)
    ensures
        view.deactivate(names).links.contains_key(name) <==> view.links.contains_key(name)
            && !names.contains(name),
        view.deactivate(names).packages == view.packages,
{
}

/// A blob that is no archive is stored as one executable called `bin`: that
/// is what the plan says to write, what the package then offers, and where
/// its binary is found.
pub proof fn law_raw_blobs_are_executables(view: StoreView, bytes: Seq<u8>)
    requires
        spec_sniff(bytes) == ArchiveKind::Opaque,
    ensures
        spec_work_for_bytes(bytes) == (WorkView::WriteExecutable {
            name: spec_raw_name(),
            mode: spec_raw_mode(),
        }),
        spec_find_binaries(spec_raw_layout()) == seq![spec_raw_name()],
        ({
            let hash = spec_hash_bytes(bytes);
            let after = view.record(hash, spec_raw_layout());
            !view.has(hash) ==> after.find_binary_path(after.package_path(hash), spec_raw_name()) == Some(
                spec_join(after.package_path(hash), spec_raw_name()),
            )
        }),
{
    let layout = spec_raw_layout();
    let entry = layout.root[0];
    assert(spec_is_executable(entry)) by {
        assert((0o755u32 & 0o111u32) != 0) by (bit_vector);
    }
    let none = Seq::<Seq<char>>::empty();
    assert(layout.root.drop_last() =~= Seq::empty());
    assert(spec_collect(none, layout.root.drop_last()) == none);
    assert(!none.contains(entry.name));
    assert(spec_collect(none, layout.root) == none.push(entry.name));
    assert(spec_find_binaries(layout) =~= seq![spec_raw_name()]);
    let hash = spec_hash_bytes(bytes);
    let after = view.record(hash, layout);
    if !view.has(hash) {
        lemma_hash_at_package_path(after, hash);
        assert(after.packages[hash] == layout);
        assert(seq![spec_raw_name()][0] == spec_raw_name());
        assert(spec_has_entry(layout.dir(0), spec_raw_name())) by {
            assert(layout.dir(0)[0].name == spec_raw_name());
        }
        assert(spec_first_place(layout, spec_raw_name(), 0) == 0);
    }
}

} // verus!
