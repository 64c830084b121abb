//! The binary locator: which executables a package directory offers, and
//! where each of them lies.
//!
//! A package is searched in four places, in this order: its root, `bin`,
//! `usr/bin` and `usr/local/bin`.  The locator works on a [`Layout`], the
//! listing of those four directories.

use vstd::prelude::*;
use crate::text::{
    contains_str, has_suffix, join, lemma_contains_push, opt_view, spec_has_suffix, spec_join,
    str_eq, strs,
};

verus! {

/// One direct child of a directory, as a listing reports it.
#[derive(Debug)]
pub struct DirEntry {
    /// The base name of the child.
    pub name: String,
    /// Whether it is a regular file.
    pub is_file: bool,
    /// Its permission bits.
    pub mode: u32,
}

/// What the contracts say of a [`DirEntry`].
pub struct EntryView {
    pub name: Seq<char>,
    pub is_file: bool,
    pub mode: u32,
}

impl View for DirEntry {
    type V = EntryView;

    open spec fn view(&self) -> EntryView {
        EntryView { name: self.name@, is_file: self.is_file, mode: self.mode }
    }
}

/// The views of a listing's entries, in order.
pub open spec fn entries_view(v: Seq<DirEntry>) -> Seq<EntryView> {
    Seq::new(v.len(), |i: int| v[i]@)
}

/// The listings of the four places where a package may keep executables.
#[derive(Debug)]
pub struct Layout {
    /// Children of the package root.
    pub root: Vec<DirEntry>,
    /// Children of `bin`.
    pub bin: Vec<DirEntry>,
    /// Children of `usr/bin`.
    pub usr_bin: Vec<DirEntry>,
    /// Children of `usr/local/bin`.
    pub usr_local_bin: Vec<DirEntry>,
}

/// What the contracts say of a [`Layout`].
pub struct LayoutView {
    pub root: Seq<EntryView>,
    pub bin: Seq<EntryView>,
    pub usr_bin: Seq<EntryView>,
    pub usr_local_bin: Seq<EntryView>,
}

impl View for Layout {
    type V = LayoutView;

    open spec fn view(&self) -> LayoutView {
        LayoutView {
            root: entries_view(self.root@),
            bin: entries_view(self.bin@),
            usr_bin: entries_view(self.usr_bin@),
            usr_local_bin: entries_view(self.usr_local_bin@),
        }
    }
}

impl LayoutView {
    /// The listing of the `place`-th search directory, counted from zero.
    pub open spec fn dir(self, place: int) -> Seq<EntryView> {
        if place == 0 {
            self.root
        } else if place == 1 {
            self.bin
        } else if place == 2 {
            self.usr_bin
        } else {
            self.usr_local_bin
        }
    }
}

/// The number of search directories.
pub open spec fn spec_places() -> int {
    4
}

/// A regular file with any of the three execute bits set.
pub open spec fn spec_is_executable(e: EntryView) -> bool {
    e.is_file && (e.mode & 0o111u32) != 0
}

/// Whether a listing holds an entry called `name`.
pub open spec fn spec_has_entry(entries: Seq<EntryView>, name: Seq<char>) -> bool {
    exists|i: int| 0 <= i < entries.len() && #[trigger] entries[i].name == name
}

/// The names in `found`, followed by the executables of `entries` that are
/// not yet among them, each once, in listing order.
pub open spec fn spec_collect(found: Seq<Seq<char>>, entries: Seq<EntryView>) -> Seq<Seq<char>>
    decreases entries.len(),
{
    if entries.len() == 0 {
        found
    } else {
        let before = spec_collect(found, entries.drop_last());
        let e = entries.last();
        if spec_is_executable(e) && !before.contains(e.name) {
            before.push(e.name)
        } else {
            before
        }
    }
}

/// The executables of a package: those of the root first, then those of
/// `bin`, `usr/bin` and `usr/local/bin`, a name counted where it is first seen.
pub open spec fn spec_find_binaries(layout: LayoutView) -> Seq<Seq<char>> {
    spec_collect(
        spec_collect(
            spec_collect(spec_collect(Seq::empty(), layout.root), layout.bin),
            layout.usr_bin,
        ),
        layout.usr_local_bin,
    )
}

/// The path of `name` in the `place`-th search directory of the package at
/// `pkg_path`.
pub open spec fn spec_candidate_path(pkg_path: Seq<char>, place: int, name: Seq<char>) -> Seq<
    char,
> {
    if place == 0 {
        spec_join(pkg_path, name)
    } else if place == 1 {
        spec_join(spec_join(pkg_path, "bin"@), name)
    } else if place == 2 {
        spec_join(spec_join(pkg_path, "usr/bin"@), name)
    } else {
        spec_join(spec_join(pkg_path, "usr/local/bin"@), name)
    }
}

/// The first search directory, from `place` on, that holds `name`; four if
/// none does.
pub open spec fn spec_first_place(layout: LayoutView, name: Seq<char>, place: int) -> int
    decreases 4 - place,
{
    if place >= 4 {
        4
    } else if spec_has_entry(layout.dir(place), name) {
        place
    } else {
        spec_first_place(layout, name, place + 1)
    }
}

/// Where `name` lies in the package: its path in the first search directory
/// that holds an entry of that name, if any does.
pub open spec fn spec_find_binary_path(
    pkg_path: Seq<char>,
    layout: LayoutView,
    name: Seq<char>,
) -> Option<Seq<char>> {
    let place = spec_first_place(layout, name, 0);
    if place < 4 {
        Some(spec_candidate_path(pkg_path, place, name))
    } else {
        None
    }
}

/// Whether a file name has an extension that marks it as executable where
/// files carry no execute bits: `exe`, `cmd` or `bat`, after a name that is
/// not empty.
pub open spec fn spec_has_executable_extension(name: Seq<char>) -> bool {
    name.len() > 4 && (spec_has_suffix(name, ".exe"@) || spec_has_suffix(name, ".cmd"@)
        || spec_has_suffix(name, ".bat"@))
}

/// Whether a file name has an extension that marks it as executable.  A
/// listing made where files carry no execute bits sets them for the regular
/// files of which this holds.
pub fn has_executable_extension(name: &str) -> (marked: bool)
    ensures
        marked == spec_has_executable_extension(name@),
{
    name.unicode_len() > 4 && (has_suffix(name, ".exe") || has_suffix(name, ".cmd") || has_suffix(
        name,
        ".bat",
    ))
}

/// Whether an entry is an executable: a regular file with an execute bit.
pub fn is_executable(entry: &DirEntry) -> (executable: bool)
    ensures
        executable == spec_is_executable(entry@),
{
    entry.is_file && (entry.mode & 0o111u32) != 0
}

/// Whether `entries` holds an entry called `name`.
pub fn has_entry(entries: &Vec<DirEntry>, name: &str) -> (found: bool)
    ensures
        found == spec_has_entry(entries_view(entries@), name@),
{
    let mut i: usize = 0;
    while i < entries.len()
        invariant
            i <= entries.len(),
            forall|k: int| 0 <= k < i ==> entries@[k].name@ != name@,
        decreases entries.len() - i,
    {
        if str_eq(entries[i].name.as_str(), name) {
            assert(entries_view(entries@)[i as int].name == name@);
            return true;
        }
        i += 1;
    }
    assert(!spec_has_entry(entries_view(entries@), name@)) by {
        if spec_has_entry(entries_view(entries@), name@) {
            let k = choose|k: int|
                0 <= k < entries_view(entries@).len() && #[trigger] entries_view(
                    entries@,
                )[k].name == name@;
            assert(entries@[k].name@ == name@);
        }
    }
    false
}

/// Adds to `binaries` the executables of `entries` that it does not hold yet.
fn collect_executables(binaries: &mut Vec<String>, entries: &Vec<DirEntry>)
    ensures
        strs(final(binaries)@) == spec_collect(strs(old(binaries)@), entries_view(entries@)),
{
    let ghost start = strs(binaries@);
    let ghost views = entries_view(entries@);
    let mut i: usize = 0;
    assert(views.subrange(0, 0) =~= Seq::empty());
    while i < entries.len()
        invariant
            i <= entries.len(),
            views == entries_view(entries@),
            strs(binaries@) == spec_collect(start, views.subrange(0, i as int)),
        decreases entries.len() - i,
    {
        let entry = &entries[i];
        proof {
            let upto = views.subrange(0, i as int + 1);
            assert(upto.drop_last() =~= views.subrange(0, i as int));
            assert(upto.last() == entry@);
        }
        if is_executable(entry) && !contains_str(binaries, entry.name.as_str()) {
            let ghost before = strs(binaries@);
            binaries.push(entry.name.clone());
            assert(strs(binaries@) =~= before.push(entry.name@));
        }
        i += 1;
    }
    assert(views.subrange(0, entries.len() as int) =~= views);
}

/// Lists the executables of a package, each name once, in search order.
pub fn find_binaries(layout: &Layout) -> (binaries: Vec<String>)
    ensures
        strs(binaries@) == spec_find_binaries(layout@),
{
    let mut binaries: Vec<String> = Vec::new();
    assert(strs(binaries@) =~= Seq::empty());
    collect_executables(&mut binaries, &layout.root);
    collect_executables(&mut binaries, &layout.bin);
    collect_executables(&mut binaries, &layout.usr_bin);
    collect_executables(&mut binaries, &layout.usr_local_bin);
    binaries
}

/// Resolves the path of a binary in the package at `pkg_path`: the first of
/// the four candidate locations that exists.
pub fn find_binary_path(pkg_path: &str, layout: &Layout, name: &str) -> (path: Option<String>)
    ensures
        opt_view(path) == spec_find_binary_path(pkg_path@, layout@, name@),
{
    reveal_with_fuel(spec_first_place, 5);
    if has_entry(&layout.root, name) {
        Some(join(pkg_path, name))
    } else if has_entry(&layout.bin, name) {
        Some(join(join(pkg_path, "bin").as_str(), name))
    } else if has_entry(&layout.usr_bin, name) {
        Some(join(join(pkg_path, "usr/bin").as_str(), name))
    } else if has_entry(&layout.usr_local_bin, name) {
        Some(join(join(pkg_path, "usr/local/bin").as_str(), name))
    } else {
        None
    }
}

/// Whether a listing holds an executable called `name`.
pub open spec fn spec_has_executable(entries: Seq<EntryView>, name: Seq<char>) -> bool {
    exists|i: int|
        0 <= i < entries.len() && spec_is_executable(#[trigger] entries[i]) && entries[i].name
            == name
}

/// Collecting adds exactly the executables of the listing, and repeats no
/// name.
pub proof fn lemma_collect(found: Seq<Seq<char>>, entries: Seq<EntryView>)
    ensures
        found.no_duplicates() ==> spec_collect(found, entries).no_duplicates(),
        forall|n: Seq<char>|
            spec_collect(found, entries).contains(n) <==> (found.contains(n)
                || spec_has_executable(entries, n)),
    decreases entries.len(),
{
    if entries.len() > 0 {
        let front = entries.drop_last();
        let e = entries.last();
        let before = spec_collect(found, front);
        lemma_collect(found, front);
        assert forall|n: Seq<char>|
            spec_has_executable(entries, n) <==> (spec_has_executable(front, n) || (
            spec_is_executable(e) && e.name == n)) by {
            if spec_has_executable(entries, n) {
                let i = choose|i: int|
                    0 <= i < entries.len() && spec_is_executable(#[trigger] entries[i])
                        && entries[i].name == n;
                if i < front.len() {
                    assert(front[i] == entries[i]);
                }
            }
            if spec_has_executable(front, n) {
                let i = choose|i: int|
                    0 <= i < front.len() && spec_is_executable(#[trigger] front[i])
                        && front[i].name == n;
                assert(entries[i] == front[i]);
            }
            if spec_is_executable(e) && e.name == n {
                assert(entries[entries.len() - 1] == e);
            }
        }
        assert forall|n: Seq<char>|
            spec_collect(found, entries).contains(n) <==> (found.contains(n)
                || spec_has_executable(entries, n)) by {
            lemma_contains_push(before, e.name, n);
        }
    }
}

/// The binaries of a package are the names of the executables in its four
/// search directories, each once.
pub proof fn law_binaries_are_the_executables(layout: LayoutView, name: Seq<char>)
    ensures
        spec_find_binaries(layout).no_duplicates(),
        spec_find_binaries(layout).contains(name) <==> exists|place: int|
            0 <= place < 4 && spec_has_executable(#[trigger] layout.dir(place), name),
{
    let none = Seq::<Seq<char>>::empty();
    let a = spec_collect(none, layout.root);
    let b = spec_collect(a, layout.bin);
    let c = spec_collect(b, layout.usr_bin);
    lemma_collect(none, layout.root);
    lemma_collect(a, layout.bin);
    lemma_collect(b, layout.usr_bin);
    lemma_collect(c, layout.usr_local_bin);
    if spec_find_binaries(layout).contains(name) {
        if spec_has_executable(layout.root, name) {
            assert(spec_has_executable(layout.dir(0), name));
        } else if spec_has_executable(layout.bin, name) {
            assert(spec_has_executable(layout.dir(1), name));
        } else if spec_has_executable(layout.usr_bin, name) {
            assert(spec_has_executable(layout.dir(2), name));
        } else {
            assert(spec_has_executable(layout.dir(3), name));
        }
    }
}

/// A binary of a package can be found in it: what the locator lists, it
/// also resolves.
pub proof fn law_binaries_resolve(pkg_path: Seq<char>, layout: LayoutView, name: Seq<char>)
    requires
        spec_find_binaries(layout).contains(name),
    ensures
        spec_find_binary_path(pkg_path, layout, name) is Some,
{
    reveal_with_fuel(spec_first_place, 5);
    law_binaries_are_the_executables(layout, name);
    let place = choose|place: int|
        0 <= place < 4 && spec_has_executable(#[trigger] layout.dir(place), name);
    let entries = layout.dir(place);
    let i = choose|i: int|
        0 <= i < entries.len() && spec_is_executable(#[trigger] entries[i]) && entries[i].name
            == name;
    assert(spec_has_entry(entries, name));
}

} // verus!
