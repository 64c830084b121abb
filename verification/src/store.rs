//! The store: a content area with one directory per content hash, and a bin
//! area with one link per activated binary.
//!
//! A [`Store`] is a model of those two directories.  Its operations read and
//! change the model and hand back what has to be done on disk; whoever runs
//! them reports what the disk holds through [`Store::record`] and
//! [`Store::record_link`].

use vstd::prelude::*;
use crate::locator::{
    find_binaries, find_binary_path, spec_find_binaries, spec_find_binary_path, Layout,
    LayoutView,
};
use crate::strmap::StrMap;
use crate::tree::{hash_path, spec_hash_path, Tree, TreeView};
use crate::userdirs;
use crate::archive::{sniff, spec_sniff, ArchiveKind};
use crate::hasher::{hash_bytes, spec_hash_bytes};
use crate::locator::{DirEntry, EntryView};
use crate::text::{
    contains_str, join, lemma_contains_push, lemma_strs_prefix, opt_view, path_join, spec_join,
    spec_path_join, str_eq, strs,
};

verus! {

/// A package in the store: one entry of the content area.
#[derive(Debug)]
pub struct StoredPackage {
    /// Content hash, which is also the directory's name.
    pub hash: String,
    /// Path of the directory.
    pub path: String,
    /// Names of the binaries found inside it.
    pub binaries: Vec<String>,
}

/// What the contracts say of a [`StoredPackage`].
pub struct PackageView {
    pub hash: Seq<char>,
    pub path: Seq<char>,
    pub binaries: Seq<Seq<char>>,
}

impl View for StoredPackage {
    type V = PackageView;

    open spec fn view(&self) -> PackageView {
        PackageView { hash: self.hash@, path: self.path@, binaries: strs(self.binaries@) }
    }
}

/// What can go wrong in a store operation, or in carrying it out on disk.
#[derive(Debug)]
pub enum StoreError {
    /// A directory could not be created.
    CreateDir(String),
    /// A file or directory could not be read.
    ReadFile(String),
    /// A file could not be written, linked or removed.
    WriteFile(String),
    /// The content could not be downloaded.
    Download(String),
    /// An archive could not be unpacked.
    Unpack(String),
    /// The content does not have the hash that was expected of it.
    HashMismatch { expected: String, actual: String },
    /// No package has the hash that was asked for.
    NotFound(String),
}

/// What an error says, in words.
pub open spec fn spec_message(e: StoreError) -> Seq<char> {
    match e {
        StoreError::CreateDir(cause) => "failed to create directory: "@ + cause@,
        StoreError::ReadFile(cause) => "failed to read file: "@ + cause@,
        StoreError::WriteFile(cause) => "failed to write file: "@ + cause@,
        StoreError::Download(cause) => "failed to download: "@ + cause@,
        StoreError::Unpack(cause) => "failed to unpack archive: "@ + cause@,
        StoreError::HashMismatch { expected, actual } => "hash mismatch: expected "@ + expected@
            + ", got "@ + actual@,
        StoreError::NotFound(hash) => "package not found: "@ + hash@,
    }
}

impl StoreError {
    /// What the error says, in words.
    pub fn message(&self) -> (text: String)
        ensures
            text@ == spec_message(*self),
    {
        match self {
            StoreError::CreateDir(cause) => {
                let mut text = "failed to create directory: ".to_owned();
                text.append(cause.as_str());
                text
            },
            StoreError::ReadFile(cause) => {
                let mut text = "failed to read file: ".to_owned();
                text.append(cause.as_str());
                text
            },
            StoreError::WriteFile(cause) => {
                let mut text = "failed to write file: ".to_owned();
                text.append(cause.as_str());
                text
            },
            StoreError::Download(cause) => {
                let mut text = "failed to download: ".to_owned();
                text.append(cause.as_str());
                text
            },
            StoreError::Unpack(cause) => {
                let mut text = "failed to unpack archive: ".to_owned();
                text.append(cause.as_str());
                text
            },
            StoreError::HashMismatch { expected, actual } => {
                let mut text = "hash mismatch: expected ".to_owned();
                text.append(expected.as_str());
                text.append(", got ");
                text.append(actual.as_str());
                text
            },
            StoreError::NotFound(hash) => {
                let mut text = "package not found: ".to_owned();
                text.append(hash.as_str());
                text
            },
        }
    }
}

/// What has to be written into the staging directory of an addition.
#[derive(Debug)]
pub enum Work {
    /// The content is stored already: nothing is written.
    Nothing,
    /// The blob is an archive of this kind and is unpacked.
    Unpack(ArchiveKind),
    /// The blob is written as one file of this name, with these permission
    /// bits.
    WriteExecutable { name: String, mode: u32 },
    /// The source directory is copied, with all that lies below it.
    CopyTree,
    /// The source file is copied under this name.
    CopyFile { name: String },
}

/// What the contracts say of a [`Work`].
pub enum WorkView {
    Nothing,
    Unpack(ArchiveKind),
    WriteExecutable { name: Seq<char>, mode: u32 },
    CopyTree,
    CopyFile { name: Seq<char> },
}

impl View for Work {
    type V = WorkView;

    open spec fn view(&self) -> WorkView {
        match self {
            Work::Nothing => WorkView::Nothing,
            Work::Unpack(kind) => WorkView::Unpack(*kind),
            Work::WriteExecutable { name, mode } => WorkView::WriteExecutable {
                name: name@,
                mode: *mode,
            },
            Work::CopyTree => WorkView::CopyTree,
            Work::CopyFile { name } => WorkView::CopyFile { name: name@ },
        }
    }
}

/// How content enters the store: it is written into `staging`, which is
/// then moved to `path`; only after that is the package recorded.  Content
/// that failed half-way is therefore never taken for a package.
#[derive(Debug)]
pub struct Addition {
    /// The hash of the content.
    pub hash: String,
    /// The directory that the package has, or will have.
    pub path: String,
    /// The directory in which the content is put together.
    pub staging: String,
    /// What is written there.
    pub work: Work,
}

/// What the contracts say of an [`Addition`].
pub struct AdditionView {
    pub hash: Seq<char>,
    pub path: Seq<char>,
    pub staging: Seq<char>,
    pub work: WorkView,
}

impl View for Addition {
    type V = AdditionView;

    open spec fn view(&self) -> AdditionView {
        AdditionView {
            hash: self.hash@,
            path: self.path@,
            staging: self.staging@,
            work: self.work@,
        }
    }
}

/// One link that an activation made: `link` now points at `target`.
/// Whatever was at `link` before is removed first.
#[derive(Debug)]
pub struct Activation {
    /// The path of the link in the bin area.
    pub link: String,
    /// The binary that it points at.
    pub target: String,
}

/// What the contracts say of an [`Activation`].
pub struct ActivationView {
    pub link: Seq<char>,
    pub target: Seq<char>,
}

impl View for Activation {
    type V = ActivationView;

    open spec fn view(&self) -> ActivationView {
        ActivationView { link: self.link@, target: self.target@ }
    }
}

/// The views of a list of activations, in order.
pub open spec fn activations_view(v: Seq<Activation>) -> Seq<ActivationView> {
    Seq::new(v.len(), |i: int| v[i]@)
}

/// The name under which a blob that is no archive is stored.
pub open spec fn spec_raw_name() -> Seq<char> {
    "bin"@
}

/// The permission bits of a blob that is stored as an executable: `rwxr-xr-x`.
pub open spec fn spec_raw_mode() -> u32 {
    0o755u32
}

/// How a blob is written: unpacked if its signature is that of an archive,
/// else as a single executable.
pub open spec fn spec_work_for_bytes(bytes: Seq<u8>) -> WorkView {
    match spec_sniff(bytes) {
        ArchiveKind::Opaque => WorkView::WriteExecutable {
            name: spec_raw_name(),
            mode: spec_raw_mode(),
        },
        kind => WorkView::Unpack(kind),
    }
}

/// How a file or directory is written: a directory is copied whole, a file
/// under its own name.
pub open spec fn spec_work_for_tree(source: TreeView) -> WorkView {
    match source {
        TreeView::Dir { .. } => WorkView::CopyTree,
        _ => WorkView::CopyFile { name: source.name() },
    }
}

/// The root of the default store: `nursery` in the user's data directory;
/// failing that, `.local/share/nursery` in the home directory; failing
/// that too, `.nursery` in the working directory.
pub open spec fn spec_default_root(
    data_dir: Option<Seq<char>>,
    home_dir: Option<Seq<char>>,
) -> Seq<char> {
    match data_dir {
        Some(d) => spec_path_join(d, "nursery"@),
        None => match home_dir {
            Some(h) => spec_path_join(h, ".local/share/nursery"@),
            None => ".nursery"@,
        },
    }
}

/// What a package directory holds that was written from a blob that is no
/// archive: one executable in its root.
pub open spec fn spec_raw_layout() -> LayoutView {
    LayoutView {
        root: seq![EntryView { name: spec_raw_name(), is_file: true, mode: spec_raw_mode() }],
        bin: Seq::empty(),
        usr_bin: Seq::empty(),
        usr_local_bin: Seq::empty(),
    }
}

/// Whether content with hash `actual` passes for what was expected.
pub open spec fn spec_hash_accepted(expected: Option<&str>, actual: Seq<char>) -> bool {
    match expected {
        Some(e) => e@ == actual,
        None => true,
    }
}

/// Whether `list` names every stored package once, each with its descriptor.
pub open spec fn spec_lists(list: Seq<StoredPackage>, view: StoreView) -> bool {
    &&& forall|i: int|
        0 <= i < list.len() ==> view.has((#[trigger] list[i]).hash@) && list[i]@ == view.describe(
            list[i].hash@,
        )
    &&& forall|i: int, j: int|
        0 <= i < j < list.len() ==> (#[trigger] list[i]).hash@ != (#[trigger] list[j]).hash@
    &&& forall|h: Seq<char>| #[trigger]
        view.has(h) ==> exists|i: int| 0 <= i < list.len() && (#[trigger] list[i]).hash@ == h
}

/// Whether `removed` names every package that a collection keeping `keep`
/// takes out of `view`, each once and as it was.
pub open spec fn spec_collects(
    removed: Seq<StoredPackage>,
    view: StoreView,
    keep: Seq<Seq<char>>,
) -> bool {
    &&& forall|i: int|
        0 <= i < removed.len() ==> view.collected(keep, (#[trigger] removed[i]).hash@)
            && removed[i]@ == view.describe(removed[i].hash@)
    &&& forall|i: int, j: int|
        0 <= i < j < removed.len() ==> (#[trigger] removed[i]).hash@ != (
        #[trigger] removed[j]).hash@
    &&& forall|h: Seq<char>| #[trigger]
        view.collected(keep, h) ==> exists|i: int|
            0 <= i < removed.len() && (#[trigger] removed[i]).hash@ == h
}

/// What a collection took out of the store.
#[derive(Debug)]
pub struct Collected {
    /// The packages that were removed, as they were.
    pub removed: Vec<StoredPackage>,
    /// The names of the links that pointed into one of them.
    pub unlinked: Vec<String>,
}

impl Collected {
    /// The hashes of the packages that were removed, in the order in which
    /// they were removed.
    pub fn hashes(&self) -> (hashes: Vec<String>)
        ensures
            hashes@.len() == self.removed@.len(),
            forall|i: int|
                0 <= i < hashes@.len() ==> (#[trigger] hashes@[i])@ == self.removed@[i].hash@,
    {
        let mut hashes: Vec<String> = Vec::new();
        let mut i: usize = 0;
        while i < self.removed.len()
            invariant
                i <= self.removed.len(),
                hashes@.len() == i,
                forall|k: int| 0 <= k < i ==> (#[trigger] hashes@[k])@ == self.removed@[k].hash@,
            decreases self.removed.len() - i,
        {
            hashes.push(self.removed[i].hash.clone());
            i += 1;
        }
        hashes
    }
}

/// Whether one of the first `n` packages offers a binary called `name`.
spec fn named_by(removed: Seq<StoredPackage>, n: int, name: Seq<char>) -> bool {
    exists|k: int| 0 <= k < n && k < removed.len() && strs((#[trigger] removed[k]).binaries@).contains(name)
}

/// Whether one of the first `n` packages has the hash `hash`.
spec fn hashed_by(removed: Seq<StoredPackage>, n: int, hash: Seq<char>) -> bool {
    exists|k: int| 0 <= k < n && k < removed.len() && (#[trigger] removed[k]).hash@ == hash
}

/// Whether one of the packages from place `from` on has the hash `hash`.
spec fn hashed_from(all: Seq<StoredPackage>, from: int, hash: Seq<char>) -> bool {
    exists|k: int| from <= k < all.len() && (#[trigger] all[k]).hash@ == hash
}

/// Whether `target` is where `name` is found in one of the first `n`
/// packages.
spec fn found_in(
    view: StoreView,
    removed: Seq<StoredPackage>,
    n: int,
    name: Seq<char>,
    target: Seq<char>,
) -> bool {
    exists|k: int|
        0 <= k < n && k < removed.len() && view.find_binary_path(
            (#[trigger] removed[k]).path@,
            name,
        ) == Some(target)
}

/// Removes from `links` every link called by one of `names`.
fn unlink_all(links: &mut StrMap<String>, names: &Vec<String>)
    ensures
        final(links)@ == Map::new(
            |n: Seq<char>| old(links)@.contains_key(n) && !strs(names@).contains(n),
            |n: Seq<char>| old(links)@[n],
        ),
{
    let ghost before = links@;
    let ghost all = strs(names@);
    let mut i: usize = 0;
    assert(links@ =~= Map::new(
        |n: Seq<char>| before.contains_key(n) && !all.subrange(0, 0).contains(n),
        |n: Seq<char>| before[n],
    ));
    while i < names.len()
        invariant
            i <= names.len(),
            all == strs(names@),
            links@ == Map::new(
                |n: Seq<char>| before.contains_key(n) && !all.subrange(0, i as int).contains(n),
                |n: Seq<char>| before[n],
            ),
        decreases names.len() - i,
    {
        let ghost prev = links@;
        links.remove(names[i].as_str());
        proof {
            lemma_strs_prefix(names@, i as int);
            assert forall|n: Seq<char>|
                all.subrange(0, i as int + 1).contains(n) <==> (all.subrange(0, i as int).contains(
                    n,
                ) || n == names@[i as int]@) by {
                lemma_contains_push(all.subrange(0, i as int), names@[i as int]@, n);
            }
            assert(links@ =~= Map::new(
                |n: Seq<char>|
                    before.contains_key(n) && !all.subrange(0, i as int + 1).contains(n),
                |n: Seq<char>| before[n],
            ));
        }
        i += 1;
    }
    assert(all.subrange(0, names.len() as int) =~= all);
}

/// The content-addressed package store.
pub struct Store {
    store_dir: String,
    bin_dir: String,
    staging_dir: String,
    packages: StrMap<Layout>,
    links: StrMap<String>,
}

/// What the contracts say of a [`Store`]: its directories, the packages of
/// the content area by hash, and the links of the bin area by name.
pub struct StoreView {
    pub store_dir: Seq<char>,
    pub bin_dir: Seq<char>,
    pub staging_dir: Seq<char>,
    pub packages: Map<Seq<char>, LayoutView>,
    pub links: Map<Seq<char>, Seq<char>>,
}

impl StoreView {
    /// Whether a package with this hash is stored.
    pub open spec fn has(self, hash: Seq<char>) -> bool {
        self.packages.contains_key(hash)
    }

    /// The directory of the package with this hash.
    pub open spec fn package_path(self, hash: Seq<char>) -> Seq<char> {
        spec_join(self.store_dir, hash)
    }

    /// Where content with this hash is written before it is moved into place.
    pub open spec fn staging_path(self, hash: Seq<char>) -> Seq<char> {
        spec_join(self.staging_dir, hash)
    }

    /// The path of the link for a binary name.
    pub open spec fn link_path(self, name: Seq<char>) -> Seq<char> {
        spec_join(self.bin_dir, name)
    }

    /// The descriptor of a stored package.
    pub open spec fn describe(self, hash: Seq<char>) -> PackageView {
        PackageView {
            hash,
            path: self.package_path(hash),
            binaries: spec_find_binaries(self.packages[hash]),
        }
    }

    /// The hash of the stored package whose directory is `path`.
    pub open spec fn hash_at(self, path: Seq<char>) -> Option<Seq<char>> {
        let hash = path.skip(self.store_dir.len() as int + 1);
        if path == self.package_path(hash) && self.has(hash) {
            Some(hash)
        } else {
            None
        }
    }

    /// Whether a link called `name` that points at `target` points into the
    /// package `hash`: the package is stored, and `target` is where `name`
    /// is found in it.
    pub open spec fn points_into(self, hash: Seq<char>, name: Seq<char>, target: Seq<char>) -> bool {
        self.has(hash) && self.find_binary_path(self.package_path(hash), name) == Some(target)
    }

    /// Whether a link called `name` that points at `target` points into a
    /// stored package.
    pub open spec fn link_resolves(self, name: Seq<char>, target: Seq<char>) -> bool {
        exists|hash: Seq<char>| #[trigger] self.points_into(hash, name, target)
    }

    /// The binary `name` of the package at `pkg_path`, wherever it exists
    /// first, executable or not.
    pub open spec fn find_binary_path(self, pkg_path: Seq<char>, name: Seq<char>) -> Option<
        Seq<char>,
    > {
        match self.hash_at(pkg_path) {
            Some(hash) => spec_find_binary_path(pkg_path, self.packages[hash], name),
            None => None,
        }
    }

    /// The binaries of the package at `pkg_path`; none where no package is
    /// stored.
    pub open spec fn find_binaries(self, pkg_path: Seq<char>) -> Seq<Seq<char>> {
        match self.hash_at(pkg_path) {
            Some(hash) => spec_find_binaries(self.packages[hash]),
            None => Seq::empty(),
        }
    }

    /// The plan for content with this hash: nothing if it is stored, else
    /// the work given.
    pub open spec fn plan(self, hash: Seq<char>, work: WorkView) -> AdditionView {
        AdditionView {
            hash,
            path: self.package_path(hash),
            staging: self.staging_path(hash),
            work: if self.has(hash) {
                WorkView::Nothing
            } else {
                work
            },
        }
    }

    /// The plan for adding a file or directory.
    pub open spec fn plan_path(self, source: TreeView) -> AdditionView {
        self.plan(spec_hash_path(source), spec_work_for_tree(source))
    }

    /// Whether this is the view of a store below `root` in which nothing is
    /// recorded.
    pub open spec fn is_fresh(self, root: Seq<char>) -> bool {
        &&& self.store_dir == spec_path_join(root, "store"@)
        &&& self.bin_dir == spec_path_join(root, "bin"@)
        &&& self.staging_dir == spec_path_join(root, "staging"@)
        &&& self.packages == Map::<Seq<char>, LayoutView>::empty()
        &&& self.links == Map::<Seq<char>, Seq<char>>::empty()
    }

    /// The plan for adding a blob.
    pub open spec fn plan_bytes(self, bytes: Seq<u8>) -> AdditionView {
        self.plan(spec_hash_bytes(bytes), spec_work_for_bytes(bytes))
    }

    /// The store after a package directory was found on disk: it is
    /// recorded, unless a package with that hash is recorded already.
    pub open spec fn record(self, hash: Seq<char>, layout: LayoutView) -> StoreView {
        if self.has(hash) {
            self
        } else {
            StoreView { packages: self.packages.insert(hash, layout), ..self }
        }
    }

    /// The store with a link `name` that points at `target`.
    pub open spec fn with_link(self, name: Seq<char>, target: Seq<char>) -> StoreView {
        StoreView { links: self.links.insert(name, target), ..self }
    }

    /// Whether activating `names` for the package at `pkg_path` links `name`:
    /// it does if `name` is among them and is found in the package.
    pub open spec fn activates(
        self,
        pkg_path: Seq<char>,
        names: Seq<Seq<char>>,
        name: Seq<char>,
    ) -> bool {
        names.contains(name) && self.find_binary_path(pkg_path, name) is Some
    }

    /// The store after the binaries `names` of the package at `pkg_path`
    /// were activated: each of them that is found has a link to where it
    /// lies, in place of any link of that name; other links stay.
    pub open spec fn activate(self, pkg_path: Seq<char>, names: Seq<Seq<char>>) -> StoreView {
        StoreView {
            links: Map::new(
                |n: Seq<char>| self.links.contains_key(n) || self.activates(pkg_path, names, n),
                |n: Seq<char>|
                    if self.activates(pkg_path, names, n) {
                        self.find_binary_path(pkg_path, n).unwrap()
                    } else {
                        self.links[n]
                    },
            ),
            ..self
        }
    }

    /// The links that such an activation makes, in the order of `names`;
    /// a name that is found nowhere is passed over.
    pub open spec fn activations(self, pkg_path: Seq<char>, names: Seq<Seq<char>>) -> Seq<
        ActivationView,
    >
        decreases names.len(),
    {
        if names.len() == 0 {
            Seq::empty()
        } else {
            let before = self.activations(pkg_path, names.drop_last());
            match self.find_binary_path(pkg_path, names.last()) {
                Some(target) => before.push(
                    ActivationView { link: self.link_path(names.last()), target },
                ),
                None => before,
            }
        }
    }

    /// The store without the links called by one of `names`.
    pub open spec fn deactivate(self, names: Seq<Seq<char>>) -> StoreView {
        StoreView {
            links: Map::new(
                |n: Seq<char>| self.links.contains_key(n) && !names.contains(n),
                |n: Seq<char>| self.links[n],
            ),
            ..self
        }
    }

    /// Whether a collection that keeps `keep` removes the package `hash`.
    pub open spec fn collected(self, keep: Seq<Seq<char>>, hash: Seq<char>) -> bool {
        self.has(hash) && !keep.contains(hash)
    }

    /// Whether a package that such a collection removes offers a binary
    /// called `name`.
    pub open spec fn offered_by_collected(self, keep: Seq<Seq<char>>, name: Seq<char>) -> bool {
        exists|h: Seq<char>| #[trigger]
            self.collected(keep, h) && spec_find_binaries(self.packages[h]).contains(name)
    }

    /// Whether the link `name` points into a package that such a collection
    /// removes.
    pub open spec fn points_into_collected(self, keep: Seq<Seq<char>>, name: Seq<char>) -> bool {
        self.links.contains_key(name) && exists|h: Seq<char>| #[trigger]
            self.collected(keep, h) && self.points_into(h, name, self.links[name])
    }

    /// Whether such a collection removes the link `name`: it does if a
    /// package that it removes offers a binary of that name, for the package
    /// is deactivated, and if the link points into a package that it
    /// removes.
    pub open spec fn unlinked(self, keep: Seq<Seq<char>>, name: Seq<char>) -> bool {
        self.offered_by_collected(keep, name) || self.points_into_collected(keep, name)
    }

    /// The store after a collection that keeps `keep`: the packages whose
    /// hash is in `keep` stay, and so do the links that are called like no
    /// binary of a removed package and point into none.
    pub open spec fn gc(self, keep: Seq<Seq<char>>) -> StoreView {
        StoreView {
            packages: Map::new(
                |h: Seq<char>| self.has(h) && keep.contains(h),
                |h: Seq<char>| self.packages[h],
            ),
            links: Map::new(
                |n: Seq<char>| self.links.contains_key(n) && !self.unlinked(keep, n),
                |n: Seq<char>| self.links[n],
            ),
            ..self
        }
    }

    /// No link dangles: each points at a place that exists in a stored
    /// package.
    pub open spec fn wf(self) -> bool {
        forall|name: Seq<char>| #[trigger]
            self.links.contains_key(name) ==> self.link_resolves(name, self.links[name])
    }
}

/// A link that resolved keeps resolving in a store that still holds, as
/// they were, the packages that it points into.
pub proof fn lemma_link_still_resolves(
    before: StoreView,
    after: StoreView,
    name: Seq<char>,
    target: Seq<char>,
)
    requires
        before.link_resolves(name, target),
        before.store_dir == after.store_dir,
        forall|h: Seq<char>|
            before.points_into(h, name, target) ==> #[trigger] after.has(h) && after.packages[h]
                == before.packages[h],
    ensures
        after.link_resolves(name, target),
{
    let h = choose|h: Seq<char>| #[trigger] before.points_into(h, name, target);
    lemma_hash_at_package_path(before, h);
    assert(after.has(h));
    lemma_hash_at_package_path(after, h);
    assert(after.points_into(h, name, target));
}

/// The directory of a stored package leads back to its hash.
pub proof fn lemma_hash_at_package_path(view: StoreView, hash: Seq<char>)
    requires
        view.has(hash),
    ensures
        view.hash_at(view.package_path(hash)) == Some(hash),
{
    let path = view.package_path(hash);
    assert(path.skip(view.store_dir.len() as int + 1) =~= hash);
}

impl View for Store {
    type V = StoreView;

    closed spec fn view(&self) -> StoreView {
        StoreView {
            store_dir: self.store_dir@,
            bin_dir: self.bin_dir@,
            staging_dir: self.staging_dir@,
            packages: self.packages@,
            links: self.links@,
        }
    }
}

impl Store {
    #[verifier::type_invariant]
    spec fn no_dangling_link(self) -> bool {
        self@.wf()
    }

    /// A store below `root`: the content area is `root/store`, the bin area
    /// `root/bin`, and content is staged in `root/staging`.  Nothing is
    /// recorded in it yet.
    pub fn with_root(root: &str) -> (store: Store)
        ensures
            store@.is_fresh(root@),
            store@.wf(),
    {
        Store {
            store_dir: path_join(root, "store"),
            bin_dir: path_join(root, "bin"),
            staging_dir: path_join(root, "staging"),
            packages: StrMap::new(),
            links: StrMap::new(),
        }
    }

    /// The root of the default store, given the user's data and home
    /// directories.
    pub fn default_root(data_dir: Option<String>, home_dir: Option<String>) -> (root: String)
        ensures
            root@ == spec_default_root(opt_view(data_dir), opt_view(home_dir)),
    {
        match data_dir {
            Some(d) => path_join(d.as_str(), "nursery"),
            None => match home_dir {
                Some(h) => path_join(h.as_str(), ".local/share/nursery"),
                None => ".nursery".to_owned(),
            },
        }
    }

    /// A store below the default root, which depends on the user's
    /// directories as the platform reports them.
    pub fn new() -> (store: Store)
        ensures
            exists|data_dir: Option<Seq<char>>, home_dir: Option<Seq<char>>|
                store@.is_fresh(#[trigger] spec_default_root(data_dir, home_dir)),
            store@.wf(),
    {
        let data_dir = userdirs::data_dir();
        let home_dir = userdirs::home_dir();
        let ghost d = opt_view(data_dir);
        let ghost h = opt_view(home_dir);
        let root = Store::default_root(data_dir, home_dir);
        let store = Store::with_root(root.as_str());
        assert(store@.is_fresh(spec_default_root(d, h)));
        store
    }

    /// The content area's path.
    pub fn store_dir(&self) -> (dir: &str)
        ensures
            dir@ == self@.store_dir,
    {
        self.store_dir.as_str()
    }

    /// The bin area's path.
    pub fn bin_dir(&self) -> (dir: &str)
        ensures
            dir@ == self@.bin_dir,
    {
        self.bin_dir.as_str()
    }

    /// The staging area's path.
    pub fn staging_dir(&self) -> (dir: &str)
        ensures
            dir@ == self@.staging_dir,
    {
        self.staging_dir.as_str()
    }

    /// The path of the link for a binary name.
    pub fn link_path(&self, name: &str) -> (path: String)
        ensures
            path@ == self@.link_path(name@),
    {
        join(self.bin_dir.as_str(), name)
    }

    /// Whether a package with the given hash is stored.
    pub fn has(&self, hash: &str) -> (present: bool)
        ensures
            present == self@.has(hash@),
    {
        self.packages.contains_key(hash)
    }

    /// The stored package with the given hash, its binaries found anew.
    pub fn get(&self, hash: &str) -> (pkg: Option<StoredPackage>)
        ensures
            pkg.is_some() == self@.has(hash@),
            pkg.is_some() ==> pkg.unwrap()@ == self@.describe(hash@),
    {
        match self.packages.get(hash) {
            Some(layout) => Some(
                StoredPackage {
                    hash: hash.to_owned(),
                    path: join(self.store_dir.as_str(), hash),
                    binaries: find_binaries(layout),
                },
            ),
            None => None,
        }
    }

    /// Every stored package, each once, its binaries found anew.
    pub fn list(&self) -> (list: Vec<StoredPackage>)
        ensures
            spec_lists(list@, self@),
            list@.len() == self@.packages.dom().len(),
    {
        let n = self.packages.len();
        let mut list: Vec<StoredPackage> = Vec::new();
        let mut i: usize = 0;
        while i < n
            invariant
                n == self.packages.keys().len(),
                i <= n,
                list@.len() == i,
                forall|k: int|
                    0 <= k < i ==> (#[trigger] list@[k]).hash@ == self.packages.keys()[k]
                        && list@[k]@ == self@.describe(list@[k].hash@),
            decreases n - i,
        {
            let key = self.packages.key_at(i);
            let layout = self.packages.value_at(i);
            list.push(
                StoredPackage {
                    hash: key.clone(),
                    path: join(self.store_dir.as_str(), key.as_str()),
                    binaries: find_binaries(layout),
                },
            );
            i += 1;
        }
        proof {
            let keys = self.packages.keys();
            assert forall|h: Seq<char>| #[trigger] self@.has(h) implies exists|i: int|
                0 <= i < list@.len() && (#[trigger] list@[i]).hash@ == h by {
                assert(keys.contains(h));
                let j = choose|j: int| 0 <= j < keys.len() && keys[j] == h;
                assert(list@[j].hash@ == h);
            }
            assert forall|i: int| 0 <= i < list@.len() implies self@.has(
                (#[trigger] list@[i]).hash@,
            ) by {
                assert(keys.contains(keys[i]));
            }
        }
        list
    }

    /// Which of the recorded packages has `pkg_path` as its directory: its
    /// place among the keys, or their number if none has.
    fn hash_index(&self, pkg_path: &str) -> (i: usize)
        ensures
            i <= self.packages.keys().len(),
            i < self.packages.keys().len() ==> self@.hash_at(pkg_path@) == Some(
                self.packages.keys()[i as int],
            ),
            i == self.packages.keys().len() ==> self@.hash_at(pkg_path@) is None,
    {
        let n = self.packages.len();
        let mut i: usize = 0;
        while i < n
            invariant
                n == self.packages.keys().len(),
                i <= n,
                forall|k: int|
                    0 <= k < i ==> spec_join(self.store_dir@, #[trigger] self.packages.keys()[k])
                        != pkg_path@,
            decreases n - i,
        {
            let key = self.packages.key_at(i);
            let path = join(self.store_dir.as_str(), key.as_str());
            if str_eq(path.as_str(), pkg_path) {
                proof {
                    lemma_hash_at_package_path(self@, key@);
                }
                return i;
            }
            i += 1;
        }
        proof {
            let keys = self.packages.keys();
            if let Some(h) = self@.hash_at(pkg_path@) {
                assert(keys.contains(h));
                let j = choose|j: int| 0 <= j < keys.len() && keys[j] == h;
                assert(spec_join(self.store_dir@, keys[j]) == pkg_path@);
            }
        }
        i
    }

    /// The binaries of the package whose directory is `pkg_path`.
    pub fn find_binaries(&self, pkg_path: &str) -> (binaries: Vec<String>)
        ensures
            strs(binaries@) == self@.find_binaries(pkg_path@),
    {
        let i = self.hash_index(pkg_path);
        if i < self.packages.len() {
            find_binaries(self.packages.value_at(i))
        } else {
            let none: Vec<String> = Vec::new();
            assert(strs(none@) =~= Seq::<Seq<char>>::empty());
            none
        }
    }

    /// The path of a binary within the package whose directory is
    /// `pkg_path`: the first candidate location that exists.
    pub fn find_binary_path(&self, pkg_path: &str, bin_name: &str) -> (path: Option<String>)
        ensures
            opt_view(path) == self@.find_binary_path(pkg_path@, bin_name@),
    {
        let i = self.hash_index(pkg_path);
        if i < self.packages.len() {
            find_binary_path(pkg_path, self.packages.value_at(i), bin_name)
        } else {
            None
        }
    }

    /// Plans the addition of a blob.  Its hash is checked against the one
    /// expected before anything else; content that is stored already needs
    /// no work.
    pub fn add_bytes(&self, bytes: &[u8], expected_hash: Option<&str>) -> (plan: Result<
        Addition,
        StoreError,
    >)
        ensures
            match plan {
                Ok(addition) => spec_hash_accepted(expected_hash, spec_hash_bytes(bytes@))
                    && addition@ == self@.plan_bytes(bytes@),
                Err(e) => !spec_hash_accepted(expected_hash, spec_hash_bytes(bytes@)) && (
                e matches StoreError::HashMismatch { expected, actual } && expected@
                    == expected_hash.unwrap()@ && actual@ == spec_hash_bytes(bytes@)),
            },
    {
        let hash = hash_bytes(bytes);
        if let Some(expected) = expected_hash {
            if !str_eq(hash.as_str(), expected) {
                return Err(
                    StoreError::HashMismatch { expected: expected.to_owned(), actual: hash },
                );
            }
        }
        let work = match sniff(bytes) {
            ArchiveKind::Opaque => Work::WriteExecutable { name: "bin".to_owned(), mode: 0o755 },
            kind => Work::Unpack(kind),
        };
        Ok(self.plan(hash, work))
    }

    /// Plans the addition of a file or directory that was read into
    /// `source`.  Content that is stored already needs no work.
    pub fn add_path(&self, source: &Tree) -> (addition: Addition)
        ensures
            addition@ == self@.plan_path(source@),
    {
        let hash = hash_path(source);
        let work = if source.is_dir() {
            Work::CopyTree
        } else {
            Work::CopyFile { name: source.name().to_owned() }
        };
        self.plan(hash, work)
    }

    /// The plan for content with this hash.
    fn plan(&self, hash: String, work: Work) -> (addition: Addition)
        ensures
            addition@ == self@.plan(hash@, work@),
    {
        let path = join(self.store_dir.as_str(), hash.as_str());
        let staging = join(self.staging_dir.as_str(), hash.as_str());
        let work = if self.packages.contains_key(hash.as_str()) {
            Work::Nothing
        } else {
            work
        };
        Addition { hash, path, staging, work }
    }

    /// The layout of a package that was written from a blob that is no
    /// archive.
    pub fn raw_layout() -> (layout: Layout)
        ensures
            layout@ == spec_raw_layout(),
    {
        let mut root: Vec<DirEntry> = Vec::new();
        root.push(DirEntry { name: "bin".to_owned(), is_file: true, mode: 0o755 });
        let layout = Layout {
            root,
            bin: Vec::new(),
            usr_bin: Vec::new(),
            usr_local_bin: Vec::new(),
        };
        assert(layout@.root =~= spec_raw_layout().root);
        assert(layout@.bin =~= spec_raw_layout().bin);
        assert(layout@.usr_bin =~= spec_raw_layout().usr_bin);
        assert(layout@.usr_local_bin =~= spec_raw_layout().usr_local_bin);
        layout
    }

    /// Records the package directory `hash`, which holds `layout`.  A
    /// package that is recorded already stays as it is: content is written
    /// once.
    pub fn record(&mut self, hash: &str, layout: Layout) -> (pkg: StoredPackage)
        ensures
            final(self)@ == old(self)@.record(hash@, layout@),
            final(self)@.has(hash@),
            pkg@ == final(self)@.describe(hash@),
            final(self)@.wf(),
    {
        proof {
            use_type_invariant(&*self);
        }
        let ghost before = self@;
        if !self.packages.contains_key(hash) {
            let mut links: StrMap<String> = StrMap::new();
            core::mem::swap(&mut links, &mut self.links);
            let mut packages: StrMap<Layout> = StrMap::new();
            core::mem::swap(&mut packages, &mut self.packages);
            packages.insert(hash.to_owned(), layout);
            self.packages = packages;
            proof {
                let after = StoreView { links: before.links, ..self@ };
                assert(after == before.record(hash@, layout@));
                assert forall|name: Seq<char>| #[trigger]
                    after.links.contains_key(name) implies after.link_resolves(
                    name,
                    after.links[name],
                ) by {
                    lemma_link_still_resolves(before, after, name, before.links[name]);
                }
            }
            self.links = links;
        }
        let layout = self.packages.get(hash).unwrap();
        let pkg = StoredPackage {
            hash: hash.to_owned(),
            path: join(self.store_dir.as_str(), hash),
            binaries: find_binaries(layout),
        };
        proof {
            use_type_invariant(&*self);
        }
        pkg
    }

    /// Whether a link called `name` that points at `target` points into a
    /// recorded package: at the place where `name` is found in it.
    pub fn link_resolves(&self, name: &str, target: &str) -> (resolves: bool)
        ensures
            resolves == self@.link_resolves(name@, target@),
    {
        let n = self.packages.len();
        let mut i: usize = 0;
        while i < n
            invariant
                n == self.packages.keys().len(),
                i <= n,
                forall|k: int|
                    0 <= k < i ==> self@.find_binary_path(
                        self@.package_path(#[trigger] self.packages.keys()[k]),
                        name@,
                    ) != Some(target@),
            decreases n - i,
        {
            let key = self.packages.key_at(i);
            let path = join(self.store_dir.as_str(), key.as_str());
            match self.find_binary_path(path.as_str(), name) {
                Some(t) => {
                    if str_eq(t.as_str(), target) {
                        assert(self@.points_into(key@, name@, target@));
                        return true;
                    }
                },
                None => {},
            }
            i += 1;
        }
        proof {
            let keys = self.packages.keys();
            if self@.link_resolves(name@, target@) {
                let h = choose|h: Seq<char>| #[trigger] self@.points_into(h, name@, target@);
                assert(keys.contains(h));
                let j = choose|j: int| 0 <= j < keys.len() && keys[j] == h;
                assert(self@.find_binary_path(self@.package_path(keys[j]), name@) != Some(target@));
            }
        }
        false
    }

    /// Records a link that was found in the bin area, if it points into a
    /// recorded package; a link that does not is left out of the model.
    pub fn record_link(&mut self, name: &str, target: &str) -> (recorded: bool)
        ensures
            recorded == old(self)@.link_resolves(name@, target@),
            recorded ==> final(self)@ == old(self)@.with_link(name@, target@),
            !recorded ==> final(self)@ == old(self)@,
            final(self)@.wf(),
    {
        proof {
            use_type_invariant(&*self);
        }
        let ghost before = self@;
        if !self.link_resolves(name, target) {
            return false;
        }
        let mut links: StrMap<String> = StrMap::new();
        core::mem::swap(&mut links, &mut self.links);
        links.insert(name.to_owned(), target.to_owned());
        proof {
            let after = before.with_link(name@, target@);
            assert forall|m: Seq<char>| #[trigger]
                after.links.contains_key(m) implies after.link_resolves(m, after.links[m]) by {
                lemma_link_still_resolves(before, after, m, after.links[m]);
            }
        }
        self.links = links;
        true
    }

    /// Activates a package: each of its binaries that is found in it, at the
    /// first of the four candidate locations that exists, gets a link in the
    /// bin area, in place of any link of that name.  A binary that is found
    /// nowhere is passed over.  Returns the links to make.
    pub fn activate(&mut self, pkg: &StoredPackage) -> (activated: Vec<Activation>)
        ensures
            final(self)@ == old(self)@.activate(pkg.path@, pkg@.binaries),
            activations_view(activated@) == old(self)@.activations(pkg.path@, pkg@.binaries),
            final(self)@.wf(),
    {
        proof {
            use_type_invariant(&*self);
        }
        let ghost before = self@;
        let ghost names = strs(pkg.binaries@);
        let ghost path = pkg.path@;
        let mut links: StrMap<String> = StrMap::new();
        core::mem::swap(&mut links, &mut self.links);
        let mut activated: Vec<Activation> = Vec::new();
        let mut i: usize = 0;
        proof {
            assert(names.subrange(0, 0) =~= Seq::<Seq<char>>::empty());
            assert(links@ =~= before.activate(path, names.subrange(0, 0)).links);
            assert(activations_view(activated@) =~= before.activations(
                path,
                names.subrange(0, 0),
            ));
        }
        while i < pkg.binaries.len()
            invariant
                i <= pkg.binaries.len(),
                names == strs(pkg.binaries@),
                path == pkg.path@,
                self@.store_dir == before.store_dir,
                self@.bin_dir == before.bin_dir,
                self@.packages == before.packages,
                links@ == before.activate(path, names.subrange(0, i as int)).links,
                activations_view(activated@) == before.activations(
                    path,
                    names.subrange(0, i as int),
                ),
            decreases pkg.binaries.len() - i,
        {
            let name = &pkg.binaries[i];
            proof {
                lemma_strs_prefix(pkg.binaries@, i as int);
                let upto = names.subrange(0, i as int + 1);
                assert(upto.drop_last() =~= names.subrange(0, i as int));
                assert(upto.last() == name@);
                assert forall|n: Seq<char>|
                    upto.contains(n) <==> (names.subrange(0, i as int).contains(n) || n
                        == name@) by {
                    lemma_contains_push(names.subrange(0, i as int), name@, n);
                }
                assert(self@.find_binary_path(path, name@) == before.find_binary_path(path, name@));
            }
            match self.find_binary_path(pkg.path.as_str(), name.as_str()) {
                Some(target) => {
                    let ghost shown = activations_view(activated@);
                    let link = join(self.bin_dir.as_str(), name.as_str());
                    links.insert(name.clone(), target.clone());
                    activated.push(Activation { link, target });
                    proof {
                        assert(activations_view(activated@) =~= shown.push(
                            ActivationView {
                                link: before.link_path(name@),
                                target: before.find_binary_path(path, name@).unwrap(),
                            },
                        ));
                        assert(links@ =~= before.activate(
                            path,
                            names.subrange(0, i as int + 1),
                        ).links);
                    }
                },
                None => {
                    proof {
                        assert(links@ =~= before.activate(
                            path,
                            names.subrange(0, i as int + 1),
                        ).links);
                    }
                },
            }
            i += 1;
        }
        proof {
            assert(names.subrange(0, pkg.binaries.len() as int) =~= names);
            let after = before.activate(path, names);
            assert forall|m: Seq<char>| #[trigger]
                after.links.contains_key(m) implies after.link_resolves(m, after.links[m]) by {
                if before.activates(path, names, m) {
                    let h = before.hash_at(path).unwrap();
                    assert(after.points_into(h, m, after.links[m]));
                } else {
                    lemma_link_still_resolves(before, after, m, after.links[m]);
                }
            }
        }
        self.links = links;
        activated
    }

    /// Deactivates a package: the links called by its binaries leave the
    /// bin area, whether or not there were any.  Returns the paths to
    /// remove, one for each binary.
    pub fn deactivate(&mut self, pkg: &StoredPackage) -> (unlinked: Vec<String>)
        ensures
            final(self)@ == old(self)@.deactivate(pkg@.binaries),
            unlinked@.len() == pkg.binaries@.len(),
            forall|i: int|
                0 <= i < unlinked@.len() ==> (#[trigger] unlinked@[i])@ == old(self)@.link_path(
                    pkg.binaries@[i]@,
                ),
            final(self)@.wf(),
    {
        proof {
            use_type_invariant(&*self);
        }
        let ghost before = self@;
        let mut links: StrMap<String> = StrMap::new();
        core::mem::swap(&mut links, &mut self.links);
        unlink_all(&mut links, &pkg.binaries);
        proof {
            let after = before.deactivate(pkg@.binaries);
            assert(links@ =~= after.links);
            assert forall|m: Seq<char>| #[trigger]
                after.links.contains_key(m) implies after.link_resolves(m, after.links[m]) by {
                lemma_link_still_resolves(before, after, m, after.links[m]);
            }
        }
        self.links = links;
        let mut unlinked: Vec<String> = Vec::new();
        let mut i: usize = 0;
        while i < pkg.binaries.len()
            invariant
                i <= pkg.binaries.len(),
                unlinked@.len() == i,
                self@.bin_dir == before.bin_dir,
                forall|k: int|
                    0 <= k < i ==> (#[trigger] unlinked@[k])@ == before.link_path(
                        pkg.binaries@[k]@,
                    ),
            decreases pkg.binaries.len() - i,
        {
            unlinked.push(join(self.bin_dir.as_str(), pkg.binaries[i].as_str()));
            i += 1;
        }
        proof {
            use_type_invariant(&*self);
        }
        unlinked
    }

    /// The packages that a collection keeping `keep_hashes` removes.
    fn doomed(&self, keep_hashes: &Vec<String>) -> (removed: Vec<StoredPackage>)
        ensures
            spec_collects(removed@, self@, strs(keep_hashes@)),
    {
        let ghost keep = strs(keep_hashes@);
        let mut rest = self.list();
        let ghost all = rest@;
        let mut removed: Vec<StoredPackage> = Vec::new();
        while rest.len() > 0
            invariant
                spec_lists(all, self@),
                keep == strs(keep_hashes@),
                rest@ == all.subrange(0, rest@.len() as int),
                rest@.len() <= all.len(),
                forall|j: int|
                    0 <= j < removed@.len() ==> self@.collected(
                        keep,
                        (#[trigger] removed@[j]).hash@,
                    ) && removed@[j]@ == self@.describe(removed@[j].hash@) && hashed_from(
                        all,
                        rest@.len() as int,
                        removed@[j].hash@,
                    ),
                forall|i: int, j: int|
                    0 <= i < j < removed@.len() ==> (#[trigger] removed@[i]).hash@ != (
                    #[trigger] removed@[j]).hash@,
                forall|k: int|
                    rest@.len() <= k < all.len() && !keep.contains((#[trigger] all[k]).hash@)
                        ==> hashed_by(removed@, removed@.len() as int, all[k].hash@),
            decreases rest@.len(),
        {
            let ghost from = rest@.len() as int;
            let ghost held = removed@;
            let pkg = rest.pop().unwrap();
            let ghost at = from - 1;
            assert(pkg == all[at]);
            assert(rest@ =~= all.subrange(0, at));
            let gone = !contains_str(keep_hashes, pkg.hash.as_str());
            if gone {
                removed.push(pkg);
            }
            proof {
                assert forall|j: int| 0 <= j < removed@.len() implies self@.collected(
                    keep,
                    (#[trigger] removed@[j]).hash@,
                ) && removed@[j]@ == self@.describe(removed@[j].hash@) && hashed_from(
                    all,
                    at,
                    removed@[j].hash@,
                ) by {
                    if j < held.len() {
                        assert(removed@[j] == held[j]);
                        let k = choose|k: int|
                            from <= k < all.len() && (#[trigger] all[k]).hash@ == held[j].hash@;
                        assert(at <= k < all.len() && all[k].hash@ == held[j].hash@);
                    } else {
                        assert(removed@[j] == all[at]);
                    }
                }
                assert forall|i: int, j: int| 0 <= i < j < removed@.len() implies (
                #[trigger] removed@[i]).hash@ != (#[trigger] removed@[j]).hash@ by {
                    assert(removed@[i] == held[i]);
                    if j == held.len() {
                        let k = choose|k: int|
                            from <= k < all.len() && (#[trigger] all[k]).hash@ == held[i].hash@;
                        assert(all[at].hash@ != all[k].hash@);
                    } else {
                        assert(removed@[j] == held[j]);
                    }
                }
                assert forall|k: int|
                    at <= k < all.len() && !keep.contains(
                        (#[trigger] all[k]).hash@,
                    ) implies hashed_by(removed@, removed@.len() as int, all[k].hash@) by {
                    if k == at {
                        assert(removed@[held.len() as int].hash@ == all[k].hash@);
                    } else {
                        assert(hashed_by(held, held.len() as int, all[k].hash@));
                        let j = choose|j: int|
                            0 <= j < held.len() && (#[trigger] held[j]).hash@ == all[k].hash@;
                        assert(removed@[j] == held[j]);
                    }
                }
            }
        }
        proof {
            assert forall|h: Seq<char>| #[trigger] self@.collected(keep, h) implies exists|i: int|
                0 <= i < removed@.len() && (#[trigger] removed@[i]).hash@ == h by {
                let k = choose|k: int| 0 <= k < all.len() && (#[trigger] all[k]).hash@ == h;
                assert(hashed_by(removed@, removed@.len() as int, all[k].hash@));
            }
        }
        removed
    }

    /// The names of the links that point into one of `removed`.
    fn links_into(&self, removed: &Vec<StoredPackage>) -> (names: Vec<String>)
        ensures
            strs(names@).no_duplicates(),
            forall|n: Seq<char>|
                #![trigger strs(names@).contains(n)]
                strs(names@).contains(n) <==> self@.links.contains_key(n) && found_in(
                    self@,
                    removed@,
                    removed@.len() as int,
                    n,
                    self@.links[n],
                ),
    {
        let count = self.links.len();
        let ghost keys = self.links.keys();
        let mut names: Vec<String> = Vec::new();
        let mut k: usize = 0;
        while k < count
            invariant
                k <= count,
                count == keys.len(),
                keys == self.links.keys(),
                keys.no_duplicates(),
                forall|n: Seq<char>| keys.contains(n) <==> self@.links.contains_key(n),
                strs(names@).no_duplicates(),
                forall|n: Seq<char>|
                    #![trigger strs(names@).contains(n)]
                    strs(names@).contains(n) <==> keys.subrange(0, k as int).contains(n)
                        && found_in(self@, removed@, removed@.len() as int, n, self@.links[n]),
            decreases count - k,
        {
            let name = self.links.key_at(k);
            let target = self.links.value_at(k);
            let mut found = false;
            let mut i: usize = 0;
            while i < removed.len() && !found
                invariant
                    i <= removed.len(),
                    target@ == self@.links[name@],
                    found ==> found_in(self@, removed@, removed@.len() as int, name@, target@),
                    !found ==> !found_in(self@, removed@, i as int, name@, target@),
                decreases removed.len() - i + (if found { 0int } else { 1int }),
            {
                match self.find_binary_path(removed[i].path.as_str(), name.as_str()) {
                    Some(t) => {
                        if str_eq(t.as_str(), target.as_str()) {
                            found = true;
                        }
                    },
                    None => {},
                }
                proof {
                    if !found {
                        assert forall|q: int| 0 <= q < i + 1 && q < removed@.len() implies self@.find_binary_path(
                            (#[trigger] removed@[q]).path@,
                            name@,
                        ) != Some(target@) by {
                            if q < i {
                                assert(!found_in(self@, removed@, i as int, name@, target@));
                            }
                        }
                    }
                }
                if !found {
                    i += 1;
                }
            }
            let ghost before = strs(names@);
            if found {
                names.push(name.clone());
                assert(strs(names@) =~= before.push(name@));
                assert(!before.contains(name@)) by {
                    if keys.subrange(0, k as int).contains(name@) {
                        let q = choose|q: int|
                            0 <= q < k && keys.subrange(0, k as int)[q] == name@;
                        assert(keys[q] == keys[k as int]);
                    }
                }
            }
            proof {
                let upto = keys.subrange(0, k as int + 1);
                assert(upto =~= keys.subrange(0, k as int).push(name@));
                assert forall|n: Seq<char>|
                    #![trigger strs(names@).contains(n)]
                    strs(names@).contains(n) <==> upto.contains(n) && found_in(
                        self@,
                        removed@,
                        removed@.len() as int,
                        n,
                        self@.links[n],
                    ) by {
                    lemma_contains_push(keys.subrange(0, k as int), name@, n);
                    lemma_contains_push(before, name@, n);
                    assert(before.contains(n) <==> keys.subrange(0, k as int).contains(n)
                        && found_in(self@, removed@, removed@.len() as int, n, self@.links[n]));
                }
            }
            k += 1;
        }
        proof {
            assert(keys.subrange(0, count as int) =~= keys);
        }
        names
    }

    /// Collects garbage: every package whose hash is not in `keep_hashes`
    /// is deactivated and then taken out of the store, and with it every link
    /// that pointed into it.  Returns the packages removed and the links that
    /// pointed into them: what has to go from disk.
    pub fn gc(&mut self, keep_hashes: &Vec<String>) -> (collected: Collected)
        ensures
            final(self)@ == old(self)@.gc(strs(keep_hashes@)),
            spec_collects(collected.removed@, old(self)@, strs(keep_hashes@)),
            forall|n: Seq<char>|
                #![trigger strs(collected.unlinked@).contains(n)]
                strs(collected.unlinked@).contains(n) <==> old(self)@.points_into_collected(
                    strs(keep_hashes@),
                    n,
                ),
            strs(collected.unlinked@).no_duplicates(),
            final(self)@.wf(),
    {
        proof {
            use_type_invariant(&*self);
        }
        let ghost before = self@;
        let ghost keep = strs(keep_hashes@);
        let removed = self.doomed(keep_hashes);
        let unlinked = self.links_into(&removed);
        proof {
            assert forall|n: Seq<char>|
                before.links.contains_key(n) implies (found_in(
                before,
                removed@,
                removed@.len() as int,
                n,
                before.links[n],
            ) <==> before.points_into_collected(keep, n)) by {
                let target = before.links[n];
                if found_in(before, removed@, removed@.len() as int, n, target) {
                    let k = choose|k: int|
                        0 <= k < removed@.len() && before.find_binary_path(
                            (#[trigger] removed@[k]).path@,
                            n,
                        ) == Some(target);
                    let h = removed@[k].hash@;
                    assert(removed@[k]@ == before.describe(h));
                    assert(before.collected(keep, h) && before.points_into(h, n, target));
                }
                if before.points_into_collected(keep, n) {
                    let h = choose|h: Seq<char>| #[trigger]
                        before.collected(keep, h) && before.points_into(h, n, target);
                    let i = choose|i: int|
                        0 <= i < removed@.len() && (#[trigger] removed@[i]).hash@ == h;
                    assert(removed@[i]@ == before.describe(h));
                    assert(before.find_binary_path(removed@[i].path@, n) == Some(target));
                }
            }
        }
        let mut links: StrMap<String> = StrMap::new();
        core::mem::swap(&mut links, &mut self.links);
        let mut packages: StrMap<Layout> = StrMap::new();
        core::mem::swap(&mut packages, &mut self.packages);
        unlink_all(&mut links, &unlinked);
        let ghost pruned = links@;
        let mut i: usize = 0;
        assert(links@ =~= Map::new(
            |n: Seq<char>| pruned.contains_key(n) && !named_by(removed@, 0, n),
            |n: Seq<char>| pruned[n],
        ));
        assert(packages@ =~= Map::new(
            |h: Seq<char>| before.has(h) && !hashed_by(removed@, 0, h),
            |h: Seq<char>| before.packages[h],
        ));
        while i < removed.len()
            invariant
                i <= removed.len(),
                links@ == Map::new(
                    |n: Seq<char>| pruned.contains_key(n) && !named_by(removed@, i as int, n),
                    |n: Seq<char>| pruned[n],
                ),
                packages@ == Map::new(
                    |h: Seq<char>| before.has(h) && !hashed_by(removed@, i as int, h),
                    |h: Seq<char>| before.packages[h],
                ),
            decreases removed.len() - i,
        {
            unlink_all(&mut links, &removed[i].binaries);
            packages.remove(removed[i].hash.as_str());
            proof {
                assert forall|n: Seq<char>|
                    named_by(removed@, i as int + 1, n) <==> (named_by(removed@, i as int, n)
                        || strs(removed@[i as int].binaries@).contains(n)) by {
                    if named_by(removed@, i as int + 1, n) {
                        let k = choose|k: int|
                            0 <= k < i + 1 && k < removed@.len() && strs(
                                (#[trigger] removed@[k]).binaries@,
                            ).contains(n);
                        if k < i {
                            assert(named_by(removed@, i as int, n));
                        }
                    }
                    if named_by(removed@, i as int, n) {
                        let k = choose|k: int|
                            0 <= k < i && k < removed@.len() && strs(
                                (#[trigger] removed@[k]).binaries@,
                            ).contains(n);
                        assert(0 <= k < i + 1);
                    }
                    if strs(removed@[i as int].binaries@).contains(n) {
                        assert(named_by(removed@, i as int + 1, n));
                    }
                }
                assert forall|h: Seq<char>|
                    hashed_by(removed@, i as int + 1, h) <==> (hashed_by(removed@, i as int, h)
                        || removed@[i as int].hash@ == h) by {
                    if hashed_by(removed@, i as int + 1, h) {
                        let k = choose|k: int|
                            0 <= k < i + 1 && k < removed@.len() && (#[trigger] removed@[k]).hash@
                                == h;
                        if k < i {
                            assert(hashed_by(removed@, i as int, h));
                        }
                    }
                    if hashed_by(removed@, i as int, h) {
                        let k = choose|k: int|
                            0 <= k < i && k < removed@.len() && (#[trigger] removed@[k]).hash@
                                == h;
                        assert(0 <= k < i + 1);
                    }
                    if removed@[i as int].hash@ == h {
                        assert(hashed_by(removed@, i as int + 1, h));
                    }
                }
                assert(links@ =~= Map::new(
                    |n: Seq<char>| pruned.contains_key(n) && !named_by(removed@, i as int + 1, n),
                    |n: Seq<char>| pruned[n],
                ));
                assert(packages@ =~= Map::new(
                    |h: Seq<char>| before.has(h) && !hashed_by(removed@, i as int + 1, h),
                    |h: Seq<char>| before.packages[h],
                ));
            }
            i += 1;
        }
        proof {
            let after = before.gc(keep);
            let n_removed = removed@.len() as int;
            assert(i as int == n_removed);
            assert forall|h: Seq<char>| #[trigger]
                hashed_by(removed@, n_removed, h) <==> before.collected(keep, h) by {
                if before.collected(keep, h) {
                    let i = choose|i: int|
                        0 <= i < removed@.len() && (#[trigger] removed@[i]).hash@ == h;
                    assert(hashed_by(removed@, n_removed, h));
                }
                if hashed_by(removed@, n_removed, h) {
                    let k = choose|k: int|
                        0 <= k < n_removed && k < removed@.len() && (#[trigger] removed@[k]).hash@
                            == h;
                    assert(before.collected(keep, removed@[k].hash@));
                }
            }
            assert forall|n: Seq<char>| #[trigger]
                named_by(removed@, n_removed, n) <==> before.offered_by_collected(keep, n) by {
                if before.offered_by_collected(keep, n) {
                    let h = choose|h: Seq<char>| #[trigger]
                        before.collected(keep, h) && spec_find_binaries(
                            before.packages[h],
                        ).contains(n);
                    let i = choose|i: int|
                        0 <= i < removed@.len() && (#[trigger] removed@[i]).hash@ == h;
                    assert(removed@[i]@ == before.describe(h));
                    assert(named_by(removed@, n_removed, n));
                }
                if named_by(removed@, n_removed, n) {
                    let k = choose|k: int|
                        0 <= k < n_removed && k < removed@.len() && strs(
                            (#[trigger] removed@[k]).binaries@,
                        ).contains(n);
                    assert(before.collected(keep, removed@[k].hash@));
                    assert(removed@[k]@ == before.describe(removed@[k].hash@));
                }
            }
            assert forall|n: Seq<char>| #[trigger]
                pruned.contains_key(n) <==> (before.links.contains_key(n)
                    && !before.points_into_collected(keep, n)) by {
                assert(strs(unlinked@).contains(n) <==> before.links.contains_key(n) && found_in(
                    before,
                    removed@,
                    n_removed,
                    n,
                    before.links[n],
                ));
            }
            assert forall|h: Seq<char>| packages@.contains_key(h) <==> after.packages.contains_key(
                h,
            ) by {
                assert(hashed_by(removed@, n_removed, h) <==> before.collected(keep, h));
            }
            assert(packages@ =~= after.packages);
            assert forall|n: Seq<char>| links@.contains_key(n) <==> after.links.contains_key(n) by {
                assert(named_by(removed@, n_removed, n) <==> before.offered_by_collected(keep, n));
                assert(pruned.contains_key(n) <==> (before.links.contains_key(n)
                    && !before.points_into_collected(keep, n)));
            }
            assert forall|n: Seq<char>| pruned.contains_key(n) implies pruned[n]
                == before.links[n] by {}
            assert(links@ =~= after.links);
            assert forall|m: Seq<char>| #[trigger]
                after.links.contains_key(m) implies after.link_resolves(m, after.links[m]) by {
                assert forall|h: Seq<char>|
                    before.points_into(h, m, after.links[m]) implies #[trigger] after.has(h)
                    && after.packages[h] == before.packages[h] by {
                    if !keep.contains(h) {
                        assert(before.collected(keep, h));
                        assert(before.points_into_collected(keep, m));
                    }
                }
                lemma_link_still_resolves(before, after, m, after.links[m]);
            }
        }
        self.packages = packages;
        self.links = links;
        Collected { removed, unlinked }
    }
}

} // verus!
