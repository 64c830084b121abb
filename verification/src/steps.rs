//! The filesystem steps that carry out what the store decides.  Whoever
//! runs them needs to know nothing of the store: each step names the paths
//! that it works on.

use vstd::prelude::*;
use crate::store::{
    activations_view, Activation, ActivationView, Addition, AdditionView, Collected, PackageView,
    Store, StoredPackage, Work, WorkView,
};
use crate::text::{join, spec_join, strs};

verus! {

/// One step on the filesystem.
#[derive(Debug)]
pub enum Step {
    /// Create the directory and its parents; it may be there already.
    CreateDir { path: String },
    /// Remove the directory and all that lies below it; it need not be
    /// there.
    RemoveTree { path: String },
    /// Write content into the directory `into`, as `work` says.
    Write { work: Work, into: String },
    /// Move the directory `from` to `to`.  If `to` is taken, someone else
    /// stored the same content first: `from` is removed instead.
    MoveInto { from: String, to: String },
    /// Remove the file or link; it need not be there.
    RemoveLink { path: String },
    /// Make a symbolic link at `link` that points at `target`.
    Symlink { target: String, link: String },
}

/// What the contracts say of a [`Step`].
pub enum StepView {
    CreateDir { path: Seq<char> },
    RemoveTree { path: Seq<char> },
    Write { work: WorkView, into: Seq<char> },
    MoveInto { from: Seq<char>, to: Seq<char> },
    RemoveLink { path: Seq<char> },
    Symlink { target: Seq<char>, link: Seq<char> },
}

impl View for Step {
    type V = StepView;

    open spec fn view(&self) -> StepView {
        match self {
            Step::CreateDir { path } => StepView::CreateDir { path: path@ },
            Step::RemoveTree { path } => StepView::RemoveTree { path: path@ },
            Step::Write { work, into } => StepView::Write { work: work@, into: into@ },
            Step::MoveInto { from, to } => StepView::MoveInto { from: from@, to: to@ },
            Step::RemoveLink { path } => StepView::RemoveLink { path: path@ },
            Step::Symlink { target, link } => StepView::Symlink { target: target@, link: link@ },
        }
    }
}

/// The views of a list of steps, in order.
pub open spec fn steps_view(steps: Seq<Step>) -> Seq<StepView> {
    Seq::new(steps.len(), |i: int| steps[i]@)
}

/// The steps that make a store's directories.
pub open spec fn spec_setup_steps(store_dir: Seq<char>, bin_dir: Seq<char>) -> Seq<StepView> {
    seq![StepView::CreateDir { path: store_dir }, StepView::CreateDir { path: bin_dir }]
}

/// The steps that carry out an addition: none if there is no work; else the
/// staging directory is made anew, the content is written into it, and it
/// is moved into place.
pub open spec fn spec_addition_steps(addition: AdditionView) -> Seq<StepView> {
    if addition.work is Nothing {
        Seq::empty()
    } else {
        seq![
            StepView::RemoveTree { path: addition.staging },
            StepView::CreateDir { path: addition.staging },
            StepView::Write { work: addition.work, into: addition.staging },
            StepView::MoveInto { from: addition.staging, to: addition.path },
        ]
    }
}

/// The steps that make the first `n` links: for each, what is at the link's
/// place is removed, and then the link is made.
pub open spec fn spec_link_steps(links: Seq<ActivationView>, n: nat) -> Seq<StepView>
    decreases n,
{
    if n == 0 || n > links.len() {
        Seq::empty()
    } else {
        spec_link_steps(links, (n - 1) as nat).push(
            StepView::RemoveLink { path: links[n - 1].link },
        ).push(StepView::Symlink { target: links[n - 1].target, link: links[n - 1].link })
    }
}

/// The steps that remove the first `n` of `paths`.
pub open spec fn spec_unlink_steps(paths: Seq<Seq<char>>, n: nat) -> Seq<StepView>
    decreases n,
{
    if n == 0 || n > paths.len() {
        Seq::empty()
    } else {
        spec_unlink_steps(paths, (n - 1) as nat).push(StepView::RemoveLink { path: paths[n - 1] })
    }
}

/// The paths of the links of the first `n` of `names`, in the bin area
/// `bin_dir`.
pub open spec fn spec_link_paths(bin_dir: Seq<char>, names: Seq<Seq<char>>) -> Seq<Seq<char>> {
    Seq::new(names.len(), |i: int| spec_join(bin_dir, names[i]))
}

/// The steps that remove the first `n` packages from disk: for each, the
/// links of its binaries go, and then its directory.
pub open spec fn spec_removal_steps(
    bin_dir: Seq<char>,
    removed: Seq<PackageView>,
    n: nat,
) -> Seq<StepView>
    decreases n,
{
    if n == 0 || n > removed.len() {
        Seq::empty()
    } else {
        let links = spec_link_paths(bin_dir, removed[n - 1].binaries);
        (spec_removal_steps(bin_dir, removed, (n - 1) as nat) + spec_unlink_steps(
            links,
            links.len(),
        )).push(StepView::RemoveTree { path: removed[n - 1].path })
    }
}

/// The steps that take from disk what a collection took from the store:
/// the links called by `unlinked` go first, then the packages `removed`.
pub open spec fn spec_collection_steps(
    bin_dir: Seq<char>,
    unlinked: Seq<Seq<char>>,
    removed: Seq<PackageView>,
) -> Seq<StepView> {
    let links = spec_link_paths(bin_dir, unlinked);
    spec_unlink_steps(links, links.len()) + spec_removal_steps(bin_dir, removed, removed.len())
}

/// The views of a list of packages, in order.
pub open spec fn packages_view(packages: Seq<StoredPackage>) -> Seq<PackageView> {
    Seq::new(packages.len(), |i: int| packages[i]@)
}

fn copy_work(work: &Work) -> (same: Work)
    ensures
        same@ == work@,
{
    match work {
        Work::Nothing => Work::Nothing,
        Work::Unpack(kind) => Work::Unpack(*kind),
        Work::WriteExecutable { name, mode } => Work::WriteExecutable {
            name: name.clone(),
            mode: *mode,
        },
        Work::CopyTree => Work::CopyTree,
        Work::CopyFile { name } => Work::CopyFile { name: name.clone() },
    }
}

/// The steps that make a store's directories.
pub fn setup_steps(store: &Store) -> (steps: Vec<Step>)
    ensures
        steps_view(steps@) == spec_setup_steps(store@.store_dir, store@.bin_dir),
{
    let mut steps: Vec<Step> = Vec::new();
    steps.push(Step::CreateDir { path: store.store_dir().to_owned() });
    steps.push(Step::CreateDir { path: store.bin_dir().to_owned() });
    assert(steps_view(steps@) =~= spec_setup_steps(store@.store_dir, store@.bin_dir));
    steps
}

/// The steps that carry out an addition.
pub fn addition_steps(addition: &Addition) -> (steps: Vec<Step>)
    ensures
        steps_view(steps@) == spec_addition_steps(addition@),
{
    let mut steps: Vec<Step> = Vec::new();
    match &addition.work {
        Work::Nothing => {
            assert(steps_view(steps@) =~= spec_addition_steps(addition@));
        },
        work => {
            steps.push(Step::RemoveTree { path: addition.staging.clone() });
            steps.push(Step::CreateDir { path: addition.staging.clone() });
            steps.push(Step::Write { work: copy_work(work), into: addition.staging.clone() });
            steps.push(
                Step::MoveInto { from: addition.staging.clone(), to: addition.path.clone() },
            );
            assert(steps_view(steps@) =~= spec_addition_steps(addition@));
        },
    }
    steps
}

/// The steps that make the links of an activation.
pub fn link_steps(links: &Vec<Activation>) -> (steps: Vec<Step>)
    ensures
        steps_view(steps@) == spec_link_steps(activations_view(links@), links@.len()),
{
    let mut steps: Vec<Step> = Vec::new();
    let mut i: usize = 0;
    assert(steps_view(steps@) =~= spec_link_steps(activations_view(links@), 0));
    while i < links.len()
        invariant
            i <= links.len(),
            steps_view(steps@) == spec_link_steps(activations_view(links@), i as nat),
        decreases links.len() - i,
    {
        let ghost before = steps_view(steps@);
        steps.push(Step::RemoveLink { path: links[i].link.clone() });
        steps.push(
            Step::Symlink { target: links[i].target.clone(), link: links[i].link.clone() },
        );
        proof {
            assert(activations_view(links@)[i as int] == links@[i as int]@);
            assert(steps_view(steps@) =~= before.push(
                StepView::RemoveLink { path: links@[i as int].link@ },
            ).push(
                StepView::Symlink { target: links@[i as int].target@, link: links@[i as int].link@ },
            ));
        }
        i += 1;
    }
    steps
}

/// Appends to `steps` the removal of each of `paths`.
fn push_unlink_steps(steps: &mut Vec<Step>, paths: &Vec<String>)
    ensures
        steps_view(final(steps)@) == steps_view(old(steps)@) + spec_unlink_steps(
            strs(paths@),
            paths@.len(),
        ),
{
    let ghost start = steps_view(steps@);
    let mut i: usize = 0;
    assert(steps_view(steps@) =~= start + spec_unlink_steps(strs(paths@), 0));
    while i < paths.len()
        invariant
            i <= paths.len(),
            steps_view(steps@) == start + spec_unlink_steps(strs(paths@), i as nat),
        decreases paths.len() - i,
    {
        let ghost before = steps_view(steps@);
        steps.push(Step::RemoveLink { path: paths[i].clone() });
        proof {
            assert(strs(paths@)[i as int] == paths@[i as int]@);
            assert(steps_view(steps@) =~= before.push(
                StepView::RemoveLink { path: paths@[i as int]@ },
            ));
            assert(steps_view(steps@) =~= start + spec_unlink_steps(
                strs(paths@),
                (i + 1) as nat,
            ));
        }
        i += 1;
    }
}

/// The steps that remove links: one for each path.
pub fn unlink_steps(paths: &Vec<String>) -> (steps: Vec<Step>)
    ensures
        steps_view(steps@) == spec_unlink_steps(strs(paths@), paths@.len()),
{
    let mut steps: Vec<Step> = Vec::new();
    assert(steps_view(steps@) =~= Seq::<StepView>::empty());
    push_unlink_steps(&mut steps, paths);
    assert(steps_view(steps@) =~= spec_unlink_steps(strs(paths@), paths@.len()));
    steps
}

/// The paths of the links called by `names`.
fn link_paths(store: &Store, names: &Vec<String>) -> (paths: Vec<String>)
    ensures
        strs(paths@) == spec_link_paths(store@.bin_dir, strs(names@)),
{
    let mut paths: Vec<String> = Vec::new();
    let mut j: usize = 0;
    while j < names.len()
        invariant
            j <= names.len(),
            paths@.len() == j,
            forall|k: int|
                0 <= k < j ==> (#[trigger] paths@[k])@ == spec_join(store@.bin_dir, names@[k]@),
        decreases names.len() - j,
    {
        paths.push(join(store.bin_dir(), names[j].as_str()));
        j += 1;
    }
    assert(strs(paths@) =~= spec_link_paths(store@.bin_dir, strs(names@)));
    paths
}

/// The steps that take from disk what a collection took from the store:
/// first the links that pointed into a removed package, then each removed
/// package.
pub fn removal_steps(store: &Store, collected: &Collected) -> (steps: Vec<Step>)
    ensures
        steps_view(steps@) == spec_collection_steps(
            store@.bin_dir,
            strs(collected.unlinked@),
            packages_view(collected.removed@),
        ),
{
    let removed = &collected.removed;
    let ghost bin_dir = store@.bin_dir;
    let ghost views = packages_view(removed@);
    let pointing = link_paths(store, &collected.unlinked);
    let mut steps = unlink_steps(&pointing);
    let ghost first = steps_view(steps@);
    let mut i: usize = 0;
    assert(steps_view(steps@) =~= first + spec_removal_steps(bin_dir, views, 0));
    while i < removed.len()
        invariant
            i <= removed.len(),
            bin_dir == store@.bin_dir,
            views == packages_view(removed@),
            steps_view(steps@) == first + spec_removal_steps(bin_dir, views, i as nat),
        decreases removed.len() - i,
    {
        let pkg = &removed[i];
        assert(views[i as int] == pkg@);
        let links = link_paths(store, &pkg.binaries);
        let ghost before = steps_view(steps@);
        push_unlink_steps(&mut steps, &links);
        let ghost unlinked = steps_view(steps@);
        steps.push(Step::RemoveTree { path: pkg.path.clone() });
        assert(steps_view(steps@) =~= unlinked.push(StepView::RemoveTree { path: pkg.path@ }));
        assert(steps_view(steps@) =~= first + spec_removal_steps(bin_dir, views, (i + 1) as nat));
        i += 1;
    }
    steps
}

} // verus!
