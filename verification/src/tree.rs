//! Hashing of a file or a directory tree.
//!
//! A file's digest is that of its bytes.  A directory's digest is that of
//! its entries taken in the byte-wise order of their names, each giving its
//! name and then its own digest.  Nothing else enters: not the order in
//! which the entries were listed, and no metadata.

use vstd::prelude::*;
use vstd::utf8::{encode_utf8, encode_utf8_decode_utf8};
use crate::hasher::{sha256, sha256_digest, spec_hex, to_hex};
use crate::order::{
    bytes_le, lemma_bytes_le_antisymmetric, lemma_bytes_le_total, lemma_bytes_le_transitive,
    spec_bytes_le,
};

verus! {

/// A file or directory as it was read, with all that lies below it.
#[derive(Debug)]
pub enum Tree {
    /// A regular file and its bytes.
    File { name: String, bytes: Vec<u8> },
    /// A directory and its entries, in the order in which they were listed.
    Dir { name: String, children: Vec<Tree> },
    /// Anything else: a broken link, a device.
    Other { name: String },
}

/// What the contracts say of a [`Tree`].
pub enum TreeView {
    File { name: Seq<char>, bytes: Seq<u8> },
    Dir { name: Seq<char>, children: Seq<TreeView> },
    Other { name: Seq<char> },
}

/// The views of the first `n` trees of a list.
pub open spec fn spec_views(trees: Seq<Tree>, n: nat) -> Seq<TreeView>
    decreases trees, n,
{
    if n == 0 || n > trees.len() {
        Seq::empty()
    } else {
        spec_views(trees, (n - 1) as nat).push(spec_view(trees[n - 1], 0))
    }
}

/// The view of a tree.  (The second argument is always zero.)
pub open spec fn spec_view(tree: Tree, zero: nat) -> TreeView
    decreases tree, zero,
{
    match tree {
        Tree::File { name, bytes } => TreeView::File { name: name@, bytes: bytes@ },
        Tree::Dir { name, children } => TreeView::Dir {
            name: name@,
            children: spec_views(children@, children@.len()),
        },
        Tree::Other { name } => TreeView::Other { name: name@ },
    }
}

impl View for Tree {
    type V = TreeView;

    open spec fn view(&self) -> TreeView {
        spec_view(*self, 0)
    }
}

impl TreeView {
    /// The base name of the file or directory.
    pub open spec fn name(self) -> Seq<char> {
        match self {
            TreeView::File { name, .. } => name,
            TreeView::Dir { name, .. } => name,
            TreeView::Other { name } => name,
        }
    }
}

/// What a directory entry gives to the digest of its directory: the bytes of
/// its name, by which entries are ordered, and its own digest.
pub struct Item {
    pub key: Seq<u8>,
    pub digest: Seq<u8>,
}

/// A sorted list with one more item, put behind the items that come no
/// later than it.
pub open spec fn spec_insert(sorted: Seq<Item>, item: Item) -> Seq<Item>
    decreases sorted.len(),
{
    if sorted.len() == 0 {
        seq![item]
    } else if spec_bytes_le(sorted.last().key, item.key) {
        sorted.push(item)
    } else {
        spec_insert(sorted.drop_last(), item).push(sorted.last())
    }
}

/// The items in the order of their keys; items with the same key keep the
/// order in which they stood.
pub open spec fn spec_sort(items: Seq<Item>) -> Seq<Item>
    decreases items.len(),
{
    if items.len() == 0 {
        items
    } else {
        spec_insert(spec_sort(items.drop_last()), items.last())
    }
}

/// What is hashed for a directory: for each item in turn its key and then
/// its digest.
pub open spec fn spec_fold(items: Seq<Item>) -> Seq<u8>
    decreases items.len(),
{
    if items.len() == 0 {
        Seq::empty()
    } else {
        spec_fold(items.drop_last()) + items.last().key + items.last().digest
    }
}

/// The items of the first `n` entries of a directory.
pub open spec fn spec_items(children: Seq<TreeView>, n: nat) -> Seq<Item>
    decreases children, n,
{
    if n == 0 || n > children.len() {
        Seq::empty()
    } else {
        spec_items(children, (n - 1) as nat).push(
            Item {
                key: encode_utf8(children[n - 1].name()),
                digest: spec_digest(children[n - 1], 0),
            },
        )
    }
}

/// The digest of a tree.  (The second argument is always zero.)
pub open spec fn spec_digest(tree: TreeView, zero: nat) -> Seq<u8>
    decreases tree, zero,
{
    match tree {
        TreeView::File { bytes, .. } => sha256(bytes),
        TreeView::Dir { children, .. } => sha256(
            spec_fold(spec_sort(spec_items(children, children.len()))),
        ),
        TreeView::Other { .. } => sha256(Seq::empty()),
    }
}

/// The content address of a file or directory: its digest in lowercase hex.
pub open spec fn spec_hash_path(tree: TreeView) -> Seq<char> {
    spec_hex(spec_digest(tree, 0))
}

/// An entry's name bytes and digest, as they are held while a directory is
/// hashed.
struct Entry {
    key: Vec<u8>,
    digest: Vec<u8>,
}

impl View for Entry {
    type V = Item;

    closed spec fn view(&self) -> Item {
        Item { key: self.key@, digest: self.digest@ }
    }
}

spec fn items_view(entries: Seq<Entry>) -> Seq<Item> {
    Seq::new(entries.len(), |i: int| entries[i]@)
}

/// The items picked out of `items` by the indices in `order`.
spec fn picked(order: Seq<usize>, items: Seq<Item>) -> Seq<Item> {
    Seq::new(order.len(), |k: int| items[order[k] as int])
}

/// Putting an item into a sorted list is putting it at the place behind
/// which every item comes later, and before which the nearest does not.
proof fn lemma_insert_at(sorted: Seq<Item>, item: Item, p: int)
    requires
        0 <= p <= sorted.len(),
        forall|k: int| p <= k < sorted.len() ==> !spec_bytes_le(#[trigger] sorted[k].key, item.key),
        p == 0 || spec_bytes_le(sorted[p - 1].key, item.key),
    ensures
        spec_insert(sorted, item) == sorted.insert(p, item),
    decreases sorted.len(),
{
    if sorted.len() == 0 {
        assert(seq![item] =~= sorted.insert(p, item));
    } else if p == sorted.len() {
        assert(sorted.push(item) =~= sorted.insert(p, item));
    } else {
        assert(!spec_bytes_le(sorted[sorted.len() - 1].key, item.key));
        let front = sorted.drop_last();
        assert forall|k: int| p <= k < front.len() implies !spec_bytes_le(
            #[trigger] front[k].key,
            item.key,
        ) by {
            assert(front[k] == sorted[k]);
        }
        lemma_insert_at(front, item, p);
        assert(front.insert(p, item).push(sorted.last()) =~= sorted.insert(p, item));
    }
}

/// The order in which the entries are hashed: their indices, by key.
fn sorted_order(entries: &Vec<Entry>) -> (order: Vec<usize>)
    ensures
        order@.len() == entries@.len(),
        forall|k: int| 0 <= k < order@.len() ==> #[trigger] order@[k] < entries@.len(),
        picked(order@, items_view(entries@)) == spec_sort(items_view(entries@)),
{
    let ghost items = items_view(entries@);
    let mut order: Vec<usize> = Vec::new();
    let mut i: usize = 0;
    proof {
        assert(items.subrange(0, 0) =~= Seq::<Item>::empty());
        assert(picked(order@, items) =~= spec_sort(items.subrange(0, 0)));
    }
    while i < entries.len()
        invariant
            i <= entries.len(),
            items == items_view(entries@),
            order@.len() == i,
            forall|k: int| 0 <= k < order@.len() ==> #[trigger] order@[k] < i,
            picked(order@, items) == spec_sort(items.subrange(0, i as int)),
        decreases entries.len() - i,
    {
        let ghost sorted = picked(order@, items);
        let mut p: usize = order.len();
        while p > 0 && !bytes_le(entries[order[p - 1]].key.as_slice(), entries[i].key.as_slice())
            invariant
                p <= order@.len(),
                i < entries.len(),
                items == items_view(entries@),
                sorted == picked(order@, items),
                forall|k: int| 0 <= k < order@.len() ==> #[trigger] order@[k] < i,
                forall|k: int|
                    p <= k < sorted.len() ==> !spec_bytes_le(
                        #[trigger] sorted[k].key,
                        items[i as int].key,
                    ),
            decreases p,
        {
            p -= 1;
        }
        proof {
            let upto = items.subrange(0, i as int + 1);
            assert(upto.drop_last() =~= items.subrange(0, i as int));
            assert(upto.last() == items[i as int]);
            lemma_insert_at(sorted, items[i as int], p as int);
        }
        order.insert(p, i);
        assert(picked(order@, items) =~= sorted.insert(p as int, items[i as int]));
        i += 1;
    }
    assert(items.subrange(0, entries.len() as int) =~= items);
    order
}

/// Appends `more` to `buffer`.
fn append_bytes(buffer: &mut Vec<u8>, more: &[u8])
    ensures
        final(buffer)@ == old(buffer)@ + more@,
{
    let ghost start = buffer@;
    let mut i: usize = 0;
    assert(buffer@ =~= start + more@.subrange(0, 0));
    while i < more.len()
        invariant
            i <= more.len(),
            buffer@ == start + more@.subrange(0, i as int),
        decreases more.len() - i,
    {
        buffer.push(more[i]);
        assert(buffer@ =~= start + more@.subrange(0, i as int + 1));
        i += 1;
    }
    assert(more@.subrange(0, more.len() as int) =~= more@);
}

/// The digest of a file or directory tree.
pub fn digest_tree(tree: &Tree) -> (digest: Vec<u8>)
    ensures
        digest@ == spec_digest(tree@, 0),
        digest@.len() == 32,
    decreases tree,
{
    match tree {
        Tree::File { bytes, .. } => sha256_digest(bytes.as_slice()),
        Tree::Other { .. } => {
            let nothing: Vec<u8> = Vec::new();
            assert(nothing@ =~= Seq::<u8>::empty());
            sha256_digest(nothing.as_slice())
        },
        Tree::Dir { children, .. } => {
            let ghost views = spec_views(children@, children@.len());
            proof {
                lemma_views(children@, children@.len());
            }
            let mut entries: Vec<Entry> = Vec::new();
            let mut i: usize = 0;
            assert(items_view(entries@) =~= spec_items(views, 0));
            while i < children.len()
                invariant
                    i <= children.len(),
                    tree is Dir,
                    tree->children == *children,
                    views == spec_views(children@, children@.len()),
                    views.len() == children@.len(),
                    forall|k: int| 0 <= k < views.len() ==> #[trigger] views[k] == children@[k]@,
                    items_view(entries@) == spec_items(views, i as nat),
                decreases children.len() - i,
            {
                let child = &children[i];
                let key = child.name().as_bytes_vec();
                proof {
                    assert(decreases_to!(tree => tree->children));
                    assert(decreases_to!(children => children[i as int]));
                }
                let digest = digest_tree(child);
                let ghost shown = items_view(entries@);
                entries.push(Entry { key, digest });
                assert(items_view(entries@) =~= shown.push(
                    Item {
                        key: encode_utf8(views[i as int].name()),
                        digest: spec_digest(views[i as int], 0),
                    },
                ));
                i += 1;
            }
            let order = sorted_order(&entries);
            let ghost items = items_view(entries@);
            let ghost sorted = spec_sort(items);
            let mut buffer: Vec<u8> = Vec::new();
            let mut k: usize = 0;
            assert(sorted.subrange(0, 0) =~= Seq::<Item>::empty());
            assert(buffer@ =~= spec_fold(sorted.subrange(0, 0)));
            while k < order.len()
                invariant
                    k <= order@.len(),
                    order@.len() == entries@.len(),
                    forall|j: int| 0 <= j < order@.len() ==> #[trigger] order@[j] < entries@.len(),
                    items == items_view(entries@),
                    sorted == picked(order@, items),
                    buffer@ == spec_fold(sorted.subrange(0, k as int)),
                decreases order.len() - k,
            {
                let entry = &entries[order[k]];
                proof {
                    let upto = sorted.subrange(0, k as int + 1);
                    assert(upto.drop_last() =~= sorted.subrange(0, k as int));
                    assert(upto.last() == entry@);
                }
                append_bytes(&mut buffer, entry.key.as_slice());
                append_bytes(&mut buffer, entry.digest.as_slice());
                k += 1;
            }
            assert(sorted.subrange(0, order.len() as int) =~= sorted);
            sha256_digest(buffer.as_slice())
        },
    }
}

/// The views of a list of trees are the views of its trees.
proof fn lemma_views(trees: Seq<Tree>, n: nat)
    requires
        n <= trees.len(),
    ensures
        spec_views(trees, n).len() == n,
        forall|k: int| 0 <= k < n ==> #[trigger] spec_views(trees, n)[k] == trees[k]@,
    decreases n,
{
    if n > 0 {
        lemma_views(trees, (n - 1) as nat);
    }
}

impl Tree {
    /// The base name of the file or directory.
    pub fn name(&self) -> (name: &str)
        ensures
            name@ == self@.name(),
    {
        match self {
            Tree::File { name, .. } => name.as_str(),
            Tree::Dir { name, .. } => name.as_str(),
            Tree::Other { name } => name.as_str(),
        }
    }

    /// Whether this is a directory.
    pub fn is_dir(&self) -> (dir: bool)
        ensures
            dir == (self@ is Dir),
    {
        match self {
            Tree::Dir { .. } => true,
            _ => false,
        }
    }
}

/// Hashes a file or directory tree.
pub fn hash_path(tree: &Tree) -> (hash: String)
    ensures
        hash@ == spec_hash_path(tree@),
        hash@.len() == 64,
{
    let digest = digest_tree(tree);
    to_hex(digest.as_slice())
}

/// Whether the keys of a list of items ascend.
pub open spec fn spec_keys_ascend(items: Seq<Item>) -> bool {
    forall|i: int, j: int|
        0 <= i < j < items.len() ==> spec_bytes_le(
            (#[trigger] items[i]).key,
            (#[trigger] items[j]).key,
        )
}

/// Whether no two items of a list have the same key.
pub open spec fn spec_keys_differ(items: Seq<Item>) -> bool {
    forall|i: int, j: int|
        0 <= i < j < items.len() ==> (#[trigger] items[i]).key != (#[trigger] items[j]).key
}

/// Putting an item into a list adds that item and nothing else.
pub proof fn lemma_insert_members(sorted: Seq<Item>, item: Item, x: Item)
    ensures
        spec_insert(sorted, item).len() == sorted.len() + 1,
        spec_insert(sorted, item).contains(x) <==> (sorted.contains(x) || x == item),
    decreases sorted.len(),
{
    let out = spec_insert(sorted, item);
    if sorted.len() == 0 {
        assert(out[0] == item);
        if out.contains(x) {
            let k = choose|k: int| 0 <= k < out.len() && out[k] == x;
        }
    } else if spec_bytes_le(sorted.last().key, item.key) {
        if sorted.contains(x) {
            let k = choose|k: int| 0 <= k < sorted.len() && sorted[k] == x;
            assert(out[k] == x);
        }
        if x == item {
            assert(out[sorted.len() as int] == x);
        }
        if out.contains(x) {
            let k = choose|k: int| 0 <= k < out.len() && out[k] == x;
            if k < sorted.len() {
                assert(sorted[k] == x);
            }
        }
    } else {
        let front = sorted.drop_last();
        let inner = spec_insert(front, item);
        lemma_insert_members(front, item, x);
        if sorted.contains(x) {
            let k = choose|k: int| 0 <= k < sorted.len() && sorted[k] == x;
            if k < front.len() {
                assert(front[k] == x);
                assert(inner.contains(x));
                let m = choose|m: int| 0 <= m < inner.len() && inner[m] == x;
                assert(out[m] == x);
            } else {
                assert(out[inner.len() as int] == x);
            }
        }
        if x == item {
            let m = choose|m: int| 0 <= m < inner.len() && inner[m] == x;
            assert(out[m] == x);
        }
        if out.contains(x) {
            let k = choose|k: int| 0 <= k < out.len() && out[k] == x;
            if k < inner.len() {
                assert(inner[k] == x);
                assert(inner.contains(x));
                if front.contains(x) {
                    let m = choose|m: int| 0 <= m < front.len() && front[m] == x;
                    assert(sorted[m] == x);
                }
            } else {
                assert(sorted[sorted.len() - 1] == x);
            }
        }
    }
}

/// Putting an item into an ascending list leaves it ascending; and if the
/// item's key is new to a list of different keys, the keys still differ.
pub proof fn lemma_insert_ascends(sorted: Seq<Item>, item: Item)
    requires
        spec_keys_ascend(sorted),
    ensures
        spec_keys_ascend(spec_insert(sorted, item)),
        (spec_keys_differ(sorted) && forall|k: int|
            0 <= k < sorted.len() ==> (#[trigger] sorted[k]).key != item.key)
            ==> spec_keys_differ(spec_insert(sorted, item)),
    decreases sorted.len(),
{
    let out = spec_insert(sorted, item);
    if sorted.len() == 0 {
    } else if spec_bytes_le(sorted.last().key, item.key) {
        assert forall|i: int, j: int| 0 <= i < j < out.len() implies spec_bytes_le(
            (#[trigger] out[i]).key,
            (#[trigger] out[j]).key,
        ) by {
            if j == sorted.len() {
                assert(out[i] == sorted[i]);
                if i < sorted.len() - 1 {
                    assert(spec_bytes_le(sorted[i].key, sorted[sorted.len() - 1].key));
                    lemma_bytes_le_transitive(sorted[i].key, sorted.last().key, item.key);
                }
            } else {
                assert(out[i] == sorted[i] && out[j] == sorted[j]);
            }
        }
        if spec_keys_differ(sorted) && forall|k: int|
            0 <= k < sorted.len() ==> (#[trigger] sorted[k]).key != item.key {
            assert forall|i: int, j: int| 0 <= i < j < out.len() implies (#[trigger] out[i]).key
                != (#[trigger] out[j]).key by {
                assert(out[i] == sorted[i]);
                if j < sorted.len() {
                    assert(out[j] == sorted[j]);
                }
            }
        }
    } else {
        let front = sorted.drop_last();
        let last = sorted.last();
        let inner = spec_insert(front, item);
        assert(spec_keys_ascend(front)) by {
            assert forall|i: int, j: int| 0 <= i < j < front.len() implies spec_bytes_le(
                (#[trigger] front[i]).key,
                (#[trigger] front[j]).key,
            ) by {
                assert(front[i] == sorted[i] && front[j] == sorted[j]);
            }
        }
        lemma_insert_ascends(front, item);
        lemma_insert_members(front, item, item);
        assert(out.len() == inner.len() + 1);
        assert forall|i: int, j: int| 0 <= i < j < out.len() implies spec_bytes_le(
            (#[trigger] out[i]).key,
            (#[trigger] out[j]).key,
        ) by {
            if j < inner.len() {
                assert(out[i] == inner[i] && out[j] == inner[j]);
            } else {
                assert(out[j] == last);
                assert(out[i] == inner[i]);
                lemma_insert_members(front, item, inner[i]);
                assert(inner.contains(inner[i]));
                if inner[i] == item {
                    lemma_bytes_le_total(last.key, item.key);
                } else {
                    let m = choose|m: int| 0 <= m < front.len() && front[m] == inner[i];
                    assert(sorted[m] == inner[i]);
                    assert(spec_bytes_le(sorted[m].key, sorted[sorted.len() - 1].key));
                }
            }
        }
        if spec_keys_differ(sorted) && forall|k: int|
            0 <= k < sorted.len() ==> (#[trigger] sorted[k]).key != item.key {
            assert(spec_keys_differ(front)) by {
                assert forall|i: int, j: int| 0 <= i < j < front.len() implies (
                #[trigger] front[i]).key != (#[trigger] front[j]).key by {
                    assert(front[i] == sorted[i] && front[j] == sorted[j]);
                }
            }
            assert forall|k: int| 0 <= k < front.len() implies (#[trigger] front[k]).key
                != item.key by {
                assert(front[k] == sorted[k]);
            }
            assert forall|i: int, j: int| 0 <= i < j < out.len() implies (#[trigger] out[i]).key
                != (#[trigger] out[j]).key by {
                if j < inner.len() {
                    assert(out[i] == inner[i] && out[j] == inner[j]);
                } else {
                    assert(out[j] == last);
                    assert(out[i] == inner[i]);
                    lemma_insert_members(front, item, inner[i]);
                    assert(inner.contains(inner[i]));
                    if inner[i] == item {
                        assert(sorted[sorted.len() - 1].key != item.key);
                    } else {
                        let m = choose|m: int| 0 <= m < front.len() && front[m] == inner[i];
                        assert(sorted[m] == inner[i]);
                        assert(sorted[m].key != sorted[sorted.len() - 1].key);
                    }
                }
            }
        }
    }
}

/// Sorting orders the items by their keys and neither adds nor drops one.
pub proof fn law_sort_orders(items: Seq<Item>)
    ensures
        spec_keys_ascend(spec_sort(items)),
        spec_sort(items).len() == items.len(),
        forall|x: Item|
            #![trigger spec_sort(items).contains(x)]
            #![trigger items.contains(x)]
            spec_sort(items).contains(x) <==> items.contains(x),
        spec_keys_differ(items) ==> spec_keys_differ(spec_sort(items)),
    decreases items.len(),
{
    if items.len() > 0 {
        let front = items.drop_last();
        let last = items.last();
        let sorted = spec_sort(front);
        law_sort_orders(front);
        lemma_insert_ascends(sorted, last);
        lemma_insert_members(sorted, last, last);
        assert forall|x: Item|
            #![trigger spec_sort(items).contains(x)]
            #![trigger items.contains(x)]
            spec_sort(items).contains(x) <==> items.contains(x) by {
            lemma_insert_members(sorted, last, x);
            assert(sorted.contains(x) <==> front.contains(x));
            if front.contains(x) {
                let k = choose|k: int| 0 <= k < front.len() && front[k] == x;
                assert(items[k] == x);
            }
            if items.contains(x) {
                let k = choose|k: int| 0 <= k < items.len() && items[k] == x;
                if k < front.len() {
                    assert(front[k] == x);
                }
            }
        }
        if spec_keys_differ(items) {
            assert(spec_keys_differ(front)) by {
                assert forall|i: int, j: int| 0 <= i < j < front.len() implies (
                #[trigger] front[i]).key != (#[trigger] front[j]).key by {
                    assert(front[i] == items[i] && front[j] == items[j]);
                }
            }
            assert forall|k: int| 0 <= k < sorted.len() implies (#[trigger] sorted[k]).key
                != last.key by {
                assert(sorted.contains(sorted[k]));
                let m = choose|m: int| 0 <= m < front.len() && front[m] == sorted[k];
                assert(items[m] == sorted[k]);
                assert(items[m].key != items[items.len() - 1].key);
            }
        }
    }
}

/// There is one way to order items of different keys: two ascending lists
/// of the same items are equal.
pub proof fn lemma_ascending_items_unique(a: Seq<Item>, b: Seq<Item>)
    requires
        spec_keys_ascend(a),
        spec_keys_ascend(b),
        spec_keys_differ(a),
        spec_keys_differ(b),
        forall|x: Item|
            #![trigger a.contains(x)]
            #![trigger b.contains(x)]
            a.contains(x) <==> b.contains(x),
    ensures
        a == b,
    decreases a.len(),
{
    if a.len() == 0 {
        if b.len() > 0 {
            assert(b.contains(b[0]));
        }
        assert(a =~= b);
    } else if b.len() == 0 {
        assert(a.contains(a[0]));
    } else {
        let x = a.last();
        let y = b.last();
        assert(a.contains(x));
        assert(b.contains(y));
        let i = choose|i: int| 0 <= i < b.len() && b[i] == x;
        let j = choose|j: int| 0 <= j < a.len() && a[j] == y;
        assert(spec_bytes_le(x.key, y.key)) by {
            if i < b.len() - 1 {
                assert(spec_bytes_le(b[i].key, b[b.len() - 1].key));
            } else {
                lemma_bytes_le_total(x.key, x.key);
            }
        }
        assert(spec_bytes_le(y.key, x.key)) by {
            if j < a.len() - 1 {
                assert(spec_bytes_le(a[j].key, a[a.len() - 1].key));
            } else {
                lemma_bytes_le_total(y.key, y.key);
            }
        }
        lemma_bytes_le_antisymmetric(x.key, y.key);
        assert(j == a.len() - 1) by {
            if j < a.len() - 1 {
                assert(a[j].key != a[a.len() - 1].key);
            }
        }
        assert(x == y);
        let a0 = a.drop_last();
        let b0 = b.drop_last();
        assert forall|n: Item|
            #![trigger a0.contains(n)]
            #![trigger b0.contains(n)]
            a0.contains(n) <==> b0.contains(n) by {
            if a0.contains(n) {
                let k = choose|k: int| 0 <= k < a0.len() && a0[k] == n;
                assert(a[k] == n && a[k].key != a[a.len() - 1].key);
                assert(a.contains(n));
                let m = choose|m: int| 0 <= m < b.len() && b[m] == n;
                assert(m < b.len() - 1);
                assert(b0[m] == n);
            }
            if b0.contains(n) {
                let k = choose|k: int| 0 <= k < b0.len() && b0[k] == n;
                assert(b[k] == n && b[k].key != b[b.len() - 1].key);
                assert(b.contains(n));
                let m = choose|m: int| 0 <= m < a.len() && a[m] == n;
                assert(m < a.len() - 1);
                assert(a0[m] == n);
            }
        }
        assert(spec_keys_ascend(a0) && spec_keys_differ(a0)) by {
            assert forall|i: int, j: int| 0 <= i < j < a0.len() implies spec_bytes_le(
                (#[trigger] a0[i]).key,
                (#[trigger] a0[j]).key,
            ) && a0[i].key != a0[j].key by {
                assert(a0[i] == a[i] && a0[j] == a[j]);
            }
        }
        assert(spec_keys_ascend(b0) && spec_keys_differ(b0)) by {
            assert forall|i: int, j: int| 0 <= i < j < b0.len() implies spec_bytes_le(
                (#[trigger] b0[i]).key,
                (#[trigger] b0[j]).key,
            ) && b0[i].key != b0[j].key by {
                assert(b0[i] == b[i] && b0[j] == b[j]);
            }
        }
        lemma_ascending_items_unique(a0, b0);
        assert(a =~= a0.push(x));
        assert(b =~= b0.push(y));
    }
}

/// The item of each of the first `n` entries stands where the entry stands.
pub proof fn lemma_items(children: Seq<TreeView>, n: nat)
    requires
        n <= children.len(),
    ensures
        spec_items(children, n).len() == n,
        forall|k: int|
            0 <= k < n ==> #[trigger] spec_items(children, n)[k] == (Item {
                key: encode_utf8(children[k].name()),
                digest: spec_digest(children[k], 0),
            }),
    decreases n,
{
    if n > 0 {
        lemma_items(children, (n - 1) as nat);
    }
}

/// Whether no two entries of a directory have the same name.
pub open spec fn spec_names_differ(children: Seq<TreeView>) -> bool {
    forall|i: int, j: int|
        0 <= i < j < children.len() ==> (#[trigger] children[i]).name() != (
        #[trigger] children[j]).name()
}

/// Two directories whose entries give the same items, no name twice, have
/// the same digest.
proof fn lemma_same_items_same_digest(
    one: Seq<TreeView>,
    one_name: Seq<char>,
    other: Seq<TreeView>,
    other_name: Seq<char>,
)
    requires
        spec_names_differ(one),
        spec_names_differ(other),
        forall|x: Item|
            #![trigger spec_items(one, one.len()).contains(x)]
            #![trigger spec_items(other, other.len()).contains(x)]
            spec_items(one, one.len()).contains(x) <==> spec_items(other, other.len()).contains(x),
    ensures
        spec_digest(TreeView::Dir { name: one_name, children: one }, 0) == spec_digest(
            TreeView::Dir { name: other_name, children: other },
            0,
        ),
{
    let a = spec_items(one, one.len());
    let b = spec_items(other, other.len());
    lemma_items_differ(one);
    lemma_items_differ(other);
    law_sort_orders(a);
    law_sort_orders(b);
    assert forall|x: Item| spec_sort(a).contains(x) <==> spec_sort(b).contains(x) by {
        assert(spec_sort(a).contains(x) <==> a.contains(x));
        assert(a.contains(x) <==> b.contains(x));
        assert(spec_sort(b).contains(x) <==> b.contains(x));
    }
    lemma_ascending_items_unique(spec_sort(a), spec_sort(b));
}

/// The digest of a directory does not depend on the order in which its
/// entries were listed, nor on its own name: two directories that hold the
/// same entries, no name twice, have the same digest.
pub proof fn law_listing_order_is_immaterial(
    one: Seq<TreeView>,
    one_name: Seq<char>,
    other: Seq<TreeView>,
    other_name: Seq<char>,
)
    requires
        spec_names_differ(one),
        spec_names_differ(other),
        forall|t: TreeView|
            #![trigger one.contains(t)]
            #![trigger other.contains(t)]
            one.contains(t) <==> other.contains(t),
    ensures
        spec_digest(TreeView::Dir { name: one_name, children: one }, 0) == spec_digest(
            TreeView::Dir { name: other_name, children: other },
            0,
        ),
{
    let a = spec_items(one, one.len());
    let b = spec_items(other, other.len());
    lemma_items(one, one.len());
    lemma_items(other, other.len());
    assert forall|x: Item|
        #![trigger a.contains(x)]
        #![trigger b.contains(x)]
        a.contains(x) <==> b.contains(x) by {
        if a.contains(x) {
            let k = choose|k: int| 0 <= k < a.len() && a[k] == x;
            assert(one.contains(one[k]));
            let m = choose|m: int| 0 <= m < other.len() && other[m] == one[k];
            assert(b[m] == x);
        }
        if b.contains(x) {
            let k = choose|k: int| 0 <= k < b.len() && b[k] == x;
            assert(other.contains(other[k]));
            let m = choose|m: int| 0 <= m < one.len() && one[m] == other[k];
            assert(a[m] == x);
        }
    }
    lemma_same_items_same_digest(one, one_name, other, other_name);
}

/// Whether no directory of a tree, at any depth, holds a name twice.
pub open spec fn spec_names_differ_throughout(tree: TreeView) -> bool
    decreases tree,
{
    match tree {
        TreeView::Dir { children, .. } => spec_names_differ(children) && forall|i: int|
            0 <= i < children.len() ==> spec_names_differ_throughout(#[trigger] children[i]),
        _ => true,
    }
}

/// Whether two trees hold the same content: both are files with the same
/// bytes, or both are neither file nor directory, or both are directories
/// and each entry of one has an entry of the same name and the same content
/// in the other.  What the trees themselves are called, and in which order
/// any directory in them was listed, does not enter.  (The third argument
/// is always zero.)
pub open spec fn spec_same_content(one: TreeView, other: TreeView, zero: nat) -> bool
    decreases one, zero,
{
    match one {
        TreeView::File { bytes, .. } => other is File && other->File_bytes == bytes,
        TreeView::Other { .. } => other is Other,
        TreeView::Dir { children, .. } => {
            &&& other is Dir
            &&& forall|i: int|
                0 <= i < children.len() ==> spec_found_in(
                    #[trigger] children[i],
                    other->Dir_children,
                )
            &&& forall|j: int|
                0 <= j < other->Dir_children.len() ==> spec_found_among(
                    children,
                    #[trigger] other->Dir_children[j],
                )
        },
    }
}

/// Whether `others` has an entry with the name and the content of `entry`.
pub open spec fn spec_found_in(entry: TreeView, others: Seq<TreeView>) -> bool
    decreases entry, 1nat,
{
    exists|j: int|
        0 <= j < others.len() && entry.name() == (#[trigger] others[j]).name()
            && spec_same_content(entry, others[j], 0)
}

/// Whether `entries` has an entry with the name and the content of `other`.
pub open spec fn spec_found_among(entries: Seq<TreeView>, other: TreeView) -> bool
    decreases entries, 0nat,
{
    exists|i: int|
        0 <= i < entries.len() && (#[trigger] entries[i]).name() == other.name()
            && spec_same_content(entries[i], other, 0)
}

/// Hashing a tree is deterministic in full: two trees that hold the same
/// content have the same digest, whatever they are called and in whatever
/// order their directories were listed, at every depth.
pub proof fn law_same_content_same_digest(one: TreeView, other: TreeView)
    requires
        spec_names_differ_throughout(one),
        spec_names_differ_throughout(other),
        spec_same_content(one, other, 0),
    ensures
        spec_digest(one, 0) == spec_digest(other, 0),
        spec_hash_path(one) == spec_hash_path(other),
    decreases one,
{
    match one {
        TreeView::Dir { name, children } => {
            let others = other->Dir_children;
            let a = spec_items(children, children.len());
            let b = spec_items(others, others.len());
            lemma_items(children, children.len());
            lemma_items(others, others.len());
            assert forall|x: Item|
                #![trigger a.contains(x)]
                #![trigger b.contains(x)]
                a.contains(x) <==> b.contains(x) by {
                if a.contains(x) {
                    let i = choose|i: int| 0 <= i < a.len() && a[i] == x;
                    assert(spec_found_in(children[i], others));
                    let j = choose|j: int|
                        0 <= j < others.len() && children[i].name() == (
                        #[trigger] others[j]).name() && spec_same_content(
                            children[i],
                            others[j],
                            0,
                        );
                    law_same_content_same_digest(children[i], others[j]);
                    assert(b[j] == x);
                }
                if b.contains(x) {
                    let j = choose|j: int| 0 <= j < b.len() && b[j] == x;
                    assert(spec_found_among(children, others[j]));
                    let i = choose|i: int|
                        0 <= i < children.len() && (#[trigger] children[i]).name()
                            == others[j].name() && spec_same_content(children[i], others[j], 0);
                    law_same_content_same_digest(children[i], others[j]);
                    assert(a[i] == x);
                }
            }
            lemma_same_items_same_digest(children, name, others, other->Dir_name);
        },
        _ => {},
    }
}

/// Entries with different names give items with different keys.
proof fn lemma_items_differ(children: Seq<TreeView>)
    requires
        spec_names_differ(children),
    ensures
        spec_keys_differ(spec_items(children, children.len())),
{
    let items = spec_items(children, children.len());
    lemma_items(children, children.len());
    assert forall|i: int, j: int| 0 <= i < j < items.len() implies (#[trigger] items[i]).key != (
    #[trigger] items[j]).key by {
        encode_utf8_decode_utf8(children[i].name());
        encode_utf8_decode_utf8(children[j].name());
        assert(children[i].name() != children[j].name());
    }
}

} // verus!
