//! The byte-wise lexicographic order, by which names are sorted.

use vstd::prelude::*;
use vstd::utf8::{encode_utf8, encode_utf8_decode_utf8};
use crate::text::{contains_str, strs};

verus! {

/// Byte-wise lexicographic order: whether `a` comes no later than `b`.
pub open spec fn spec_bytes_le(a: Seq<u8>, b: Seq<u8>) -> bool
    decreases a.len(),
{
    if a.len() == 0 {
        true
    } else if b.len() == 0 {
        false
    } else if a[0] != b[0] {
        a[0] < b[0]
    } else {
        spec_bytes_le(a.drop_first(), b.drop_first())
    }
}

/// Whether `a` comes no later than `b` in byte-wise lexicographic order.
pub fn bytes_le(a: &[u8], b: &[u8]) -> (le: bool)
    ensures
        le == spec_bytes_le(a@, b@),
{
    let mut i: usize = 0;
    assert(a@.skip(0) =~= a@ && b@.skip(0) =~= b@);
    loop
        invariant
            i <= a.len(),
            i <= b.len(),
            spec_bytes_le(a@, b@) == spec_bytes_le(a@.skip(i as int), b@.skip(i as int)),
        decreases a.len() - i,
    {
        if i == a.len() {
            return true;
        }
        if i == b.len() {
            return false;
        }
        assert(a@.skip(i as int)[0] == a@[i as int] && b@.skip(i as int)[0] == b@[i as int]);
        if a[i] != b[i] {
            return a[i] < b[i];
        }
        assert(a@.skip(i as int).drop_first() =~= a@.skip(i as int + 1));
        assert(b@.skip(i as int).drop_first() =~= b@.skip(i as int + 1));
        i += 1;
    }
}

/// Of any two byte strings one comes no later than the other.
pub proof fn lemma_bytes_le_total(a: Seq<u8>, b: Seq<u8>)
    ensures
        spec_bytes_le(a, b) || spec_bytes_le(b, a),
    decreases a.len(),
{
    if a.len() > 0 && b.len() > 0 && a[0] == b[0] {
        lemma_bytes_le_total(a.drop_first(), b.drop_first());
    }
}

/// The order is transitive.
pub proof fn lemma_bytes_le_transitive(a: Seq<u8>, b: Seq<u8>, c: Seq<u8>)
    requires
        spec_bytes_le(a, b),
        spec_bytes_le(b, c),
    ensures
        spec_bytes_le(a, c),
    decreases a.len(),
{
    if a.len() > 0 && b.len() > 0 && c.len() > 0 && a[0] == b[0] && b[0] == c[0] {
        lemma_bytes_le_transitive(a.drop_first(), b.drop_first(), c.drop_first());
    }
}

/// Two byte strings of which each comes no later than the other are equal.
pub proof fn lemma_bytes_le_antisymmetric(a: Seq<u8>, b: Seq<u8>)
    requires
        spec_bytes_le(a, b),
        spec_bytes_le(b, a),
    ensures
        a == b,
    decreases a.len(),
{
    if a.len() > 0 {
        lemma_bytes_le_antisymmetric(a.drop_first(), b.drop_first());
        assert(a =~= seq![a[0]] + a.drop_first());
        assert(b =~= seq![b[0]] + b.drop_first());
    } else {
        assert(a =~= b);
    }
}

/// Whether the string `a` comes no later than `b` when both are compared
/// byte by byte in UTF-8, which is how strings are ordered.
pub open spec fn spec_str_le(a: Seq<char>, b: Seq<char>) -> bool {
    spec_bytes_le(encode_utf8(a), encode_utf8(b))
}

/// Whether a list of strings ascends, no string occurring twice.
pub open spec fn spec_ascending(names: Seq<Seq<char>>) -> bool {
    forall|i: int, j: int|
        0 <= i < j < names.len() ==> spec_str_le(#[trigger] names[i], #[trigger] names[j])
            && names[i] != names[j]
}

/// Strings of which each comes no later than the other are equal.
pub proof fn lemma_str_le_antisymmetric(a: Seq<char>, b: Seq<char>)
    requires
        spec_str_le(a, b),
        spec_str_le(b, a),
    ensures
        a == b,
{
    lemma_bytes_le_antisymmetric(encode_utf8(a), encode_utf8(b));
    encode_utf8_decode_utf8(a);
    encode_utf8_decode_utf8(b);
}

/// There is one ascending list of any set of strings: two ascending lists
/// that hold the same strings are equal.
pub proof fn law_ascending_is_unique(a: Seq<Seq<char>>, b: Seq<Seq<char>>)
    requires
        spec_ascending(a),
        spec_ascending(b),
        forall|n: Seq<char>|
            #![trigger a.contains(n)]
            #![trigger b.contains(n)]
            a.contains(n) <==> b.contains(n),
    ensures
        a == b,
    decreases a.len(),
{
    if a.len() == 0 {
        if b.len() > 0 {
            assert(b.contains(b[0]));
        }
        assert(a =~= b);
    } else if b.len() == 0 {
        assert(a.contains(a[0]));
    } else {
        let x = a.last();
        let y = b.last();
        assert(a.contains(x));
        assert(b.contains(y));
        let i = choose|i: int| 0 <= i < b.len() && b[i] == x;
        let j = choose|j: int| 0 <= j < a.len() && a[j] == y;
        assert(spec_str_le(x, y)) by {
            if i < b.len() - 1 {
                assert(spec_str_le(b[i], b[b.len() - 1]));
            } else {
                lemma_bytes_le_total(encode_utf8(x), encode_utf8(x));
            }
        }
        assert(spec_str_le(y, x)) by {
            if j < a.len() - 1 {
                assert(spec_str_le(a[j], a[a.len() - 1]));
            } else {
                lemma_bytes_le_total(encode_utf8(y), encode_utf8(y));
            }
        }
        lemma_str_le_antisymmetric(x, y);
        let a0 = a.drop_last();
        let b0 = b.drop_last();
        assert forall|n: Seq<char>|
            #![trigger a0.contains(n)]
            #![trigger b0.contains(n)]
            a0.contains(n) <==> b0.contains(n) by {
            if a0.contains(n) {
                let k = choose|k: int| 0 <= k < a0.len() && a0[k] == n;
                assert(a[k] == n && a[k] != a[a.len() - 1]);
                assert(a.contains(n));
                let m = choose|m: int| 0 <= m < b.len() && b[m] == n;
                assert(m < b.len() - 1);
                assert(b0[m] == n);
            }
            if b0.contains(n) {
                let k = choose|k: int| 0 <= k < b0.len() && b0[k] == n;
                assert(b[k] == n && b[k] != b[b.len() - 1]);
                assert(b.contains(n));
                let m = choose|m: int| 0 <= m < a.len() && a[m] == n;
                assert(m < a.len() - 1);
                assert(a0[m] == n);
            }
        }
        assert(spec_ascending(a0)) by {
            assert forall|i: int, j: int| 0 <= i < j < a0.len() implies spec_str_le(
                #[trigger] a0[i],
                #[trigger] a0[j],
            ) && a0[i] != a0[j] by {
                assert(a0[i] == a[i] && a0[j] == a[j]);
            }
        }
        assert(spec_ascending(b0)) by {
            assert forall|i: int, j: int| 0 <= i < j < b0.len() implies spec_str_le(
                #[trigger] b0[i],
                #[trigger] b0[j],
            ) && b0[i] != b0[j] by {
                assert(b0[i] == b[i] && b0[j] == b[j]);
            }
        }
        law_ascending_is_unique(a0, b0);
        assert(a =~= a0.push(x));
        assert(b =~= b0.push(y));
    }
}

/// Whether the string `a` comes no later than `b`.
pub fn str_le(a: &str, b: &str) -> (le: bool)
    ensures
        le == spec_str_le(a@, b@),
{
    bytes_le(a.as_bytes(), b.as_bytes())
}

/// Where `name` belongs in an ascending list that does not hold it: the
/// place at which it can be put so that the list still ascends.  Nowhere,
/// if the list holds it already.
pub fn ascending_place(names: &Vec<String>, name: &str) -> (place: Option<usize>)
    requires
        spec_ascending(strs(names@)),
    ensures
        place is None == strs(names@).contains(name@),
        place matches Some(p) ==> p <= names@.len() && spec_ascending(
            strs(names@).insert(p as int, name@),
        ),
{
    let ghost before = strs(names@);
    if contains_str(names, name) {
        return None;
    }
    let mut p: usize = names.len();
    while p > 0 && !str_le(names[p - 1].as_str(), name)
        invariant
            p <= names@.len(),
            before == strs(names@),
            forall|k: int| p <= k < before.len() ==> !spec_str_le(#[trigger] before[k], name@),
        decreases p,
    {
        p -= 1;
    }
    proof {
        let after = before.insert(p as int, name@);
        assert forall|k: int| 0 <= k < p implies spec_str_le(#[trigger] before[k], name@) by {
            if k < p - 1 {
                assert(spec_str_le(before[k], before[p - 1]));
                lemma_bytes_le_transitive(
                    encode_utf8(before[k]),
                    encode_utf8(before[p - 1]),
                    encode_utf8(name@),
                );
            }
        }
        assert forall|i: int, j: int| 0 <= i < j < after.len() implies spec_str_le(
            #[trigger] after[i],
            #[trigger] after[j],
        ) && after[i] != after[j] by {
            if j < p {
                assert(after[i] == before[i] && after[j] == before[j]);
            } else if j == p {
                assert(after[i] == before[i]);
                assert(before.contains(before[i]));
            } else if i < p {
                assert(after[i] == before[i] && after[j] == before[j - 1]);
            } else if i == p {
                assert(after[j] == before[j - 1]);
                assert(before.contains(before[j - 1]));
                lemma_bytes_le_total(encode_utf8(before[j - 1]), encode_utf8(name@));
            } else {
                assert(after[i] == before[i - 1] && after[j] == before[j - 1]);
            }
        }
    }
    Some(p)
}

/// What a list holds after something was put into it at place `p`.
pub proof fn lemma_insert_contains(list: Seq<Seq<char>>, p: int, name: Seq<char>, n: Seq<char>)
    requires
        0 <= p <= list.len(),
    ensures
        list.insert(p, name).contains(n) <==> (list.contains(n) || n == name),
{
    let after = list.insert(p, name);
    if after.contains(n) {
        let k = choose|k: int| 0 <= k < after.len() && after[k] == n;
        if k < p {
            assert(list[k] == n);
        } else if k > p {
            assert(list[k - 1] == n);
        }
    }
    if list.contains(n) {
        let k = choose|k: int| 0 <= k < list.len() && list[k] == n;
        if k < p {
            assert(after[k] == n);
        } else {
            assert(after[k + 1] == n);
        }
    }
    if n == name {
        assert(after[p] == n);
    }
}

/// Puts `name` into an ascending list, at its place, unless the list holds
/// it already.
pub fn insert_ascending(names: &mut Vec<String>, name: &str)
    requires
        spec_ascending(strs(old(names)@)),
    ensures
        spec_ascending(strs(final(names)@)),
        forall|n: Seq<char>|
            #![trigger strs(final(names)@).contains(n)]
            strs(final(names)@).contains(n) <==> (strs(old(names)@).contains(n) || n == name@),
{
    let ghost before = strs(names@);
    match ascending_place(names, name) {
        Some(p) => {
            names.insert(p, name.to_owned());
            proof {
                assert(strs(names@) =~= before.insert(p as int, name@));
                assert forall|n: Seq<char>|
                    #![trigger strs(names@).contains(n)]
                    strs(names@).contains(n) <==> (before.contains(n) || n == name@) by {
                    lemma_insert_contains(before, p as int, name@, n);
                }
            }
        },
        None => {},
    }
}

} // verus!
