//! Small helpers on strings that the rest of the library builds on.

use vstd::prelude::*;

verus! {

/// Appends one character to `s`.
///
/// Trusted: stands for `String::push`, which the standard library documents
/// as appending the given character to the end of the string.
#[verifier::external_body]
pub(crate) fn push_char(s: &mut String, c: char)
    ensures
        final(s)@ == old(s)@.push(c),
{
    s.push(c);
}

/// The path made of `dir`, a slash and `name`.
pub open spec fn spec_join(dir: Seq<char>, name: Seq<char>) -> Seq<char> {
    dir + seq!['/'] + name
}

/// Joins a directory and a name below it with a single slash.
pub fn join(dir: &str, name: &str) -> (path: String)
    ensures
        path@ == spec_join(dir@, name@),
{
    proof {
        reveal_strlit("/");
    }
    let mut path = dir.to_owned();
    path.append("/");
    path.append(name);
    assert("/"@ =~= seq!['/']);
    path
}

/// The character sequences of a list of strings, in order.
pub open spec fn strs(v: Seq<String>) -> Seq<Seq<char>> {
    Seq::new(v.len(), |i: int| v[i]@)
}

/// The path that `path` names when it is given below `base`: `path`
/// itself if it starts at the root or `base` is empty; else `base`, a slash
/// unless `base` ends in one, and `path`.
pub open spec fn spec_path_join(base: Seq<char>, path: Seq<char>) -> Seq<char> {
    if (path.len() > 0 && path[0] == '/') || base.len() == 0 {
        path
    } else if base.last() == '/' {
        base + path
    } else {
        base + seq!['/'] + path
    }
}

/// The path that `path` names when it is given below `base`.
pub fn path_join(base: &str, path: &str) -> (joined: String)
    ensures
        joined@ == spec_path_join(base@, path@),
{
    let base_len = base.unicode_len();
    let absolute = path.unicode_len() > 0 && path.get_char(0) == '/';
    if absolute || base_len == 0 {
        path.to_owned()
    } else if base.get_char(base_len - 1) == '/' {
        let mut joined = base.to_owned();
        joined.append(path);
        joined
    } else {
        join(base, path)
    }
}

/// A list with one more element holds what it held before, and that element.
pub proof fn lemma_contains_push(s: Seq<Seq<char>>, last: Seq<char>, x: Seq<char>)
    ensures
        s.push(last).contains(x) <==> (s.contains(x) || x == last),
{
    let t = s.push(last);
    if s.contains(x) {
        let j = choose|j: int| 0 <= j < s.len() && s[j] == x;
        assert(t[j] == x);
    }
    if x == last {
        assert(t[s.len() as int] == x);
    }
    if t.contains(x) {
        let j = choose|j: int| 0 <= j < t.len() && t[j] == x;
        if j < s.len() {
            assert(s[j] == x);
        }
    }
}

/// The first `n + 1` strings of a list are the first `n` and the one after.
pub proof fn lemma_strs_prefix(v: Seq<String>, n: int)
    requires
        0 <= n < v.len(),
    ensures
        strs(v).subrange(0, n + 1) == strs(v).subrange(0, n).push(v[n]@),
{
    assert(strs(v).subrange(0, n + 1) =~= strs(v).subrange(0, n).push(v[n]@));
}

/// The characters of an optional string.
pub open spec fn opt_view(s: Option<String>) -> Option<Seq<char>> {
    match s {
        Some(s) => Some(s@),
        None => None,
    }
}

/// Whether two string slices hold the same characters.
pub fn str_eq(a: &str, b: &str) -> (same: bool)
    ensures
        same == (a@ == b@),
{
    a.to_owned() == b.to_owned()
}

/// Whether `name` occurs in `list`.
pub fn contains_str(list: &Vec<String>, name: &str) -> (found: bool)
    ensures
        found == strs(list@).contains(name@),
{
    let mut i: usize = 0;
    while i < list.len()
        invariant
            i <= list.len(),
            forall|k: int| 0 <= k < i ==> list@[k]@ != name@,
        decreases list.len() - i,
    {
        if str_eq(list[i].as_str(), name) {
            assert(strs(list@)[i as int] == name@);
            return true;
        }
        i += 1;
    }
    assert(!strs(list@).contains(name@)) by {
        if strs(list@).contains(name@) {
            let k = choose|k: int| 0 <= k < strs(list@).len() && strs(list@)[k] == name@;
            assert(list@[k]@ == name@);
        }
    }
    false
}

/// The characters of a string, one by one.
pub fn to_chars(s: &str) -> (chars: Vec<char>)
    ensures
        chars@ == s@,
{
    let n = s.unicode_len();
    let mut chars: Vec<char> = Vec::new();
    let mut i: usize = 0;
    while i < n
        invariant
            i <= n,
            n == s@.len(),
            chars@ == s@.subrange(0, i as int),
        decreases n - i,
    {
        chars.push(s.get_char(i));
        assert(chars@ =~= s@.subrange(0, i as int + 1));
        i += 1;
    }
    assert(s@.subrange(0, n as int) =~= s@);
    chars
}

/// Whether `text` holds `pattern` at position `at`.
pub open spec fn spec_matches_at(text: Seq<char>, at: int, pattern: Seq<char>) -> bool {
    0 <= at && at + pattern.len() <= text.len() && text.subrange(at, at + pattern.len())
        == pattern
}

/// Whether `text` holds `pattern` at position `at`.
pub fn matches_at(text: &Vec<char>, at: usize, pattern: &Vec<char>) -> (found: bool)
    requires
        at <= text@.len(),
    ensures
        found == spec_matches_at(text@, at as int, pattern@),
{
    if pattern.len() > text.len() - at {
        return false;
    }
    let mut k: usize = 0;
    while k < pattern.len()
        invariant
            k <= pattern.len(),
            at + pattern.len() <= text.len(),
            forall|j: int| 0 <= j < k ==> text@[at + j] == pattern@[j],
        decreases pattern.len() - k,
    {
        if text[at + k] != pattern[k] {
            assert(text@.subrange(at as int, at + pattern@.len())[k as int] != pattern@[k as int]);
            return false;
        }
        k += 1;
    }
    assert(text@.subrange(at as int, at + pattern@.len()) =~= pattern@);
    true
}

/// Whether `text` begins with `prefix`.
pub open spec fn spec_has_prefix(text: Seq<char>, prefix: Seq<char>) -> bool {
    spec_matches_at(text, 0, prefix)
}

/// Whether `text` ends with `suffix`.
pub open spec fn spec_has_suffix(text: Seq<char>, suffix: Seq<char>) -> bool {
    spec_matches_at(text, text.len() - suffix.len(), suffix)
}

/// Whether `text` holds `pattern` somewhere.
pub open spec fn spec_contains(text: Seq<char>, pattern: Seq<char>) -> bool {
    exists|at: int| #[trigger] spec_matches_at(text, at, pattern)
}

/// Whether `text` begins with `prefix`.
pub fn has_prefix(text: &str, prefix: &str) -> (found: bool)
    ensures
        found == spec_has_prefix(text@, prefix@),
{
    matches_at(&to_chars(text), 0, &to_chars(prefix))
}

/// Whether `text` ends with `suffix`.
pub fn has_suffix(text: &str, suffix: &str) -> (found: bool)
    ensures
        found == spec_has_suffix(text@, suffix@),
{
    let text = to_chars(text);
    let suffix = to_chars(suffix);
    if suffix.len() > text.len() {
        false
    } else {
        matches_at(&text, text.len() - suffix.len(), &suffix)
    }
}

/// Whether `text` holds `pattern` somewhere.
pub fn contains(text: &str, pattern: &str) -> (found: bool)
    ensures
        found == spec_contains(text@, pattern@),
{
    let chars = to_chars(text);
    let pat = to_chars(pattern);
    let mut at: usize = 0;
    while at < chars.len()
        invariant
            at <= chars.len(),
            chars@ == text@,
            pat@ == pattern@,
            forall|k: int| 0 <= k < at ==> !spec_matches_at(chars@, k, pat@),
        decreases chars.len() - at,
    {
        if matches_at(&chars, at, &pat) {
            assert(spec_matches_at(text@, at as int, pattern@));
            return true;
        }
        at += 1;
    }
    let at_end = matches_at(&chars, at, &pat);
    proof {
        if at_end {
            assert(spec_matches_at(text@, at as int, pattern@));
        } else {
            assert forall|k: int| !#[trigger] spec_matches_at(text@, k, pattern@) by {
                if spec_matches_at(text@, k, pattern@) {
                    assert(0 <= k <= at);
                }
            }
        }
    }
    at_end
}

/// `text` with every occurrence of `pattern` replaced by `with`, the
/// occurrences taken from the left and not overlapping.  An empty pattern
/// occurs nowhere.
pub open spec fn spec_replace(text: Seq<char>, pattern: Seq<char>, with: Seq<char>) -> Seq<char>
    decreases text.len(),
{
    if pattern.len() == 0 || text.len() == 0 {
        text
    } else if spec_matches_at(text, 0, pattern) {
        with + spec_replace(text.skip(pattern.len() as int), pattern, with)
    } else {
        seq![text[0]] + spec_replace(text.skip(1), pattern, with)
    }
}

/// Replaces every occurrence of `pattern` in `text` by `with`.
pub fn replace_all(text: &str, pattern: &str, with: &str) -> (out: String)
    ensures
        out@ == spec_replace(text@, pattern@, with@),
{
    let chars = to_chars(text);
    let pat = to_chars(pattern);
    if pat.len() == 0 {
        return text.to_owned();
    }
    let mut out = String::new();
    let mut i: usize = 0;
    assert(chars@.skip(0) =~= chars@);
    assert(out@ + spec_replace(chars@.skip(0), pat@, with@) =~= spec_replace(
        chars@,
        pat@,
        with@,
    ));
    while i < chars.len()
        invariant
            i <= chars@.len(),
            pat@.len() > 0,
            spec_replace(chars@, pat@, with@) == out@ + spec_replace(
                chars@.skip(i as int),
                pat@,
                with@,
            ),
        decreases chars.len() - i,
    {
        let ghost rest = chars@.skip(i as int);
        let ghost done = out@;
        if matches_at(&chars, i, &pat) {
            proof {
                assert(rest.subrange(0, pat@.len() as int) =~= chars@.subrange(
                    i as int,
                    i + pat@.len(),
                ));
                assert(spec_matches_at(rest, 0, pat@));
                assert(rest.skip(pat@.len() as int) =~= chars@.skip(i + pat@.len()));
            }
            out.append(with);
            i += pat.len();
            assert(out@ + spec_replace(chars@.skip(i as int), pat@, with@) =~= done + (with@
                + spec_replace(chars@.skip(i as int), pat@, with@)));
        } else {
            proof {
                if spec_matches_at(rest, 0, pat@) {
                    assert(rest.subrange(0, pat@.len() as int) =~= chars@.subrange(
                        i as int,
                        i + pat@.len(),
                    ));
                }
                assert(rest[0] == chars@[i as int]);
                assert(rest.skip(1) =~= chars@.skip(i as int + 1));
            }
            push_char(&mut out, chars[i]);
            i += 1;
            assert(out@ + spec_replace(chars@.skip(i as int), pat@, with@) =~= done + (
            seq![rest[0]] + spec_replace(chars@.skip(i as int), pat@, with@)));
        }
    }
    assert(out@ + Seq::<char>::empty() =~= out@);
    out
}

} // verus!
