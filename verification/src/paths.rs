//! Deriving a document's logical identity from its location: splitting and
//! joining slash-separated paths, and finding the directory components that
//! lie between the content root and an index document.

use vstd::prelude::*;
use vstd::string::*;

verus! {

/// The name of the directory that anchors the content tree.
pub open spec fn root_segment() -> Seq<char> {
    "content"@
}

/// Splitting a character sequence at every occurrence of `sep`.
/// The empty sequence splits into one empty part, so the number of parts is
/// always one more than the number of separators.
pub open spec fn spec_split(s: Seq<char>, sep: char) -> Seq<Seq<char>>
    decreases s.len(),
{
    if s.len() == 0 {
        seq![Seq::<char>::empty()]
    } else if s.last() == sep {
        spec_split(s.drop_last(), sep).push(Seq::<char>::empty())
    } else {
        let parts = spec_split(s.drop_last(), sep);
        parts.update(parts.len() - 1, parts.last().push(s.last()))
    }
}

/// Joining parts with a single `sep` between consecutive parts.
pub open spec fn spec_join(parts: Seq<Seq<char>>, sep: char) -> Seq<char>
    decreases parts.len(),
{
    if parts.len() == 0 {
        Seq::empty()
    } else if parts.len() == 1 {
        parts[0]
    } else {
        spec_join(parts.drop_last(), sep) + seq![sep] + parts.last()
    }
}

/// No part contains the separator.
pub open spec fn no_sep(parts: Seq<Seq<char>>, sep: char) -> bool {
    forall|i: int| 0 <= i < parts.len() ==> !(#[trigger] parts[i]).contains(sep)
}

/// The components of a logical URL path: the empty path has no components,
/// any other path is split at every slash.
pub open spec fn spec_path_components(p: Seq<char>) -> Seq<Seq<char>> {
    if p.len() == 0 {
        Seq::empty()
    } else {
        spec_split(p, '/')
    }
}

/// Everything before the last slash; the empty sequence when there is none.
pub open spec fn spec_parent(s: Seq<char>) -> Seq<char>
    decreases s.len(),
{
    if s.len() == 0 {
        Seq::empty()
    } else if s.last() == '/' {
        s.drop_last()
    } else {
        spec_parent(s.drop_last())
    }
}

/// Does some part equal the content-root segment?
pub open spec fn contains_root(parts: Seq<Seq<char>>) -> bool {
    exists|i: int| 0 <= i < parts.len() && parts[i] == root_segment()
}

/// The parts strictly after the first occurrence of the content-root
/// segment; empty when that segment does not occur.
pub open spec fn after_root(parts: Seq<Seq<char>>) -> Seq<Seq<char>>
    decreases parts.len(),
{
    if parts.len() == 0 {
        Seq::empty()
    } else if parts[0] == root_segment() {
        parts.skip(1)
    } else {
        after_root(parts.skip(1))
    }
}

/// The directory names between the content root and the index document:
/// what `find_content_components` returns.
pub open spec fn spec_components(file_path: Seq<char>) -> Seq<Seq<char>> {
    after_root(spec_split(spec_parent(file_path), '/'))
}

pub proof fn lemma_split_nonempty(s: Seq<char>, sep: char)
    ensures
        spec_split(s, sep).len() >= 1,
    decreases s.len(),
{
    if s.len() != 0 {
        lemma_split_nonempty(s.drop_last(), sep);
    }
}

/// Every part produced by splitting is free of the separator.
pub proof fn lemma_split_no_sep(s: Seq<char>, sep: char)
    ensures
        no_sep(spec_split(s, sep), sep),
    decreases s.len(),
{
    if s.len() == 0 {
        assert(!seq![Seq::<char>::empty()][0].contains(sep));
    } else {
        lemma_split_no_sep(s.drop_last(), sep);
        lemma_split_nonempty(s.drop_last(), sep);
        if s.last() == sep {
            assert(!Seq::<char>::empty().contains(sep));
        } else {
            let parts = spec_split(s.drop_last(), sep);
            let updated = parts.last().push(s.last());
            assert forall|j: int| 0 <= j < updated.len() implies updated[j] != sep by {
                if j < parts.last().len() {
                    assert(!parts.last().contains(sep));
                }
            }
            assert(!updated.contains(sep));
        }
    }
}

/// A sequence without the separator splits into itself alone.
pub proof fn lemma_split_whole(s: Seq<char>, sep: char)
    requires
        !s.contains(sep),
    ensures
        spec_split(s, sep) =~~= seq![s],
    decreases s.len(),
{
    if s.len() == 0 {
        assert(spec_split(s, sep) =~~= seq![s]);
    } else {
        assert(s.last() != sep) by {
            assert(s[s.len() - 1] == s.last());
        }
        assert(!s.drop_last().contains(sep)) by {
            assert forall|j: int| 0 <= j < s.drop_last().len() implies s.drop_last()[j] != sep by {
                assert(s.drop_last()[j] == s[j]);
            }
        }
        lemma_split_whole(s.drop_last(), sep);
        assert(s.drop_last().push(s.last()) =~= s);
    }
}

/// Splitting distributes over a separator: the parts of `a + sep + b` are
/// the parts of `a` followed by `b`, when `b` is free of the separator.
pub proof fn lemma_split_append(a: Seq<char>, b: Seq<char>, sep: char)
    requires
        !b.contains(sep),
    ensures
        spec_split(a + seq![sep] + b, sep) =~~= spec_split(a, sep).push(b),
    decreases b.len(),
{
    lemma_split_nonempty(a, sep);
    if b.len() == 0 {
        let s = a + seq![sep] + b;
        assert(s =~= a + seq![sep]);
        assert(s.last() == sep);
        assert(s.drop_last() =~= a);
    } else {
        assert(b[b.len() - 1] == b.last());
        assert(b.last() != sep);
        assert(!b.drop_last().contains(sep)) by {
            assert forall|j: int| 0 <= j < b.drop_last().len() implies b.drop_last()[j] != sep by {
                assert(b.drop_last()[j] == b[j]);
            }
        }
        lemma_split_append(a, b.drop_last(), sep);
        let s = a + seq![sep] + b;
        assert(s.last() == b.last());
        assert(s.drop_last() =~= a + seq![sep] + b.drop_last());
        let parts = spec_split(s.drop_last(), sep);
        assert(parts =~~= spec_split(a, sep).push(b.drop_last()));
        assert(parts.last() == b.drop_last());
        assert(parts.last().push(s.last()) =~= b);
        assert(parts.update(parts.len() - 1, b) =~~= spec_split(a, sep).push(b));
    }
}

/// Joining components and splitting the result restores the components,
/// for every component list whose parts are free of the separator — except
/// the list holding exactly one empty part, whose join is the empty path.
pub proof fn lemma_join_split_roundtrip(parts: Seq<Seq<char>>, sep: char)
    requires
        no_sep(parts, sep),
        !(parts.len() == 1 && parts[0].len() == 0),
    ensures
        parts.len() == 0 ==> spec_join(parts, sep).len() == 0,
        parts.len() >= 1 ==> spec_split(spec_join(parts, sep), sep) =~~= parts,
    decreases parts.len(),
{
    if parts.len() == 1 {
        assert(!parts[0].contains(sep));
        lemma_split_whole(parts[0], sep);
        assert(spec_split(spec_join(parts, sep), sep) =~~= seq![parts[0]]);
        assert(seq![parts[0]] =~~= parts);
    } else if parts.len() > 1 {
        let front = parts.drop_last();
        assert(no_sep(front, sep)) by {
            assert forall|i: int| 0 <= i < front.len() implies !(#[trigger] front[i]).contains(
                sep,
            ) by {
                assert(front[i] == parts[i]);
            }
        }
        if front.len() == 1 && front[0].len() == 0 {
            // The join of a single empty part is the empty sequence, yet
            // splitting `"" + sep + last` still yields both parts.
            assert(spec_join(front, sep) =~= Seq::<char>::empty());
            let s = spec_join(parts, sep);
            assert(s =~= Seq::<char>::empty() + seq![sep] + parts.last());
            lemma_split_append(Seq::<char>::empty(), parts.last(), sep);
            assert(spec_split(Seq::<char>::empty(), sep) =~~= seq![Seq::<char>::empty()]);
            assert(spec_split(s, sep) =~~= seq![Seq::<char>::empty()].push(parts.last()));
            assert(seq![Seq::<char>::empty()].push(parts.last()) =~~= parts);
        } else {
            lemma_join_split_roundtrip(front, sep);
            lemma_split_append(spec_join(front, sep), parts.last(), sep);
            assert(spec_split(spec_join(parts, sep), sep) =~~= spec_split(
                spec_join(front, sep),
                sep,
            ).push(parts.last()));
        }
    }
}

/// The parts of a path joined from components without separators round-trip
/// through `spec_path_components`, except for the single-empty-component list.
pub proof fn lemma_path_components_roundtrip(parts: Seq<Seq<char>>, sep: char)
    requires
        sep == '/',
        no_sep(parts, sep),
        !(parts.len() == 1 && parts[0].len() == 0),
    ensures
        spec_path_components(spec_join(parts, sep)) =~~= parts,
{
    lemma_join_split_roundtrip(parts, sep);
    if parts.len() >= 1 {
        if spec_join(parts, sep).len() == 0 {
            lemma_split_nonempty(spec_join(parts, sep), sep);
            assert(spec_split(spec_join(parts, sep), sep) =~~= parts);
            if parts.len() == 1 {
                assert(parts[0] =~= Seq::<char>::empty()) by {
                    lemma_join_len_zero(parts, sep);
                }
                assert(false);
            } else {
                lemma_join_len_at_least(parts, sep);
                assert(false);
            }
        }
    }
}

/// Without the root segment nothing is collected.
pub proof fn lemma_after_root_absent(parts: Seq<Seq<char>>)
    requires
        !contains_root(parts),
    ensures
        after_root(parts) == Seq::<Seq<char>>::empty(),
    decreases parts.len(),
{
    if parts.len() != 0 {
        assert(parts[0] != root_segment());
        assert(!contains_root(parts.skip(1))) by {
            assert forall|j: int| 0 <= j < parts.skip(1).len() implies parts.skip(1)[j]
                != root_segment() by {
                assert(parts.skip(1)[j] == parts[j + 1]);
            }
        }
        lemma_after_root_absent(parts.skip(1));
    }
}

/// Skipping a head part that is not the root segment does not change
/// whether the root segment occurs.
pub proof fn lemma_contains_root_skip(parts: Seq<Seq<char>>)
    requires
        parts.len() >= 1,
        parts[0] != root_segment(),
    ensures
        contains_root(parts) <==> contains_root(parts.skip(1)),
{
    if contains_root(parts) {
        let i = choose|i: int| 0 <= i < parts.len() && parts[i] == root_segment();
        assert(i >= 1);
        assert(parts.skip(1)[i - 1] == parts[i]);
    }
    if contains_root(parts.skip(1)) {
        let i = choose|i: int| 0 <= i < parts.skip(1).len() && parts.skip(1)[i] == root_segment();
        assert(parts[i + 1] == parts.skip(1)[i]);
    }
}

/// How one more part changes the derived components: while the root segment
/// has not been seen nothing is collected; afterwards every part is.
pub proof fn lemma_after_root_push(parts: Seq<Seq<char>>, x: Seq<char>)
    ensures
        contains_root(parts.push(x)) <==> (contains_root(parts) || x == root_segment()),
        after_root(parts.push(x)) =~~= if contains_root(parts) {
            after_root(parts).push(x)
        } else {
            Seq::<Seq<char>>::empty()
        },
    decreases parts.len(),
{
    let p = parts.push(x);
    if contains_root(parts) {
        let i = choose|i: int| 0 <= i < parts.len() && parts[i] == root_segment();
        assert(p[i] == parts[i]);
    }
    if x == root_segment() {
        assert(p[parts.len() as int] == x);
    }
    if contains_root(p) {
        let i = choose|i: int| 0 <= i < p.len() && p[i] == root_segment();
        if i < parts.len() {
            assert(parts[i] == p[i]);
        }
    }
    if parts.len() == 0 {
        assert(!contains_root(parts));
        if x == root_segment() {
            assert(p[0] == x);
            assert(after_root(p) == p.skip(1));
            assert(p.skip(1) =~~= Seq::<Seq<char>>::empty());
        } else {
            assert(p[0] == x);
            assert(after_root(p) == after_root(p.skip(1)));
            assert(p.skip(1) =~~= Seq::<Seq<char>>::empty());
            assert(after_root(Seq::<Seq<char>>::empty()) =~~= Seq::<Seq<char>>::empty());
        }
    } else if parts[0] == root_segment() {
        assert(p[0] == parts[0]);
        assert(after_root(p) == p.skip(1));
        assert(p.skip(1) =~~= parts.skip(1).push(x));
        assert(contains_root(parts)) by {
            assert(parts[0] == root_segment());
        }
        assert(after_root(parts) == parts.skip(1));
        assert(after_root(p) =~~= after_root(parts).push(x));
    } else {
        assert(p[0] == parts[0]);
        assert(p.skip(1) =~~= parts.skip(1).push(x));
        lemma_after_root_push(parts.skip(1), x);
        lemma_contains_root_skip(parts);
        lemma_contains_root_skip(p);
        assert(after_root(p) == after_root(p.skip(1)));
        assert(p.skip(1) == parts.skip(1).push(x));
        assert(after_root(parts) == after_root(parts.skip(1)));
        if contains_root(parts) {
            assert(contains_root(parts.skip(1)));
            assert(after_root(p.skip(1)) =~~= after_root(parts.skip(1)).push(x));
            assert(after_root(p) =~~= after_root(parts).push(x));
        } else {
            assert(!contains_root(parts.skip(1)));
            assert(after_root(p.skip(1)) =~~= Seq::<Seq<char>>::empty());
        }
    }
}

/// For a file path whose parent holds the root segment at all, the derived
/// components are empty exactly when the parent's last directory is the
/// first occurrence of the root segment: the index document of the content
/// root itself, and nothing deeper.
pub proof fn lemma_components_empty_iff_root_index(parts: Seq<Seq<char>>)
    requires
        contains_root(parts),
    ensures
        after_root(parts).len() == 0 <==> (parts.len() >= 1 && parts.last() == root_segment()
            && !contains_root(parts.drop_last())),
    decreases parts.len(),
{
    assert(parts.len() >= 1);
    if parts[0] == root_segment() {
        if parts.len() == 1 {
            assert(after_root(parts) == parts.skip(1));
            assert(parts.skip(1).len() == 0);
            assert(!contains_root(parts.drop_last()));
        } else {
            assert(after_root(parts).len() == parts.len() - 1);
            assert(contains_root(parts.drop_last())) by {
                assert(parts.drop_last()[0] == parts[0]);
            }
        }
    } else {
        lemma_contains_root_skip(parts);
        lemma_components_empty_iff_root_index(parts.skip(1));
        assert(parts.len() >= 2);
        assert(parts.skip(1).last() == parts.last());
        assert(parts.skip(1).drop_last() =~~= parts.drop_last().skip(1));
        assert(parts.drop_last()[0] == parts[0]);
        lemma_contains_root_skip(parts.drop_last());
        assert(after_root(parts) == after_root(parts.skip(1)));
    }
}

proof fn lemma_join_len_zero(parts: Seq<Seq<char>>, sep: char)
    requires
        parts.len() == 1,
        spec_join(parts, sep).len() == 0,
    ensures
        parts[0].len() == 0,
{
}

proof fn lemma_join_len_at_least(parts: Seq<Seq<char>>, sep: char)
    requires
        parts.len() >= 2,
    ensures
        spec_join(parts, sep).len() >= 1,
{
}

/// The parent is the prefix before a slash that no later slash follows.
proof fn lemma_parent_at(s: Seq<char>, k: int)
    requires
        0 <= k < s.len(),
        s[k] == '/',
        forall|m: int| k < m < s.len() ==> s[m] != '/',
    ensures
        spec_parent(s) == s.take(k),
    decreases s.len(),
{
    if s.last() == '/' {
        assert(k == s.len() - 1);
        assert(s.drop_last() =~= s.take(k));
    } else {
        assert(k < s.len() - 1);
        let d = s.drop_last();
        assert(d[k] == s[k]);
        assert forall|m: int| k < m < d.len() implies d[m] != '/' by {
            assert(d[m] == s[m]);
        }
        lemma_parent_at(d, k);
        assert(d.take(k) =~= s.take(k));
    }
}

/// A path without a slash has the empty parent.
proof fn lemma_parent_none(s: Seq<char>)
    requires
        !s.contains('/'),
    ensures
        spec_parent(s) == Seq::<char>::empty(),
    decreases s.len(),
{
    if s.len() != 0 {
        assert(s[s.len() - 1] == s.last());
        assert(s.last() != '/');
        let d = s.drop_last();
        assert(!d.contains('/')) by {
            assert forall|m: int| 0 <= m < d.len() implies d[m] != '/' by {
                assert(d[m] == s[m]);
            }
        }
        lemma_parent_none(d);
    }
}

/// Everything before the last `/` of `s`; the empty string when `s` has none.
pub fn parent_of(s: &str) -> (r: String)
    ensures
        r@ == spec_parent(s@),
{
    let n = s.unicode_len();
    let mut j = n;
    while j > 0
        invariant
            j <= n,
            n == s@.len(),
            forall|m: int| j <= m < s@.len() ==> s@[m] != '/',
        decreases j,
    {
        let c = s.get_char(j - 1);
        if c == '/' {
            proof {
                lemma_parent_at(s@, j - 1);
            }
            let sub = s.substring_char(0, j - 1);
            return sub.to_owned();
        }
        j = j - 1;
    }
    proof {
        lemma_parent_none(s@);
    }
    String::new()
}

/// Splits `s` at every occurrence of `sep`.
pub fn split_str(s: &str, sep: char) -> (parts: Vec<String>)
    ensures
        parts.deep_view() == spec_split(s@, sep),
        parts.len() >= 1,
{
    let n = s.unicode_len();
    let mut parts: Vec<String> = Vec::new();
    let mut start: usize = 0;
    let mut i: usize = 0;
    proof {
        assert(spec_split(s@.take(0), sep) =~~= parts.deep_view().push(s@.subrange(0, 0)));
    }
    while i < n
        invariant
            start <= i <= n,
            n == s@.len(),
            spec_split(s@.take(i as int), sep) =~~= parts.deep_view().push(
                s@.subrange(start as int, i as int),
            ),
        decreases n - i,
    {
        let ghost prev = parts.deep_view();
        let ghost cur = s@.subrange(start as int, i as int);
        let c = s.get_char(i);
        if c == sep {
            let piece = s.substring_char(start, i);
            parts.push(piece.to_owned());
            start = i + 1;
            proof {
                assert(parts.deep_view() =~~= prev.push(cur));
                let t = s@.take(i + 1);
                assert(t.last() == sep);
                assert(t.drop_last() =~= s@.take(i as int));
                assert(s@.subrange(start as int, i + 1) =~= Seq::<char>::empty());
                assert(spec_split(t, sep) =~~= parts.deep_view().push(
                    s@.subrange(start as int, i + 1),
                ));
            }
        } else {
            proof {
                let t = s@.take(i + 1);
                assert(t.last() == s@[i as int]);
                assert(t.drop_last() =~= s@.take(i as int));
                let old_parts = spec_split(s@.take(i as int), sep);
                assert(old_parts.len() == prev.len() + 1);
                assert(old_parts.last() == cur);
                assert(cur.push(s@[i as int]) =~= s@.subrange(start as int, i + 1));
                assert(spec_split(t, sep) =~~= prev.push(s@.subrange(start as int, i + 1)));
            }
        }
        i = i + 1;
    }
    let ghost prev = parts.deep_view();
    let piece = s.substring_char(start, n);
    parts.push(piece.to_owned());
    proof {
        assert(s@.take(n as int) =~= s@);
        assert(parts.deep_view() =~~= prev.push(s@.subrange(start as int, n as int)));
    }
    parts
}

/// Joins parts with the one-character separator `sep`.
pub fn join_with(parts: &Vec<String>, sep: &str) -> (r: String)
    requires
        sep@.len() == 1,
    ensures
        r@ == spec_join(parts.deep_view(), sep@[0]),
{
    let ghost c = sep@[0];
    let mut r = String::new();
    let mut i: usize = 0;
    while i < parts.len()
        invariant
            i <= parts.len(),
            sep@.len() == 1,
            c == sep@[0],
            r@ == spec_join(parts.deep_view().take(i as int), c),
        decreases parts.len() - i,
    {
        if i > 0 {
            r.append(sep);
        }
        r.append(parts[i].as_str());
        proof {
            let dv = parts.deep_view();
            assert(dv[i as int] == parts@[i as int]@);
            assert(dv.take(i + 1).drop_last() =~~= dv.take(i as int));
            assert(dv.take(i + 1).last() == dv[i as int]);
            assert(seq![c] =~= sep@);
            if i == 0 {
                assert(spec_join(dv.take(1), c) == dv.take(1)[0]);
                assert(r@ == dv[0]);
            }
        }
        i = i + 1;
    }
    proof {
        assert(parts.deep_view().take(parts.len() as int) =~~= parts.deep_view());
    }
    r
}

/// The ordered directory names strictly between the content root and the
/// index document at `file_path`: the segments of the parent directory that
/// follow the first segment named `content`. Empty when the parent is the
/// content root itself, and also when the path lies outside any content
/// root, which the caller is trusted not to pass.
pub fn find_content_components(file_path: &str) -> (components: Vec<String>)
    ensures
        components.deep_view() == spec_components(file_path@),
        no_sep(components.deep_view(), '/'),
{
    let parent = parent_of(file_path);
    let parts = split_str(parent.as_str(), '/');
    let root: String = "content".to_owned();
    let mut comps: Vec<String> = Vec::new();
    let mut seen_root = false;
    let mut i: usize = 0;
    proof {
        assert(parts.deep_view().take(0) =~~= Seq::<Seq<char>>::empty());
        assert(!contains_root(Seq::<Seq<char>>::empty()));
        assert(comps.deep_view() =~~= after_root(parts.deep_view().take(0)));
    }
    while i < parts.len()
        invariant
            i <= parts.len(),
            root@ == root_segment(),
            seen_root == contains_root(parts.deep_view().take(i as int)),
            comps.deep_view() == after_root(parts.deep_view().take(i as int)),
        decreases parts.len() - i,
    {
        let ghost dv = parts.deep_view();
        let ghost prev_comps = comps.deep_view();
        proof {
            assert(dv.take(i + 1) =~~= dv.take(i as int).push(dv[i as int]));
            lemma_after_root_push(dv.take(i as int), dv[i as int]);
            assert(dv[i as int] == parts@[i as int]@);
        }
        if seen_root {
            comps.push(parts[i].clone());
            proof {
                assert(comps.deep_view() =~~= prev_comps.push(dv[i as int]));
            }
        } else if parts[i] == root {
            seen_root = true;
            proof {
                lemma_after_root_absent(dv.take(i as int));
                assert(after_root(dv.take(i + 1)) =~~= Seq::<Seq<char>>::empty());
            }
        } else {
            proof {
                lemma_after_root_absent(dv.take(i as int));
                assert(after_root(dv.take(i + 1)) =~~= Seq::<Seq<char>>::empty());
            }
        }
        i = i + 1;
    }
    proof {
        assert(parts.deep_view().take(parts.len() as int) =~~= parts.deep_view());
        lemma_split_no_sep(parent@, '/');
        let all = parts.deep_view();
        let comps_dv = comps.deep_view();
        assert forall|k: int| 0 <= k < comps_dv.len() implies !(#[trigger] comps_dv[k]).contains(
            '/',
        ) by {
            lemma_after_root_is_suffix(all, k);
        }
    }
    comps
}

/// Each derived component is one of the split parts, so it carries the
/// splitter's guarantees.
proof fn lemma_after_root_is_suffix(parts: Seq<Seq<char>>, k: int)
    requires
        0 <= k < after_root(parts).len(),
    ensures
        exists|j: int| 0 <= j < parts.len() && parts[j] == after_root(parts)[k],
    decreases parts.len(),
{
    if parts.len() == 0 {
    } else if parts[0] == root_segment() {
        assert(parts[k + 1] == after_root(parts)[k]);
    } else {
        lemma_after_root_is_suffix(parts.skip(1), k);
        let j = choose|j: int|
            0 <= j < parts.skip(1).len() && parts.skip(1)[j] == after_root(parts.skip(1))[k];
        assert(parts[j + 1] == parts.skip(1)[j]);
    }
}

} // verus!

