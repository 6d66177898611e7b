//! Frequency ranking with a deterministic tie-break.
//!
//! The selection planner ranks the values of a column (geometry levels,
//! years) by how many candidate rows carry each value, most frequent
//! first.  Values with equal counts keep the order in which they were
//! first encountered, so the ranking is a pure function of the scanned
//! values.

use vstd::prelude::*;

verus! {

broadcast use vstd::seq_lib::group_seq_properties;

/// The views of a list of strings.
pub open spec fn spec_views(vals: Seq<String>) -> Seq<Seq<char>> {
    vals.map_values(|s: String| s@)
}

/// How many members of `vals` equal `v`.
pub open spec fn spec_count(vals: Seq<Seq<char>>, v: Seq<char>) -> nat {
    vals.filter(|x: Seq<char>| x == v).len()
}

/// The distinct members of `vals`, in first-occurrence order.
pub open spec fn spec_distinct(vals: Seq<Seq<char>>) -> Seq<Seq<char>>
    decreases vals.len(),
{
    if vals.len() == 0 {
        Seq::empty()
    } else {
        let d = spec_distinct(vals.drop_last());
        if d.contains(vals.last()) {
            d
        } else {
            d.push(vals.last())
        }
    }
}

/// The index of the first member of `s` equal to `v`; `s.len()` if none is.
pub open spec fn spec_index_of(s: Seq<Seq<char>>, v: Seq<char>) -> int
    decreases s.len(),
{
    if s.len() == 0 {
        0
    } else if s[0] == v {
        0
    } else {
        1 + spec_index_of(s.drop_first(), v)
    }
}

/// A member of a non-empty sequence is a member of its front or its last.
proof fn lemma_contains_split(s: Seq<Seq<char>>, v: Seq<char>)
    requires
        s.len() > 0,
    ensures
        s.contains(v) <==> (s.drop_last().contains(v) || s.last() == v),
{
    if s.drop_last().contains(v) {
        let i = choose|i: int| 0 <= i < s.drop_last().len() && s.drop_last()[i] == v;
        assert(s[i] == v);
    }
    if s.last() == v {
        assert(s[s.len() - 1] == v);
    }
    if s.contains(v) && s.last() != v {
        let i = choose|i: int| 0 <= i < s.len() && s[i] == v;
        assert(s.drop_last()[i] == v);
    }
}

/// The distinct members are exactly the members.
pub proof fn lemma_distinct_contains(s: Seq<Seq<char>>, v: Seq<char>)
    ensures
        spec_distinct(s).contains(v) <==> s.contains(v),
    decreases s.len(),
{
    if s.len() > 0 {
        lemma_distinct_contains(s.drop_last(), v);
        lemma_contains_split(s, v);
        let d = spec_distinct(s.drop_last());
        if !d.contains(s.last()) {
            if spec_distinct(s).contains(v) && !d.contains(v) {
                let i = choose|i: int|
                    0 <= i < spec_distinct(s).len() && spec_distinct(s)[i] == v;
                assert(v == s.last());
            }
            if s.last() == v {
                assert(spec_distinct(s)[d.len() as int] == v);
            }
            if d.contains(v) {
                let i = choose|i: int| 0 <= i < d.len() && d[i] == v;
                assert(spec_distinct(s)[i] == v);
            }
        }
    }
}

/// No member of the distinct sequence repeats.
pub proof fn lemma_distinct_no_duplicates(s: Seq<Seq<char>>)
    ensures
        spec_distinct(s).no_duplicates(),
    decreases s.len(),
{
    if s.len() > 0 {
        lemma_distinct_no_duplicates(s.drop_last());
        let d = spec_distinct(s.drop_last());
        if !d.contains(s.last()) {
            assert forall|i: int, j: int|
                0 <= i < spec_distinct(s).len() && 0 <= j < spec_distinct(s).len() && i
                    != j implies spec_distinct(s)[i] != spec_distinct(s)[j] by {
                if i < d.len() && j < d.len() {
                } else if i < d.len() && j == d.len() {
                    if d[i] == s.last() {
                        assert(d.contains(s.last()));
                    }
                } else if j < d.len() && i == d.len() {
                    if d[j] == s.last() {
                        assert(d.contains(s.last()));
                    }
                }
            }
        }
    }
}

/// The first index of a member is in range and holds the member.
pub proof fn lemma_index_of_in_range(s: Seq<Seq<char>>, v: Seq<char>)
    requires
        s.contains(v),
    ensures
        0 <= spec_index_of(s, v) < s.len(),
        s[spec_index_of(s, v)] == v,
    decreases s.len(),
{
    if s[0] != v {
        let i = choose|i: int| 0 <= i < s.len() && s[i] == v;
        assert(s.drop_first()[i - 1] == v);
        lemma_index_of_in_range(s.drop_first(), v);
        assert(s[1 + spec_index_of(s.drop_first(), v)] == s.drop_first()[spec_index_of(
            s.drop_first(),
            v,
        )]);
    }
}

/// In a sequence without repeats, the first index of a member is its only
/// index.
pub proof fn lemma_index_of_unique(s: Seq<Seq<char>>, v: Seq<char>, i: int)
    requires
        s.no_duplicates(),
        0 <= i < s.len(),
        s[i] == v,
    ensures
        spec_index_of(s, v) == i,
    decreases s.len(),
{
    if s[0] == v {
        if i != 0 {
            assert(s[0] == s[i]);
        }
    } else {
        assert(s.drop_first()[i - 1] == v);
        assert(s.drop_first().no_duplicates()) by {
            assert forall|a: int, b: int|
                0 <= a < s.drop_first().len() && 0 <= b < s.drop_first().len() && a
                    != b implies s.drop_first()[a] != s.drop_first()[b] by {
                assert(s.drop_first()[a] == s[a + 1]);
                assert(s.drop_first()[b] == s[b + 1]);
            }
        }
        lemma_index_of_unique(s.drop_first(), v, i - 1);
    }
}

/// A value that never occurs has count zero.
pub proof fn lemma_count_absent(s: Seq<Seq<char>>, v: Seq<char>)
    requires
        !s.contains(v),
    ensures
        spec_count(s, v) == 0,
    decreases s.len(),
{
    reveal(Seq::filter);
    if s.len() > 0 {
        assert(!s.drop_last().contains(v)) by {
            if s.drop_last().contains(v) {
                let i = choose|i: int| 0 <= i < s.drop_last().len() && s.drop_last()[i] == v;
                assert(s[i] == v);
            }
        }
        assert(s.last() != v) by {
            if s.last() == v {
                assert(s[s.len() - 1] == v);
            }
        }
        lemma_count_absent(s.drop_last(), v);
    }
}

/// Appending one value raises its own count by one and no other's.
pub proof fn lemma_count_push(s: Seq<Seq<char>>, x: Seq<char>, v: Seq<char>)
    ensures
        x == v ==> spec_count(s.push(x), v) == spec_count(s, v) + 1,
        x != v ==> spec_count(s.push(x), v) == spec_count(s, v),
{
    broadcast use Seq::lemma_filter_push;

}

/// One distinct value of the scan, with how often it occurred.
pub(crate) struct RankEntry {
    pub name: String,
    pub count: usize,
}

impl Clone for RankEntry {
    fn clone(&self) -> (r: Self)
        ensures
            r == *self,
    {
        RankEntry { name: self.name.clone(), count: self.count }
    }
}

/// The names of a list of entries.
pub(crate) open spec fn spec_names(es: Seq<RankEntry>) -> Seq<Seq<char>> {
    es.map_values(|e: RankEntry| e.name@)
}

/// Finds the entry whose name is `v`, if one is there.
fn find_entry(entries: &Vec<RankEntry>, v: &String) -> (r: Option<usize>)
    ensures
        match r {
            Some(j) => j < entries@.len() && entries@[j as int].name@ == v@,
            None => forall|k: int|
                0 <= k < entries@.len() ==> (#[trigger] entries@[k]).name@ != v@,
        },
{
    let mut j: usize = 0;
    while j < entries.len()
        invariant
            0 <= j <= entries@.len(),
            forall|k: int| 0 <= k < j ==> (#[trigger] entries@[k]).name@ != v@,
        decreases entries@.len() - j,
    {
        if entries[j].name == *v {
            return Some(j);
        }
        j += 1;
    }
    None
}

/// Counts how often each distinct value occurs, keeping first-occurrence
/// order.
fn count_values(vals: &Vec<String>) -> (entries: Vec<RankEntry>)
    ensures
        spec_names(entries@) == spec_distinct(spec_views(vals@)),
        forall|k: int|
            0 <= k < entries@.len() ==> (#[trigger] entries@[k]).count == spec_count(
                spec_views(vals@),
                entries@[k].name@,
            ),
{
    let mut entries: Vec<RankEntry> = Vec::new();
    let mut i: usize = 0;
    proof {
        assert(spec_names(entries@) =~= spec_distinct(spec_views(vals@.take(0))));
    }
    while i < vals.len()
        invariant
            0 <= i <= vals@.len(),
            spec_names(entries@) == spec_distinct(spec_views(vals@.take(i as int))),
            forall|k: int|
                0 <= k < entries@.len() ==> (#[trigger] entries@[k]).count == spec_count(
                    spec_views(vals@.take(i as int)),
                    entries@[k].name@,
                ),
            forall|k: int| 0 <= k < entries@.len() ==> (#[trigger] entries@[k]).count <= i,
        decreases vals@.len() - i,
    {
        let ghost old_views = spec_views(vals@.take(i as int));
        let ghost new_views = spec_views(vals@.take(i as int + 1));
        proof {
            assert(vals@.take(i as int + 1).drop_last() =~= vals@.take(i as int));
            assert(new_views =~= old_views.push(vals@[i as int]@));
            lemma_distinct_no_duplicates(old_views);
            assert(spec_names(entries@).no_duplicates());
        }
        match find_entry(&entries, &vals[i]) {
            Some(j) => {
                let c = entries[j].count;
                let name = entries[j].name.clone();
                entries.set(j, RankEntry { name, count: c + 1 });
                proof {
                    let v = vals@[i as int]@;
                    assert(spec_names(entries@) =~= spec_distinct(old_views));
                    // The value is already among the distinct names, so the
                    // distinct sequence does not grow.
                    assert(spec_distinct(old_views)[j as int] == v);
                    assert(spec_distinct(old_views).contains(v));
                    assert(new_views.drop_last() =~= old_views);
                    assert(new_views.last() == v);
                    assert(spec_distinct(new_views) == spec_distinct(old_views));
                    assert forall|k: int| 0 <= k < entries@.len() implies (#[trigger] entries@[k]).count
                        == spec_count(new_views, entries@[k].name@) by {
                        lemma_count_push(old_views, v, entries@[k].name@);
                        if k != j {
                            // Distinct names: only entry j's count changes.
                            assert(spec_names(entries@)[k] != spec_names(entries@)[j as int]);
                        }
                    }
                }
            }
            None => {
                let name = vals[i].clone();
                entries.push(RankEntry { name, count: 1 });
                proof {
                    let v = vals@[i as int]@;
                    // The value is new: it is not among the old distinct
                    // names, so it is appended.
                    assert(!spec_distinct(old_views).contains(v)) by {
                        if spec_distinct(old_views).contains(v) {
                            let k = choose|k: int|
                                0 <= k < spec_distinct(old_views).len() && spec_distinct(
                                    old_views,
                                )[k] == v;
                            assert(spec_names(entries@.drop_last())[k] == v);
                            assert(entries@.drop_last()[k].name@ == v);
                            assert(entries@[k].name@ == v);
                        }
                    }
                    assert(new_views.drop_last() =~= old_views);
                    assert(new_views.last() == v);
                    assert(spec_distinct(new_views) == spec_distinct(old_views).push(v));
                    assert(spec_names(entries@) =~= spec_distinct(new_views));
                    lemma_distinct_contains(old_views, v);
                    lemma_count_absent(old_views, v);
                    assert forall|k: int| 0 <= k < entries@.len() implies (#[trigger] entries@[k]).count
                        == spec_count(new_views, entries@[k].name@) by {
                        lemma_count_push(old_views, v, entries@[k].name@);
                        if k < entries@.len() - 1 {
                            assert(entries@[k].count == spec_count(old_views, entries@[k].name@));
                        }
                    }
                }
            }
        }
        i += 1;
    }
    proof {
        assert(vals@.take(vals@.len() as int) =~= vals@);
    }
    entries
}

/// Orders the entries by descending count; entries with equal counts keep
/// their first-occurrence order.
#[verifier::rlimit(100)]
fn sort_entries(entries: &Vec<RankEntry>) -> (out: Vec<RankEntry>)
    requires
        spec_names(entries@).no_duplicates(),
    ensures
        out@.len() == entries@.len(),
        forall|a: int| 0 <= a < out@.len() ==> entries@.contains(#[trigger] out@[a]),
        forall|k0: int| 0 <= k0 < entries@.len() ==> out@.contains(#[trigger] entries@[k0]),
        forall|a: int, b: int|
            0 <= a < b < out@.len() ==> (#[trigger] out@[a]).count >= (#[trigger] out@[b]).count,
        forall|a: int, b: int|
            0 <= a < b < out@.len() && (#[trigger] out@[a]).count == (#[trigger] out@[b]).count
                ==> spec_index_of(spec_names(entries@), out@[a].name@) < spec_index_of(
                spec_names(entries@),
                out@[b].name@,
            ),
        forall|a: int, b: int|
            0 <= a < b < out@.len() ==> (#[trigger] out@[a]).name@ != (#[trigger] out@[b]).name@,
{
    let ghost names = spec_names(entries@);
    let mut out: Vec<RankEntry> = Vec::new();
    let mut k: usize = 0;
    while k < entries.len()
        invariant
            0 <= k <= entries@.len(),
            names == spec_names(entries@),
            names.no_duplicates(),
            out@.len() == k,
            forall|a: int| 0 <= a < k ==> entries@.take(k as int).contains(#[trigger] out@[a]),
            forall|k0: int| 0 <= k0 < k ==> out@.contains(#[trigger] entries@[k0]),
            forall|a: int, b: int|
                0 <= a < b < k ==> (#[trigger] out@[a]).count >= (#[trigger] out@[b]).count,
            forall|a: int, b: int|
                0 <= a < b < k && (#[trigger] out@[a]).count == (#[trigger] out@[b]).count
                    ==> spec_index_of(names, out@[a].name@) < spec_index_of(names, out@[b].name@),
            forall|a: int, b: int|
                0 <= a < b < k ==> (#[trigger] out@[a]).name@ != (#[trigger] out@[b]).name@,
        decreases entries@.len() - k,
    {
        let e = entries[k].clone();
        // Every element placed so far came from an earlier entry, so its
        // name's first index is below k, while the new entry's is exactly k.
        proof {
            assert(names[k as int] == entries@[k as int].name@);
            lemma_index_of_unique(names, e.name@, k as int);
            assert forall|a: int| 0 <= a < k implies spec_index_of(names, (#[trigger] out@[a]).name@)
                < k && out@[a].name@ != e.name@ by {
                let k0 = choose|k0: int|
                    0 <= k0 < entries@.take(k as int).len() && entries@.take(k as int)[k0]
                        == out@[a];
                assert(entries@[k0] == out@[a]);
                assert(names[k0] == out@[a].name@);
                lemma_index_of_unique(names, out@[a].name@, k0);
            }
        }
        let mut pos: usize = 0;
        while pos < out.len() && out[pos].count >= e.count
            invariant
                0 <= pos <= out@.len(),
                forall|q: int| 0 <= q < pos ==> (#[trigger] out@[q]).count >= e.count,
            decreases out@.len() - pos,
        {
            pos += 1;
        }
        proof {
            out@.insert_ensures(pos as int, e);
        }
        let ghost old_out = out@;
        out.insert(pos, e);
        proof {
            let new_out = out@;
            assert(new_out == old_out.insert(pos as int, e));
            assert(new_out[pos as int] == e) by {
                assert(old_out.subrange(0, pos as int).push(e)[pos as int] == e);
            }
            // Everything at or after the insertion point was already
            // smaller in count, by sortedness at the first smaller element.
            assert forall|q: int| pos <= q < old_out.len() implies (#[trigger] old_out[q]).count
                < e.count by {
                if pos < out@.len() - 1 {
                    assert(old_out[pos as int].count < e.count);
                    if q > pos {
                        assert(old_out[pos as int].count >= old_out[q].count);
                    }
                }
            }
            assert forall|a: int| 0 <= a < k + 1 implies entries@.take(k as int + 1).contains(
                #[trigger] new_out[a],
            ) by {
                if a < pos {
                    assert(new_out[a] == old_out[a]);
                    let k0 = choose|k0: int|
                        0 <= k0 < entries@.take(k as int).len() && entries@.take(k as int)[k0]
                            == old_out[a];
                    assert(entries@.take(k as int + 1)[k0] == old_out[a]);
                } else if a == pos {
                    assert(new_out[a] == e);
                    assert(entries@.take(k as int + 1)[k as int] == e);
                } else {
                    assert(new_out[a] == old_out[a - 1]);
                    let k0 = choose|k0: int|
                        0 <= k0 < entries@.take(k as int).len() && entries@.take(k as int)[k0]
                            == old_out[a - 1];
                    assert(entries@.take(k as int + 1)[k0] == old_out[a - 1]);
                }
            }
            assert forall|k0: int| 0 <= k0 < k + 1 implies new_out.contains(
                #[trigger] entries@[k0],
            ) by {
                if k0 == k {
                    assert(new_out[pos as int] == entries@[k0]);
                } else {
                    let a = choose|a: int| 0 <= a < old_out.len() && old_out[a] == entries@[k0];
                    if a < pos {
                        assert(new_out[a] == entries@[k0]);
                    } else {
                        assert(new_out[a + 1] == entries@[k0]);
                    }
                }
            }
            assert forall|a: int, b: int| 0 <= a < b < k + 1 implies (#[trigger] new_out[a]).count
                >= (#[trigger] new_out[b]).count by {
                if a < pos && b < pos {
                    assert(new_out[a] == old_out[a] && new_out[b] == old_out[b]);
                } else if a < pos && b == pos {
                    assert(new_out[a] == old_out[a]);
                } else if a < pos && b > pos {
                    assert(new_out[a] == old_out[a] && new_out[b] == old_out[b - 1]);
                } else if a == pos && b > pos {
                    assert(new_out[b] == old_out[b - 1]);
                } else if a > pos && b > pos {
                    assert(new_out[a] == old_out[a - 1] && new_out[b] == old_out[b - 1]);
                }
            }
            assert forall|a: int, b: int|
                0 <= a < b < k + 1 && (#[trigger] new_out[a]).count == (#[trigger] new_out[b]).count
                    implies spec_index_of(names, new_out[a].name@) < spec_index_of(
                names,
                new_out[b].name@,
            ) by {
                if a < pos && b < pos {
                    assert(new_out[a] == old_out[a] && new_out[b] == old_out[b]);
                } else if a < pos && b == pos {
                    assert(new_out[a] == old_out[a]);
                    assert(spec_index_of(names, old_out[a].name@) < k);
                } else if a < pos && b > pos {
                    assert(new_out[a] == old_out[a] && new_out[b] == old_out[b - 1]);
                } else if a == pos && b > pos {
                    assert(new_out[b] == old_out[b - 1]);
                    assert(old_out[b - 1].count < e.count);
                } else if a > pos && b > pos {
                    assert(new_out[a] == old_out[a - 1] && new_out[b] == old_out[b - 1]);
                }
            }
            assert forall|a: int, b: int| 0 <= a < b < k + 1 implies (#[trigger] new_out[a]).name@
                != (#[trigger] new_out[b]).name@ by {
                if a < pos && b < pos {
                    assert(new_out[a] == old_out[a] && new_out[b] == old_out[b]);
                } else if a < pos && b == pos {
                    assert(new_out[a] == old_out[a]);
                } else if a < pos && b > pos {
                    assert(new_out[a] == old_out[a] && new_out[b] == old_out[b - 1]);
                } else if a == pos && b > pos {
                    assert(new_out[b] == old_out[b - 1]);
                } else if a > pos && b > pos {
                    assert(new_out[a] == old_out[a - 1] && new_out[b] == old_out[b - 1]);
                }
            }
        }
        k += 1;
    }
    proof {
        assert(entries@.take(entries@.len() as int) =~= entries@);
    }
    out
}

/// Ranks the distinct members of `vals` by how often each occurs, most
/// frequent first; members with equal counts keep first-occurrence order.
pub fn ranked_by_frequency(vals: &Vec<String>) -> (r: Vec<String>)
    ensures
        spec_views(r@).no_duplicates(),
        r@.len() == spec_distinct(spec_views(vals@)).len(),
        forall|v: Seq<char>| spec_views(r@).contains(v) <==> spec_views(vals@).contains(v),
        forall|a: int, b: int|
            0 <= a < b < r@.len() ==> spec_count(spec_views(vals@), (#[trigger] r@[a])@)
                >= spec_count(spec_views(vals@), (#[trigger] r@[b])@),
        forall|a: int, b: int|
            0 <= a < b < r@.len() && spec_count(spec_views(vals@), (#[trigger] r@[a])@)
                == spec_count(spec_views(vals@), (#[trigger] r@[b])@) ==> spec_index_of(
                spec_distinct(spec_views(vals@)),
                r@[a]@,
            ) < spec_index_of(spec_distinct(spec_views(vals@)), r@[b]@),
{
    let ghost views = spec_views(vals@);
    let ghost d = spec_distinct(views);
    let entries = count_values(vals);
    proof {
        lemma_distinct_no_duplicates(views);
    }
    let sorted = sort_entries(&entries);
    let mut r: Vec<String> = Vec::new();
    let mut a: usize = 0;
    while a < sorted.len()
        invariant
            0 <= a <= sorted@.len(),
            r@.len() == a,
            forall|q: int| 0 <= q < a ==> (#[trigger] r@[q])@ == sorted@[q].name@,
        decreases sorted@.len() - a,
    {
        r.push(sorted[a].name.clone());
        a += 1;
    }
    proof {
        assert(spec_names(entries@) == d);
        // Each ranked name carries its entry's count, which is its count
        // in the scanned values.
        assert forall|q: int| 0 <= q < sorted@.len() implies spec_count(
            views,
            (#[trigger] sorted@[q]).name@,
        ) == sorted@[q].count by {
            let k0 = choose|k0: int| 0 <= k0 < entries@.len() && entries@[k0] == sorted@[q];
        }
        assert(spec_views(r@).no_duplicates()) by {
            assert forall|x: int, y: int|
                0 <= x < spec_views(r@).len() && 0 <= y < spec_views(r@).len() && x
                    != y implies spec_views(r@)[x] != spec_views(r@)[y] by {
                if x < y {
                    assert(sorted@[x].name@ != sorted@[y].name@);
                } else {
                    assert(sorted@[y].name@ != sorted@[x].name@);
                }
            }
        }
        assert forall|v: Seq<char>| spec_views(r@).contains(v) <==> views.contains(v) by {
            lemma_distinct_contains(views, v);
            if spec_views(r@).contains(v) {
                let q = choose|q: int| 0 <= q < spec_views(r@).len() && spec_views(r@)[q] == v;
                assert(entries@.contains(sorted@[q]));
                let k0 = choose|k0: int| 0 <= k0 < entries@.len() && entries@[k0] == sorted@[q];
                assert(spec_names(entries@)[k0] == v);
                assert(d.contains(v));
            }
            if d.contains(v) {
                let k0 = choose|k0: int| 0 <= k0 < d.len() && d[k0] == v;
                assert(entries@[k0].name@ == v);
                assert(sorted@.contains(entries@[k0]));
                let q = choose|q: int| 0 <= q < sorted@.len() && sorted@[q] == entries@[k0];
                assert(spec_views(r@)[q] == v);
            }
        }
    }
    r
}

} // verus!

