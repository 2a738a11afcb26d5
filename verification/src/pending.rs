//! Entries kept in a sequence of (id, value) pairs and read as a table keyed by id.
use vstd::prelude::*;

verus! {

/// The table that a sequence of (id, value) pairs describes: each value under
/// its id, a later pair replacing an earlier one with the same id.
pub open spec fn keyed<V>(s: Seq<(Seq<char>, V)>) -> Map<Seq<char>, V>
    decreases s.len(),
{
    if s.len() == 0 {
        Map::empty()
    } else {
        keyed(s.drop_last()).insert(s.last().0, s.last().1)
    }
}

/// No id occurs twice in `s`.
pub open spec fn distinct_ids<V>(s: Seq<(Seq<char>, V)>) -> bool {
    forall|i: int, j: int| 0 <= i < j < s.len() ==> #[trigger] s[i].0 != #[trigger] s[j].0
}

/// `id` is the id of some pair in `s`.
pub open spec fn has_id<V>(s: Seq<(Seq<char>, V)>, id: Seq<char>) -> bool {
    exists|i: int| 0 <= i < s.len() && #[trigger] s[i].0 == id
}

/// The table holds exactly the ids that occur in the sequence.
pub proof fn lemma_keyed_domain<V>(s: Seq<(Seq<char>, V)>, id: Seq<char>)
    ensures
        keyed(s).contains_key(id) <==> has_id(s, id),
    decreases s.len(),
{
    if s.len() > 0 {
        let t = s.drop_last();
        lemma_keyed_domain(t, id);
        if has_id(t, id) {
            let i = choose|i: int| 0 <= i < t.len() && #[trigger] t[i].0 == id;
            assert(s[i].0 == id);
        }
        if has_id(s, id) && s.last().0 != id {
            let i = choose|i: int| 0 <= i < s.len() && #[trigger] s[i].0 == id;
            assert(i < s.len() - 1);
            assert(t[i].0 == id);
        }
        if s.last().0 == id {
            assert(s[s.len() - 1].0 == id);
        }
    }
}

/// Where no id repeats, the table gives back each value under its id.
pub proof fn lemma_keyed_value<V>(s: Seq<(Seq<char>, V)>, i: int)
    requires
        distinct_ids(s),
        0 <= i < s.len(),
    ensures
        keyed(s).contains_key(s[i].0),
        keyed(s)[s[i].0] == s[i].1,
    decreases s.len(),
{
    let t = s.drop_last();
    if i < s.len() - 1 {
        assert(t[i] == s[i]);
        lemma_keyed_value(t, i);
        assert(s[i].0 != s[s.len() - 1].0);
    }
}

/// Where no id repeats, taking the pair at `i` out of the sequence takes its
/// id out of the table.
pub proof fn lemma_keyed_remove<V>(s: Seq<(Seq<char>, V)>, i: int)
    requires
        distinct_ids(s),
        0 <= i < s.len(),
    ensures
        keyed(s.remove(i)) == keyed(s).remove(s[i].0),
        distinct_ids(s.remove(i)),
    decreases s.len(),
{
    let r = s.remove(i);
    if i == s.len() - 1 {
        assert(r =~= s.drop_last());
        lemma_keyed_domain(r, s[i].0);
        if has_id(r, s[i].0) {
            let j = choose|j: int| 0 <= j < r.len() && #[trigger] r[j].0 == s[i].0;
            assert(s[j].0 == s[i].0);
        }
        assert(keyed(r) =~= keyed(s).remove(s[i].0));
    } else {
        let t = s.drop_last();
        assert(t[i] == s[i]);
        lemma_keyed_remove(t, i);
        assert(r.drop_last() =~= t.remove(i));
        assert(r.last() == s.last());
        assert(s.last().0 != s[i].0);
        assert(keyed(r) =~= keyed(s).remove(s[i].0));
    }
}

/// A sequence without `x`'s id, extended by `x`, still has no id twice, and
/// its table gains `x`.
pub proof fn lemma_keyed_push<V>(s: Seq<(Seq<char>, V)>, x: (Seq<char>, V))
    requires
        distinct_ids(s),
        !has_id(s, x.0),
    ensures
        distinct_ids(s.push(x)),
        keyed(s.push(x)) == keyed(s).insert(x.0, x.1),
{
    assert forall|i: int, j: int| 0 <= i < j < s.push(x).len() implies #[trigger] s.push(x)[i].0
        != #[trigger] s.push(x)[j].0 by {
        if j == s.len() {
            if s[i].0 == x.0 {
                assert(has_id(s, x.0));
            }
        }
    }
    assert(s.push(x).drop_last() =~= s);
}

/// Where no id repeats, the table is finite and has one entry per pair.
pub proof fn lemma_keyed_len<V>(s: Seq<(Seq<char>, V)>)
    requires
        distinct_ids(s),
    ensures
        keyed(s).dom().finite(),
        keyed(s).len() == s.len(),
    decreases s.len(),
{
    if s.len() > 0 {
        let t = s.drop_last();
        assert(distinct_ids(t));
        lemma_keyed_len(t);
        lemma_keyed_domain(t, s.last().0);
        if has_id(t, s.last().0) {
            let j = choose|j: int| 0 <= j < t.len() && #[trigger] t[j].0 == s.last().0;
            assert(s[j].0 == s[s.len() - 1].0);
        }
    }
}

/// An empty table comes only from an empty sequence.
pub proof fn lemma_keyed_empty<V>(s: Seq<(Seq<char>, V)>)
    ensures
        (keyed(s) == Map::<Seq<char>, V>::empty()) <==> s.len() == 0,
{
    if s.len() > 0 {
        lemma_keyed_domain(s, s[0].0);
        assert(has_id(s, s[0].0));
        assert(keyed(s).contains_key(s[0].0));
    }
}

/// Pigeonholes: `m` different ids that all occur in `s` need at least `m`
/// pairs.
pub proof fn lemma_pigeonhole<V>(s: Seq<(Seq<char>, V)>, f: spec_fn(int) -> Seq<char>, m: int)
    requires
        0 <= m,
        forall|j: int| 0 <= j < m ==> #[trigger] has_id(s, f(j)),
        forall|a: int, b: int| 0 <= a < b < m ==> #[trigger] f(a) != #[trigger] f(b),
    ensures
        m <= s.len(),
    decreases m,
{
    if m > 0 {
        let x = f(m - 1);
        assert(has_id(s, x));
        let i = choose|i: int| 0 <= i < s.len() && #[trigger] s[i].0 == x;
        let t = s.remove(i);
        assert forall|j: int| 0 <= j < m - 1 implies #[trigger] has_id(t, f(j)) by {
            assert(has_id(s, f(j)));
            let w = choose|w: int| 0 <= w < s.len() && #[trigger] s[w].0 == f(j);
            assert(f(j) != f(m - 1));
            if w < i {
                assert(t[w] == s[w]);
            } else {
                assert(w != i);
                assert(t[w - 1] == s[w]);
            }
        }
        lemma_pigeonhole(t, f, m - 1);
    }
}

} // verus!
