use vstd::prelude::*;

use crate::category::ChangeCategory;
use crate::changes::Change;
use crate::changes::lemma_change_order_total;
use crate::changes::lemma_change_order_transitive;
use crate::span::Span;

verus! {

/// Entries are strictly ascending in the change order; since the order is
/// strict, this also means at most one entry per equality key.
pub open spec fn strictly_sorted(s: Seq<Change>) -> bool {
    forall|i: int, j: int| 0 <= i < j < s.len() ==> s[i].lt_spec(s[j])
}

/// The set of equality keys appearing in a sequence of changes.
pub open spec fn keys_of(s: Seq<Change>) -> Set<(bool, Span)>
    decreases s.len(),
{
    if s.len() == 0 {
        Set::empty()
    } else {
        keys_of(s.skip(1)).insert(s[0].key())
    }
}

/// What one insertion does to the ordered set: walk past the entries that
/// come before the new change, keep the set as it is if an entry with the
/// same key is already there (first write wins), and otherwise splice the
/// change in at its place.
pub open spec fn insert_change(s: Seq<Change>, c: Change) -> Seq<Change>
    decreases s.len(),
{
    if s.len() == 0 {
        seq![c]
    } else if s[0].lt_spec(c) {
        seq![s[0]] + insert_change(s.skip(1), c)
    } else if s[0].same_key(c) {
        s
    } else {
        seq![c] + s
    }
}

/// A key is in `keys_of(s)` exactly when some entry of `s` carries it.
pub proof fn lemma_keys_of_contains(s: Seq<Change>, k: (bool, Span))
    ensures
        keys_of(s).contains(k) <==> exists|i: int| 0 <= i < s.len() && s[i].key() == k,
    decreases s.len(),
{
    if s.len() > 0 {
        lemma_keys_of_contains(s.skip(1), k);
        if keys_of(s).contains(k) {
            if s[0].key() == k {
                assert(s[0].key() == k && 0 < s.len());
            } else {
                let i = choose|i: int| 0 <= i < s.skip(1).len() && s.skip(1)[i].key() == k;
                assert(s[i + 1].key() == k);
            }
        }
        if exists|i: int| 0 <= i < s.len() && s[i].key() == k {
            let i = choose|i: int| 0 <= i < s.len() && s[i].key() == k;
            if i > 0 {
                assert(s.skip(1)[i - 1].key() == k);
            }
        }
    }
}

/// The effect of one insertion: the result is still strictly sorted, its
/// keys are the old keys plus the key of the new change, every entry is an
/// old entry or the new change, an insertion under an already present key
/// changes nothing, and one under a fresh key grows the set by exactly one
/// entry.
pub proof fn lemma_insert_change_props(s: Seq<Change>, c: Change)
    requires
        strictly_sorted(s),
    ensures
        strictly_sorted(insert_change(s, c)),
        keys_of(insert_change(s, c)) == keys_of(s).insert(c.key()),
        keys_of(s).contains(c.key()) ==> insert_change(s, c) == s,
        !keys_of(s).contains(c.key()) ==> insert_change(s, c).len() == s.len() + 1,
        forall|k: int|
            0 <= k < insert_change(s, c).len() ==> (s.contains(
                #[trigger] insert_change(s, c)[k],
            ) || insert_change(s, c)[k] == c),
    decreases s.len(),
{
    let r = insert_change(s, c);
    if s.len() == 0 {
        assert(r =~= seq![c]);
        assert(r.skip(1) =~= s);
        assert(keys_of(r) == keys_of(s).insert(c.key()));
        assert(r[0] == c);
    } else if s[0].lt_spec(c) {
        let s1 = s.skip(1);
        assert(strictly_sorted(s1)) by {
            assert(forall|i: int, j: int|
                0 <= i < j < s1.len() ==> s[i + 1].lt_spec(s[j + 1]) && s1[i] == s[i + 1] && s1[j]
                    == s[j + 1]);
        }
        lemma_insert_change_props(s1, c);
        let r1 = insert_change(s1, c);
        assert(r == seq![s[0]] + r1);
        assert(r.skip(1) =~= r1);
        assert(r[0] == s[0]);

        // the head precedes everything in the tail of the result
        assert forall|k: int| 0 <= k < r1.len() implies s[0].lt_spec(r1[k]) by {
            if r1[k] == c {
                assert(s[0].lt_spec(c));
            } else {
                let j = choose|j: int| 0 <= j < s1.len() && s1[j] == r1[k];
                assert(s[0].lt_spec(s[j + 1]));
            }
        }
        assert(strictly_sorted(r)) by {
            assert(forall|i: int, j: int|
                0 < i < j < r.len() ==> r1[i - 1].lt_spec(r1[j - 1]) && r[i] == r1[i - 1] && r[j]
                    == r1[j - 1]);
        }

        // keys
        assert(keys_of(r) == keys_of(r1).insert(s[0].key()));
        assert(keys_of(s) == keys_of(s1).insert(s[0].key()));
        assert(keys_of(r) =~= keys_of(s).insert(c.key()));

        // a present key cannot be the head's: the head precedes c strictly
        lemma_change_order_total(s[0], c);
        if keys_of(s).contains(c.key()) {
            assert(s[0].key() != c.key());
            assert(keys_of(s1).contains(c.key()));
            assert(r =~= s);
        }
        if !keys_of(s).contains(c.key()) {
            assert(!keys_of(s1).contains(c.key()));
        }

        // containment
        assert forall|k: int| 0 <= k < r.len() implies (s.contains(#[trigger] r[k]) || r[k]
            == c) by {
            if k == 0 {
                assert(s[0] == s[0]);
                assert(s.contains(s[0]));
            } else {
                if r1[k - 1] == c {
                } else {
                    let j = choose|j: int| 0 <= j < s1.len() && s1[j] == r1[k - 1];
                    assert(s[j + 1] == r[k]);
                    assert(s.contains(s[j + 1]));
                }
            }
        }
    } else if s[0].same_key(c) {
        assert(r == s);
        assert(keys_of(s).contains(c.key()));
        assert(keys_of(r) =~= keys_of(s).insert(c.key()));
        assert(forall|k: int| 0 <= k < r.len() ==> s.contains(#[trigger] r[k]));
    } else {
        // c precedes the head, and with it every entry of s
        lemma_change_order_total(s[0], c);
        assert(c.lt_spec(s[0]));
        assert(r == seq![c] + s);
        assert forall|j: int| 0 <= j < s.len() implies c.lt_spec(s[j]) by {
            if j > 0 {
                lemma_change_order_transitive(c, s[0], s[j]);
            }
        }
        assert(strictly_sorted(r)) by {
            assert(forall|i: int, j: int|
                0 < i < j < r.len() ==> s[i - 1].lt_spec(s[j - 1]) && r[i] == s[i - 1] && r[j] == s[
                    j - 1]);
        }
        assert(r.skip(1) =~= s);
        assert(keys_of(r) =~= keys_of(s).insert(c.key()));

        // the key of c is fresh: c strictly precedes every entry
        if keys_of(s).contains(c.key()) {
            lemma_keys_of_contains(s, c.key());
            let i = choose|i: int| 0 <= i < s.len() && s[i].key() == c.key();
            lemma_change_order_total(c, s[i]);
            assert(false);
        }
        assert(forall|k: int|
            0 <= k < r.len() ==> (#[trigger] r[k] == c || (0 < k && r[k] == s[k - 1]
                && s.contains(s[k - 1]))));
    }
}

/// Where the scan of `insert_change` lands: if every entry before `i`
/// strictly precedes `c` and the entry at `i` (if any) does not, then the
/// insertion either finds an equal key at `i` and leaves the set alone, or
/// splices `c` in at position `i`.
proof fn lemma_insert_change_at(s: Seq<Change>, c: Change, i: int)
    requires
        0 <= i <= s.len(),
        forall|j: int| 0 <= j < i ==> s[j].lt_spec(c),
        i < s.len() ==> !s[i].lt_spec(c),
    ensures
        i < s.len() && s[i].same_key(c) ==> insert_change(s, c) == s,
        (i == s.len() || !s[i].same_key(c)) ==> insert_change(s, c) == s.take(i) + seq![c] + s.skip(
            i,
        ),
    decreases i, s.len(),
{
    if i == 0 {
        if s.len() == 0 {
            assert(insert_change(s, c) =~= s.take(0) + seq![c] + s.skip(0));
        } else if s[0].same_key(c) {
            lemma_change_order_total(s[0], c);
            assert(!s[0].lt_spec(c));
            assert(insert_change(s, c) == s);
        } else {
            assert(insert_change(s, c) =~= s.take(0) + seq![c] + s.skip(0));
        }
    } else {
        assert(s[0].lt_spec(c));
        let s1 = s.skip(1);
        assert(forall|j: int| 0 <= j < i - 1 ==> s1[j] == s[j + 1] && s[j + 1].lt_spec(c));
        assert(i - 1 < s1.len() ==> s1[i - 1] == s[i]);
        lemma_insert_change_at(s1, c, i - 1);
        assert(insert_change(s, c) == seq![s[0]] + insert_change(s1, c));
        if i < s.len() && s[i].same_key(c) {
            assert(insert_change(s1, c) == s1);
            assert(insert_change(s, c) =~= s);
        } else {
            assert(insert_change(s1, c) == s1.take(i - 1) + seq![c] + s1.skip(i - 1));
            assert(insert_change(s, c) =~= s.take(i) + seq![c] + s.skip(i));
        }
    }
}

/// The total set of changes recorded between two crate versions: an
/// ordered, deduplicated collection of change events together with the
/// most severe category recorded so far.
pub struct ChangeSet {
    /// The recorded changes, strictly ascending in the change order.
    pub changes: Vec<Change>,
    /// The most severe change category already recorded.
    pub max: ChangeCategory,
}

impl ChangeSet {
    /// Well-formed: the entries are strictly ascending (hence no two share
    /// a key), and the recorded maximum is at least as severe as every
    /// entry. The maximum can exceed every entry: a discarded duplicate
    /// still contributes its severity.
    pub open spec fn wf(self) -> bool {
        &&& strictly_sorted(self.changes@)
        &&& forall|i: int|
            0 <= i < self.changes@.len() ==> (#[trigger] self.changes@[i]).category_spec().rank()
                <= self.max.rank()
    }

    /// The set of equality keys currently held.
    pub open spec fn key_set(self) -> Set<(bool, Span)> {
        keys_of(self.changes@)
    }

    /// Record one change: join its severity into the running maximum —
    /// monotone, and idempotent on re-insertion — and insert it into the
    /// ordered set; if an entry with the same key is already present, the
    /// existing entry is kept and the new one discarded, without error.
    pub fn add_change(&mut self, change: Change)
        requires
            old(self).wf(),
        ensures
            final(self).wf(),
            final(self).max == old(self).max.join(change.category_spec()),
            final(self).changes@ == insert_change(old(self).changes@, change),
            final(self).key_set() == old(self).key_set().insert(change.key()),
    {
        let ghost s = old(self).changes@;
        let cat = change.category();
        if cat.is_more_severe_than(&self.max) {
            self.max = cat;
        }
        let mut i: usize = 0;
        loop
            invariant
                i <= s.len(),
                self.changes@ == s,
                self.max == old(self).max.join(change.category_spec()),
                forall|j: int| 0 <= j < i ==> s[j].lt_spec(change),
            ensures
                i <= s.len(),
                self.changes@ == s,
                self.max == old(self).max.join(change.category_spec()),
                forall|j: int| 0 <= j < i ==> s[j].lt_spec(change),
                i < s.len() ==> !s[i as int].lt_spec(change),
            decreases s.len() - i,
        {
            if i >= self.changes.len() {
                break ;
            }
            if !(self.changes[i] < change) {
                break ;
            }
            i = i + 1;
        }
        proof {
            lemma_insert_change_at(s, change, i as int);
            lemma_insert_change_props(s, change);
        }
        // on a key collision the first write wins: the recorded entry stays,
        // only the maximum has absorbed the newcomer's severity
        if !(i < self.changes.len() && self.changes[i] == change) {
            self.changes.insert(i, change);
            proof {
                assert(s.insert(i as int, change) =~= s.take(i as int) + seq![change] + s.skip(
                    i as int,
                ));
            }
        }
    }

    /// The outcome of a comparison run, for an external formatter: the
    /// distinct changes in ascending source order, and the overall
    /// severity of the release.
    pub fn report(&self) -> (r: (&Vec<Change>, ChangeCategory))
        ensures
            r.0@ == self.changes@,
            r.1 == self.max,
    {
        (&self.changes, self.max)
    }
}

/// The worst severity among a sequence of changes, `Patch` when there are
/// none. This is the value `max(classify(c) for c in cs)` that a run of
/// the aggregator computes.
pub open spec fn worst_of(cs: Seq<Change>) -> ChangeCategory
    decreases cs.len(),
{
    if cs.len() == 0 {
        ChangeCategory::Patch
    } else {
        worst_of(cs.drop_last()).join(cs.last().category_spec())
    }
}

/// The running maximum after feeding `cs`, in order, to an aggregator
/// whose maximum was `m`: each step is exactly what `add_change` states of
/// `max`.
pub open spec fn join_all(m: ChangeCategory, cs: Seq<Change>) -> ChangeCategory
    decreases cs.len(),
{
    if cs.len() == 0 {
        m
    } else {
        join_all(m, cs.drop_last()).join(cs.last().category_spec())
    }
}

/// The stored sequence after feeding `cs`, in order, to an aggregator that
/// held `s`: each step is exactly what `add_change` states of `changes`.
pub open spec fn insert_all(s: Seq<Change>, cs: Seq<Change>) -> Seq<Change>
    decreases cs.len(),
{
    if cs.len() == 0 {
        s
    } else {
        insert_change(insert_all(s, cs.drop_last()), cs.last())
    }
}

/// `worst_of` is the maximum it claims to be: it dominates the severity of
/// every change in the sequence, and it is attained by one of them unless
/// it is the `Patch` of an empty aggregation.
pub proof fn lemma_worst_of_bounds(cs: Seq<Change>)
    ensures
        forall|i: int|
            0 <= i < cs.len() ==> (#[trigger] cs[i]).category_spec().rank() <= worst_of(cs).rank(),
        worst_of(cs) == ChangeCategory::Patch || exists|i: int|
            0 <= i < cs.len() && worst_of(cs) == cs[i].category_spec(),
    decreases cs.len(),
{
    if cs.len() > 0 {
        let dl = cs.drop_last();
        lemma_worst_of_bounds(dl);
        assert(forall|i: int| 0 <= i < dl.len() ==> dl[i] == cs[i]);
        if worst_of(cs) == cs.last().category_spec() {
            assert(worst_of(cs) == cs[cs.len() - 1].category_spec());
        } else {
            assert(worst_of(cs) == worst_of(dl));
            if worst_of(dl) != ChangeCategory::Patch {
                let i = choose|i: int| 0 <= i < dl.len() && worst_of(dl) == dl[i].category_spec();
                assert(worst_of(cs) == cs[i].category_spec());
            }
        }
    }
}

/// Order-independence of aggregation: two insertion orders of the same
/// changes agree on the worst severity and on the set of keys that survive
/// deduplication. Together with `lemma_run_characterization` this says the
/// outcome of a run of `add_change` calls does not depend on the order of
/// the calls.
pub proof fn lemma_aggregation_order_independent(cs1: Seq<Change>, cs2: Seq<Change>)
    requires
        cs1.to_multiset() == cs2.to_multiset(),
    ensures
        worst_of(cs1) == worst_of(cs2),
        keys_of(cs1) == keys_of(cs2),
{
    broadcast use vstd::seq_lib::group_to_multiset_ensures;

    cs1.to_multiset_ensures();
    cs2.to_multiset_ensures();
    assert forall|x: Change| cs1.contains(x) <==> cs2.contains(x) by {
        assert(cs1.contains(x) <==> cs1.to_multiset().count(x) > 0);
        assert(cs2.contains(x) <==> cs2.to_multiset().count(x) > 0);
        assert(cs1.to_multiset().count(x) == cs2.to_multiset().count(x));
    }
    lemma_worst_of_bounds(cs1);
    lemma_worst_of_bounds(cs2);

    // each worst dominates the other: it is Patch, the global minimum, or
    // attained by a change the other sequence also contains
    assert(worst_of(cs1).rank() <= worst_of(cs2).rank()) by {
        if worst_of(cs1) != ChangeCategory::Patch {
            let i = choose|i: int| 0 <= i < cs1.len() && worst_of(cs1) == cs1[i].category_spec();
            assert(cs1.contains(cs1[i]));
            let j = choose|j: int| 0 <= j < cs2.len() && cs2[j] == cs1[i];
            assert(cs2[j].category_spec().rank() <= worst_of(cs2).rank());
        }
    }
    assert(worst_of(cs2).rank() <= worst_of(cs1).rank()) by {
        if worst_of(cs2) != ChangeCategory::Patch {
            let i = choose|i: int| 0 <= i < cs2.len() && worst_of(cs2) == cs2[i].category_spec();
            assert(cs2.contains(cs2[i]));
            let j = choose|j: int| 0 <= j < cs1.len() && cs1[j] == cs2[i];
            assert(cs1[j].category_spec().rank() <= worst_of(cs1).rank());
        }
    }
    crate::category::lemma_rank_injective(worst_of(cs1), worst_of(cs2));

    assert(keys_of(cs1) =~= keys_of(cs2)) by {
        assert forall|k: (bool, Span)| keys_of(cs1).contains(k) == keys_of(
            cs2,
        ).contains(k) by {
            lemma_keys_of_contains(cs1, k);
            lemma_keys_of_contains(cs2, k);
            if keys_of(cs1).contains(k) {
                let i = choose|i: int| 0 <= i < cs1.len() && cs1[i].key() == k;
                assert(cs1.contains(cs1[i]));
                let j = choose|j: int| 0 <= j < cs2.len() && cs2[j] == cs1[i];
            }
            if keys_of(cs2).contains(k) {
                let i = choose|i: int| 0 <= i < cs2.len() && cs2[i].key() == k;
                assert(cs2.contains(cs2[i]));
                let j = choose|j: int| 0 <= j < cs1.len() && cs1[j] == cs2[i];
            }
        }
    }
}

/// What a whole run computes, whatever was already there: feeding `cs` to
/// an aggregator leaves the stored set sorted, makes its keys the old keys
/// joined with the keys of `cs`, and joins the worst severity of `cs` into
/// the maximum — so a run from the default state yields exactly the keys
/// of `cs` and `worst_of(cs)`.
pub proof fn lemma_run_characterization(s: Seq<Change>, m: ChangeCategory, cs: Seq<Change>)
    requires
        strictly_sorted(s),
    ensures
        strictly_sorted(insert_all(s, cs)),
        keys_of(insert_all(s, cs)) == keys_of(s).union(keys_of(cs)),
        join_all(m, cs) == m.join(worst_of(cs)),
    decreases cs.len(),
{
    if cs.len() == 0 {
        assert(keys_of(insert_all(s, cs)) =~= keys_of(s).union(keys_of(cs)));
    } else {
        let dl = cs.drop_last();
        let c = cs.last();
        lemma_run_characterization(s, m, dl);
        let t = insert_all(s, dl);
        lemma_insert_change_props(t, c);
        assert(keys_of(insert_all(s, cs)) =~= keys_of(s).union(keys_of(cs))) by {
            assert(keys_of(insert_all(s, cs)) == keys_of(t).insert(c.key()));
            assert forall|k: (bool, Span)|
                keys_of(cs).contains(k) == (keys_of(dl).contains(k) || k == c.key()) by {
                lemma_keys_of_contains(cs, k);
                lemma_keys_of_contains(dl, k);
                assert(forall|i: int| 0 <= i < dl.len() ==> dl[i] == cs[i]);
                if keys_of(cs).contains(k) {
                    let i = choose|i: int| 0 <= i < cs.len() && cs[i].key() == k;
                    if i < cs.len() - 1 {
                        assert(dl[i].key() == k);
                    }
                }
                if keys_of(dl).contains(k) {
                    let i = choose|i: int| 0 <= i < dl.len() && dl[i].key() == k;
                    assert(cs[i].key() == k);
                }
                if k == c.key() {
                    assert(cs[cs.len() - 1].key() == k);
                }
            }
        }
    }
}

/// Deduplication: once a change is in, inserting any change with the same
/// key is a no-op on the stored set, and a fresh key grows the set by
/// exactly one entry. When the duplicate classifies like the original —
/// in particular when it is the very same change — the running maximum
/// does not move either.
pub proof fn lemma_deduplication(s: Seq<Change>, c1: Change, c2: Change, m: ChangeCategory)
    requires
        strictly_sorted(s),
        c1.same_key(c2),
    ensures
        insert_change(insert_change(s, c1), c2) == insert_change(s, c1),
        !keys_of(s).contains(c1.key()) ==> insert_change(s, c1).len() == s.len() + 1,
        c1.category_spec() == c2.category_spec() ==> m.join(c1.category_spec()).join(
            c2.category_spec(),
        ) == m.join(c1.category_spec()),
{
    lemma_insert_change_props(s, c1);
    let t = insert_change(s, c1);
    lemma_insert_change_props(t, c2);
    assert(keys_of(t).contains(c2.key()));
}

impl Default for ChangeSet {
    /// The empty aggregation: no changes, and the identity severity —
    /// absence of change implies no compatibility impact.
    fn default() -> (r: ChangeSet)
        ensures
            r.wf(),
            r.changes@ == Seq::<Change>::empty(),
            r.max == ChangeCategory::Patch,
    {
        ChangeSet { changes: Vec::new(), max: ChangeCategory::Patch }
    }
}

} // verus!
