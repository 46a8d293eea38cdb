//! Combatants and the initiative order: a stable descending sort with
//! its specification and laws.

use vstd::prelude::*;
use vstd::seq_lib::*;

verus! {

/// A named participant with a signed initiative value.  Identity is
/// positional: a combatant is addressed by its index in the owning
/// roster, never by a stable key.
#[derive(Debug)]
pub struct Combatant {
    pub name: String,
    pub initiative: i32,
}

/// Insert `c` into a roster, after every leading combatant whose
/// initiative is at least `c`'s.  On a descending-sorted roster this
/// places `c` behind its equals, which is what makes the sort stable.
pub open spec fn insert_desc(s: Seq<Combatant>, c: Combatant) -> Seq<Combatant>
    decreases s.len(),
{
    if s.len() == 0 {
        seq![c]
    } else if s[0].initiative >= c.initiative {
        seq![s[0]] + insert_desc(s.drop_first(), c)
    } else {
        seq![c] + s
    }
}

/// Stable insertion sort, descending by initiative.
pub open spec fn sort_desc(s: Seq<Combatant>) -> Seq<Combatant>
    decreases s.len(),
{
    if s.len() == 0 {
        Seq::empty()
    } else {
        insert_desc(sort_desc(s.drop_last()), s.last())
    }
}

/// The roster is non-increasing by initiative.
pub open spec fn sorted_desc(s: Seq<Combatant>) -> bool {
    forall|i: int, j: int| 0 <= i < j < s.len() ==> s[i].initiative >= s[j].initiative
}

/// The combatants of `s` whose initiative is exactly `k`, in order.
pub open spec fn has_initiative(k: int) -> spec_fn(Combatant) -> bool {
    |c: Combatant| c.initiative as int == k
}

pub open spec fn with_initiative(s: Seq<Combatant>, k: int) -> Seq<Combatant> {
    s.filter(has_initiative(k))
}

/// Inserting at the first position whose initiative is below `c`'s is
/// exactly `insert_desc`.
proof fn lemma_insert_desc_at(s: Seq<Combatant>, c: Combatant, p: int)
    requires
        0 <= p <= s.len(),
        forall|j: int| 0 <= j < p ==> (#[trigger] s[j]).initiative >= c.initiative,
        p < s.len() ==> s[p].initiative < c.initiative,
    ensures
        insert_desc(s, c) == s.insert(p, c),
    decreases s.len(),
{
    if s.len() == 0 {
        assert(s.insert(0, c) =~= seq![c]);
    } else if s[0].initiative >= c.initiative {
        lemma_insert_desc_at(s.drop_first(), c, p - 1);
        assert(seq![s[0]] + s.drop_first().insert(p - 1, c) =~= s.insert(p, c));
    } else {
        assert(p == 0);
        assert(seq![c] + s =~= s.insert(0, c));
    }
}

/// Inserting into a sorted roster keeps it sorted and grows it by one.
proof fn lemma_insert_desc_sorted(s: Seq<Combatant>, c: Combatant)
    requires
        sorted_desc(s),
    ensures
        sorted_desc(insert_desc(s, c)),
        insert_desc(s, c).len() == s.len() + 1,
    decreases s.len(),
{
    let ins = insert_desc(s, c);
    if s.len() == 0 {
        assert(sorted_desc(ins));
    } else if s[0].initiative >= c.initiative {
        let rest = s.drop_first();
        assert(sorted_desc(rest));
        lemma_insert_desc_sorted(rest, c);
        let tail = insert_desc(rest, c);
        assert forall|i: int, j: int| 0 <= i < j < ins.len() implies ins[i].initiative
            >= ins[j].initiative by {
            if i == 0 {
                assert(ins[j] == tail[j - 1]);
                if j >= 2 {
                    assert(tail[0].initiative >= tail[j - 1].initiative);
                }
                // tail[0] is either c or rest[0]; both are at most s[0]'s initiative
                if rest.len() == 0 {
                    assert(tail =~= seq![c]);
                } else if rest[0].initiative >= c.initiative {
                    assert(tail[0] == rest[0]);
                    assert(rest[0] == s[1]);
                } else {
                    assert(tail[0] == c);
                }
            } else {
                assert(ins[i] == tail[i - 1]);
                assert(ins[j] == tail[j - 1]);
                assert(tail[i - 1].initiative >= tail[j - 1].initiative);
            }
        }
    } else {
        assert forall|i: int, j: int| 0 <= i < j < ins.len() implies ins[i].initiative
            >= ins[j].initiative by {
            if i == 0 {
                assert(ins[j] == s[j - 1]);
                if j >= 2 {
                    assert(s[0].initiative >= s[j - 1].initiative);
                }
            } else {
                assert(ins[i] == s[i - 1]);
                assert(ins[j] == s[j - 1]);
            }
        }
    }
}

/// Law: the sorted roster is non-increasing by initiative and has the
/// same length as its input.
pub proof fn lemma_sort_desc_sorted(s: Seq<Combatant>)
    ensures
        sorted_desc(sort_desc(s)),
        sort_desc(s).len() == s.len(),
    decreases s.len(),
{
    if s.len() > 0 {
        lemma_sort_desc_sorted(s.drop_last());
        lemma_insert_desc_sorted(sort_desc(s.drop_last()), s.last());
    }
}

/// A roster with no combatant of initiative `k` filters to nothing.
proof fn lemma_with_initiative_none(s: Seq<Combatant>, k: int)
    requires
        forall|i: int| 0 <= i < s.len() ==> (#[trigger] s[i]).initiative as int != k,
    ensures
        with_initiative(s, k) == Seq::<Combatant>::empty(),
    decreases s.len(),
{
    reveal(Seq::filter);
    if s.len() > 0 {
        lemma_with_initiative_none(s.drop_last(), k);
    } else {
        assert(with_initiative(s, k) =~= Seq::<Combatant>::empty());
    }
}

/// Inserting into a sorted roster appends `c` to its own initiative
/// class and leaves every other class unchanged.
proof fn lemma_insert_desc_stable(s: Seq<Combatant>, c: Combatant, k: int)
    requires
        sorted_desc(s),
    ensures
        with_initiative(insert_desc(s, c), k) == if c.initiative as int == k {
            with_initiative(s, k).push(c)
        } else {
            with_initiative(s, k)
        },
    decreases s.len(),
{
    let pred = has_initiative(k);
    if s.len() == 0 {
        Seq::<Combatant>::lemma_filter_push(Seq::empty(), c, pred);
        assert(Seq::<Combatant>::empty().push(c) =~= seq![c]);
        reveal(Seq::filter);
    } else if s[0].initiative >= c.initiative {
        let rest = s.drop_first();
        assert(sorted_desc(rest));
        lemma_insert_desc_stable(rest, c, k);
        let tail = insert_desc(rest, c);
        Seq::<Combatant>::lemma_filter_prepend(tail, s[0], pred);
        assert(seq![s[0]] + tail == insert_desc(s, c));
        Seq::<Combatant>::lemma_filter_prepend(rest, s[0], pred);
        assert(seq![s[0]] + rest =~= s);
        let head = if pred(s[0]) {
            seq![s[0]]
        } else {
            Seq::<Combatant>::empty()
        };
        if c.initiative as int == k {
            assert(tail.filter(pred) == rest.filter(pred).push(c));
            assert(head + rest.filter(pred).push(c) =~= (head + rest.filter(pred)).push(c));
        }
    } else {
        Seq::<Combatant>::lemma_filter_prepend(s, c, pred);
        assert(seq![c] + s == insert_desc(s, c));
        if c.initiative as int == k {
            assert forall|i: int| 0 <= i < s.len() implies (#[trigger] s[i]).initiative as int
                != k by {
                assert(s[0].initiative >= s[i].initiative);
            }
            lemma_with_initiative_none(s, k);
            assert(seq![c] + s.filter(pred) =~= s.filter(pred).push(c));
        } else {
            assert(Seq::<Combatant>::empty() + s.filter(pred) =~= s.filter(pred));
        }
    }
}

/// Law: the sort is stable.  For every initiative value `k`, the
/// combatants with initiative `k` appear in the sorted roster in
/// exactly their input order.
pub proof fn lemma_sort_desc_stable(s: Seq<Combatant>, k: int)
    ensures
        with_initiative(sort_desc(s), k) == with_initiative(s, k),
    decreases s.len(),
{
    let pred = has_initiative(k);
    if s.len() > 0 {
        lemma_sort_desc_stable(s.drop_last(), k);
        lemma_sort_desc_sorted(s.drop_last());
        lemma_insert_desc_stable(sort_desc(s.drop_last()), s.last(), k);
        Seq::<Combatant>::lemma_filter_push(s.drop_last(), s.last(), pred);
        assert(s.drop_last().push(s.last()) =~= s);
    } else {
        reveal(Seq::filter);
    }
}

/// Inserting adds exactly one combatant to the roster's contents.
proof fn lemma_insert_desc_multiset(s: Seq<Combatant>, c: Combatant)
    ensures
        insert_desc(s, c).to_multiset() == s.to_multiset().insert(c),
    decreases s.len(),
{
    broadcast use vstd::seq_lib::group_to_multiset_ensures;

    if s.len() == 0 {
        assert(seq![c] =~= Seq::<Combatant>::empty().push(c));
        assert(s =~= Seq::<Combatant>::empty());
        assert(insert_desc(s, c).to_multiset() =~= s.to_multiset().insert(c));
    } else if s[0].initiative >= c.initiative {
        let rest = s.drop_first();
        lemma_insert_desc_multiset(rest, c);
        lemma_multiset_commutative(seq![s[0]], insert_desc(rest, c));
        lemma_multiset_commutative(seq![s[0]], rest);
        assert(s =~= seq![s[0]] + rest);
        assert(seq![s[0]].to_multiset().add(rest.to_multiset().insert(c))
            =~= seq![s[0]].to_multiset().add(rest.to_multiset()).insert(c));
    } else {
        lemma_multiset_commutative(seq![c], s);
        assert(seq![c] =~= Seq::<Combatant>::empty().push(c));
        assert(seq![c].to_multiset().add(s.to_multiset()) =~= s.to_multiset().insert(c));
    }
}

/// Law: sorting permutes the roster; the same combatants appear, with
/// multiplicity, before and after.
pub proof fn lemma_sort_desc_permutes(s: Seq<Combatant>)
    ensures
        sort_desc(s).to_multiset() == s.to_multiset(),
    decreases s.len(),
{
    broadcast use vstd::seq_lib::group_to_multiset_ensures;

    if s.len() > 0 {
        lemma_sort_desc_permutes(s.drop_last());
        lemma_insert_desc_multiset(sort_desc(s.drop_last()), s.last());
        assert(s =~= s.drop_last().push(s.last()));
    }
}

/// Sort the roster in place: descending by initiative, stable, by
/// insertion.  The result is exactly `sort_desc` of the input.
pub fn sort_by_initiative(v: &mut Vec<Combatant>)
    ensures
        final(v)@ == sort_desc(old(v)@),
{
    let ghost orig = v@;
    if v.len() == 0 {
        return ;
    }
    let mut i: usize = 1;
    proof {
        let t1 = orig.take(1);
        assert(t1.drop_last() =~= Seq::<Combatant>::empty());
        assert(sort_desc(Seq::<Combatant>::empty()) == Seq::<Combatant>::empty());
        assert(sort_desc(t1) == insert_desc(Seq::<Combatant>::empty(), t1.last()));
        assert(insert_desc(Seq::<Combatant>::empty(), t1.last()) == seq![t1.last()]);
        assert(t1.last() == orig[0]);
        assert(v@.take(1) =~= seq![orig[0]]);
    }
    while i < v.len()
        invariant
            1 <= i <= v@.len(),
            v@.len() == orig.len(),
            v@.skip(i as int) =~= orig.skip(i as int),
            v@.take(i as int) == sort_desc(orig.take(i as int)),
            sorted_desc(v@.take(i as int)),
        decreases v@.len() - i,
    {
        let ci = v[i].initiative;
        let mut p: usize = 0;
        while p < i && v[p].initiative >= ci
            invariant
                0 <= p <= i < v@.len(),
                ci == v@[i as int].initiative,
                forall|j: int| 0 <= j < p ==> (#[trigger] v@[j]).initiative >= ci,
            decreases i - p,
        {
            p = p + 1;
        }
        let ghost w = v@;
        let ghost sp = w.take(i as int);
        let ghost c = w[i as int];
        let item = v.remove(i);
        v.insert(p, item);
        proof {
            assert(c == orig[i as int]) by {
                assert(orig.skip(i as int)[0] == orig[i as int]);
                assert(w.skip(i as int)[0] == w[i as int]);
            }
            assert forall|j: int| 0 <= j < p implies (#[trigger] sp[j]).initiative
                >= c.initiative by {
                assert(sp[j] == w[j]);
            }
            lemma_insert_desc_at(sp, c, p as int);
            assert(v@ =~= sp.insert(p as int, c) + w.skip(i as int + 1));
            assert(v@.take(i as int + 1) =~= sp.insert(p as int, c));
            assert(v@.skip(i as int + 1) =~= orig.skip(i as int + 1)) by {
                assert forall|j: int| 0 <= j < orig.len() - i - 1 implies #[trigger] v@.skip(
                    i as int + 1,
                )[j] == orig.skip(i as int + 1)[j] by {
                    assert(v@.skip(i as int + 1)[j] == w.skip(i as int)[j + 1]);
                    assert(orig.skip(i as int + 1)[j] == orig.skip(i as int)[j + 1]);
                }
            }
            assert(orig.take(i as int + 1).drop_last() =~= orig.take(i as int));
            assert(orig.take(i as int + 1).last() == c);
            assert(v@.take(i as int + 1) == sort_desc(orig.take(i as int + 1)));
            lemma_insert_desc_sorted(sp, c);
        }
        i = i + 1;
    }
    proof {
        assert(orig.take(orig.len() as int) =~= orig);
        assert(v@.take(v@.len() as int) =~= v@);
    }
}

} // verus!
