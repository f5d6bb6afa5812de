use crate::checkout::Checkout;
use vstd::prelude::*;
use vstd::seq_lib::lemma_multiset_commutative;

verus! {

/// `x` strictly precedes `y` in the requested direction: with `oldest_first`,
/// by earlier checkout time, otherwise by later checkout time.
pub open spec fn comes_before(x: Checkout, y: Checkout, oldest_first: bool) -> bool {
    if oldest_first {
        x.checked_out_at < y.checked_out_at
    } else {
        x.checked_out_at > y.checked_out_at
    }
}

/// No later entry strictly precedes an earlier one.
pub open spec fn sorted_by_time(s: Seq<Checkout>, oldest_first: bool) -> bool {
    forall|i: int, j: int| 0 <= i < j < s.len() ==> !comes_before(s[j], s[i], oldest_first)
}

/// `x` placed behind every entry it does not strictly precede, so that
/// entries with equal timestamps keep their old order, as under a stable
/// sort.
pub open spec fn insert_by_time(s: Seq<Checkout>, x: Checkout, oldest_first: bool) -> Seq<Checkout>
    decreases s.len(),
{
    if s.len() == 0 {
        seq![x]
    } else if comes_before(x, s[0], oldest_first) {
        seq![x] + s
    } else {
        seq![s[0]] + insert_by_time(s.drop_first(), x, oldest_first)
    }
}

/// The entries rearranged by checkout time: a stable insertion sort.
pub open spec fn sort_by_time(s: Seq<Checkout>, oldest_first: bool) -> Seq<Checkout>
    decreases s.len(),
{
    if s.len() == 0 {
        Seq::empty()
    } else {
        insert_by_time(sort_by_time(s.drop_last(), oldest_first), s.last(), oldest_first)
    }
}

pub proof fn lemma_insert_by_time_len(s: Seq<Checkout>, x: Checkout, oldest_first: bool)
    ensures
        insert_by_time(s, x, oldest_first).len() == s.len() + 1,
    decreases s.len(),
{
    if s.len() == 0 {
    } else if comes_before(x, s[0], oldest_first) {
    } else {
        lemma_insert_by_time_len(s.drop_first(), x, oldest_first);
    }
}

pub proof fn lemma_insert_by_time_multiset(s: Seq<Checkout>, x: Checkout, oldest_first: bool)
    ensures
        insert_by_time(s, x, oldest_first).to_multiset() =~= s.to_multiset().insert(x),
    decreases s.len(),
{
    broadcast use vstd::seq_lib::group_to_multiset_ensures;
    broadcast use vstd::multiset::group_multiset_axioms;

    if s.len() == 0 {
        assert(insert_by_time(s, x, oldest_first) =~= s.push(x));
    } else if comes_before(x, s[0], oldest_first) {
        lemma_multiset_commutative(seq![x], s);
        assert(seq![x] =~= Seq::<Checkout>::empty().push(x));
    } else {
        lemma_insert_by_time_multiset(s.drop_first(), x, oldest_first);
        lemma_multiset_commutative(seq![s[0]], insert_by_time(s.drop_first(), x, oldest_first));
        lemma_multiset_commutative(seq![s[0]], s.drop_first());
        assert(seq![s[0]] + s.drop_first() =~= s);
        assert(seq![s[0]] =~= Seq::<Checkout>::empty().push(s[0]));
    }
}

pub proof fn lemma_insert_by_time_sorted(s: Seq<Checkout>, x: Checkout, oldest_first: bool)
    requires
        sorted_by_time(s, oldest_first),
    ensures
        sorted_by_time(insert_by_time(s, x, oldest_first), oldest_first),
    decreases s.len(),
{
    broadcast use vstd::seq_lib::group_to_multiset_ensures;

    if s.len() == 0 {
    } else if comes_before(x, s[0], oldest_first) {
        let r = seq![x] + s;
        assert forall|i: int, j: int| 0 <= i < j < r.len() implies !comes_before(
            r[j],
            r[i],
            oldest_first,
        ) by {
            if i == 0 && j >= 1 {
                assert(!comes_before(s[j - 1], s[0], oldest_first));
            }
        }
    } else {
        let rest = s.drop_first();
        let t = insert_by_time(rest, x, oldest_first);
        assert(sorted_by_time(rest, oldest_first)) by {
            assert(forall|i: int, j: int|
                0 <= i < j < rest.len() ==> !comes_before(rest[j], rest[i], oldest_first)) by {
                assert(forall|k: int| 0 <= k < rest.len() ==> rest[k] == s[k + 1]);
            }
        }
        lemma_insert_by_time_sorted(rest, x, oldest_first);
        lemma_insert_by_time_multiset(rest, x, oldest_first);
        let r = seq![s[0]] + t;
        assert forall|i: int, j: int| 0 <= i < j < r.len() implies !comes_before(
            r[j],
            r[i],
            oldest_first,
        ) by {
            if i == 0 {
                let e = t[j - 1];
                assert(t.contains(e));
                assert(t.to_multiset().count(e) > 0);
                if e == x {
                    assert(!comes_before(x, s[0], oldest_first));
                } else {
                    assert(rest.to_multiset().count(e) > 0);
                    assert(rest.contains(e));
                    let k = choose|k: int| 0 <= k < rest.len() && rest[k] == e;
                    assert(rest[k] == s[k + 1]);
                    assert(!comes_before(s[k + 1], s[0], oldest_first));
                }
            }
        }
    }
}

pub proof fn lemma_insert_by_time_at(
    s: Seq<Checkout>,
    x: Checkout,
    oldest_first: bool,
    pos: int,
)
    requires
        sorted_by_time(s, oldest_first),
        0 <= pos <= s.len(),
        forall|j: int| 0 <= j < pos ==> !comes_before(x, s[j], oldest_first),
        pos < s.len() ==> comes_before(x, s[pos], oldest_first),
    ensures
        insert_by_time(s, x, oldest_first) =~= s.insert(pos, x),
    decreases s.len(),
{
    if s.len() == 0 {
    } else if comes_before(x, s[0], oldest_first) {
        assert(pos == 0);
    } else {
        assert(pos >= 1);
        let rest = s.drop_first();
        assert(sorted_by_time(rest, oldest_first)) by {
            assert(forall|k: int| 0 <= k < rest.len() ==> rest[k] == s[k + 1]);
        }
        assert(forall|j: int| 0 <= j < pos - 1 ==> !comes_before(x, rest[j], oldest_first)) by {
            assert(forall|k: int| 0 <= k < rest.len() ==> rest[k] == s[k + 1]);
        }
        lemma_insert_by_time_at(rest, x, oldest_first, pos - 1);
    }
}

pub proof fn lemma_sort_by_time_ensures(s: Seq<Checkout>, oldest_first: bool)
    ensures
        sort_by_time(s, oldest_first).len() == s.len(),
        sorted_by_time(sort_by_time(s, oldest_first), oldest_first),
        sort_by_time(s, oldest_first).to_multiset() =~= s.to_multiset(),
    decreases s.len(),
{
    broadcast use vstd::seq_lib::group_to_multiset_ensures;

    if s.len() == 0 {
    } else {
        let rest = s.drop_last();
        lemma_sort_by_time_ensures(rest, oldest_first);
        lemma_insert_by_time_len(sort_by_time(rest, oldest_first), s.last(), oldest_first);
        lemma_insert_by_time_sorted(sort_by_time(rest, oldest_first), s.last(), oldest_first);
        lemma_insert_by_time_multiset(sort_by_time(rest, oldest_first), s.last(), oldest_first);
        assert(rest.push(s.last()) =~= s);
    }
}

/// `x` strictly precedes `y` in the requested direction.
fn time_before(x: &Checkout, y: &Checkout, oldest_first: bool) -> (r: bool)
    ensures
        r == comes_before(*x, *y, oldest_first),
{
    if oldest_first {
        x.checked_out_at < y.checked_out_at
    } else {
        x.checked_out_at > y.checked_out_at
    }
}

/// Places one entry into a run kept sorted by checkout time.
fn insert_checkout(v: &mut Vec<Checkout>, x: Checkout, oldest_first: bool)
    requires
        sorted_by_time(old(v)@, oldest_first),
    ensures
        final(v)@ == insert_by_time(old(v)@, x, oldest_first),
{
    let mut i: usize = 0;
    while i < v.len() && !time_before(&x, &v[i], oldest_first)
        invariant
            i <= v.len(),
            v@ == old(v)@,
            forall|j: int| 0 <= j < i ==> !comes_before(x, v@[j], oldest_first),
        decreases v.len() - i,
    {
        i = i + 1;
    }
    proof {
        lemma_insert_by_time_at(v@, x, oldest_first, i as int);
    }
    v.insert(i, x);
}

/// The entries sorted by checkout time: with `oldest_first` the oldest
/// checkout leads, otherwise the newest.
pub fn sort_checkouts(v: Vec<Checkout>, oldest_first: bool) -> (r: Vec<Checkout>)
    ensures
        r@ == sort_by_time(v@, oldest_first),
{
    let mut out: Vec<Checkout> = Vec::new();
    let mut i: usize = 0;
    while i < v.len()
        invariant
            i <= v@.len(),
            out@ == sort_by_time(v@.take(i as int), oldest_first),
            sorted_by_time(out@, oldest_first),
        decreases v@.len() - i,
    {
        let x = v[i];
        proof {
            assert(v@.take(i as int + 1).drop_last() =~= v@.take(i as int));
            assert(v@.take(i as int + 1).last() == v@[i as int]);
            lemma_insert_by_time_sorted(out@, x, oldest_first);
        }
        insert_checkout(&mut out, x, oldest_first);
        i = i + 1;
    }
    proof {
        assert(v@.take(v@.len() as int) =~= v@);
    }
    out
}

} // verus!
