use vstd::prelude::*;
use vstd::seq_lib::group_filter_ensures;
use crate::bounty::{ids_unique, BountyCollection, ChildBounty};
use crate::filter::Filter;

verus! {

/// Contract violations of the derivation layer.
#[derive(Clone, Copy, Debug, PartialEq, Eq, Structural)]
pub enum ViewError {
    /// Claimable and pending totals were asked for without a finalized block.
    MissingFinalityHeight,
    /// A total does not fit in 128 bits.
    AmountOverflow,
}

/// The claimable/pending split of the value a filter selects.
#[derive(Clone, Copy, Debug, PartialEq, Eq, Structural)]
pub struct Amounts {
    pub pending: u128,
    pub claimable: u128,
}

pub open spec fn selects(f: Filter, finalized: Option<u64>) -> spec_fn(ChildBounty) -> bool {
    |b: ChildBounty| f.matches(b, finalized)
}

pub open spec fn selects_claimable(f: Filter, h: u64) -> spec_fn(ChildBounty) -> bool {
    |b: ChildBounty| f.matches(b, Some(h)) && b.claimable_at(h as int)
}

pub open spec fn selects_pending(f: Filter, h: u64) -> spec_fn(ChildBounty) -> bool {
    |b: ChildBounty| f.matches(b, Some(h)) && !b.claimable_at(h as int)
}

/// The bounties of `s` that `f` selects, in order.
pub open spec fn selected(s: Seq<ChildBounty>, f: Filter, finalized: Option<u64>) -> Seq<ChildBounty> {
    s.filter(selects(f, finalized))
}

/// The selected bounties that are claimable at block `h`.
pub open spec fn selected_claimable(s: Seq<ChildBounty>, f: Filter, h: u64) -> Seq<ChildBounty> {
    s.filter(selects_claimable(f, h))
}

/// The selected bounties that are not yet claimable at block `h`.
pub open spec fn selected_pending(s: Seq<ChildBounty>, f: Filter, h: u64) -> Seq<ChildBounty> {
    s.filter(selects_pending(f, h))
}

proof fn lemma_sum_values_push(s: Seq<ChildBounty>, b: ChildBounty)
    ensures
        sum_values(s.push(b)) == sum_values(s) + b.value,
{
    assert(s.push(b).drop_last() =~= s);
}

/// The sum of the values of the bounties of `s`.
pub open spec fn sum_values(s: Seq<ChildBounty>) -> int
    decreases s.len(),
{
    if s.len() == 0 {
        0
    } else {
        sum_values(s.drop_last()) + s.last().value
    }
}

pub proof fn lemma_sum_values_append(a: Seq<ChildBounty>, b: Seq<ChildBounty>)
    ensures
        sum_values(a + b) == sum_values(a) + sum_values(b),
    decreases b.len(),
{
    if b.len() > 0 {
        assert((a + b).drop_last() =~= a + b.drop_last());
        lemma_sum_values_append(a, b.drop_last());
    }
}

pub proof fn lemma_sum_values_nonneg(s: Seq<ChildBounty>)
    ensures
        sum_values(s) >= 0,
    decreases s.len(),
{
    if s.len() > 0 {
        lemma_sum_values_nonneg(s.drop_last());
    }
}

/// Filtering a prefix one element longer adds that element exactly when it passes.
proof fn lemma_filter_step(s: Seq<ChildBounty>, i: int, pred: spec_fn(ChildBounty) -> bool)
    requires
        0 <= i < s.len(),
    ensures
        s.take(i + 1).filter(pred) == (if pred(s[i]) {
            s.take(i).filter(pred).push(s[i])
        } else {
            s.take(i).filter(pred)
        }),
{
    reveal(Seq::filter);
    assert(s.take(i + 1).drop_last() =~= s.take(i));
}

/// The sum over a filtered prefix never exceeds the sum over the whole.
proof fn lemma_prefix_sum_le(s: Seq<ChildBounty>, i: int, pred: spec_fn(ChildBounty) -> bool)
    requires
        0 <= i <= s.len(),
    ensures
        sum_values(s.take(i).filter(pred)) <= sum_values(s.filter(pred)),
{
    assert(s =~= s.take(i) + s.skip(i));
    Seq::filter_distributes_over_add(s.take(i), s.skip(i), pred);
    lemma_sum_values_append(s.take(i).filter(pred), s.skip(i).filter(pred));
    lemma_sum_values_nonneg(s.skip(i).filter(pred));
}

/// Each bounty that a filtered sequence holds comes from the sequence and passes
/// the test.
proof fn lemma_filter_from(s: Seq<ChildBounty>, pred: spec_fn(ChildBounty) -> bool)
    ensures
        forall|e: ChildBounty| #[trigger] s.filter(pred).contains(e) ==> s.contains(e) && pred(e),
    decreases s.len(),
{
    reveal(Seq::filter);
    if s.len() > 0 {
        let t = s.drop_last();
        lemma_filter_from(t, pred);
        assert forall|e: ChildBounty| #[trigger] s.filter(pred).contains(e) implies s.contains(e)
            && pred(e) by {
            let u = s.filter(pred);
            let k = choose|k: int| 0 <= k < u.len() && u[k] == e;
            if pred(s.last()) && k == u.len() - 1 {
                assert(s[s.len() - 1] == e);
            } else {
                assert(t.filter(pred)[k] == e);
                assert(t.filter(pred).contains(e));
                let j = choose|j: int| 0 <= j < t.len() && t[j] == e;
                assert(s[j] == e);
            }
        }
    }
}

proof fn lemma_filter_no_duplicates(s: Seq<ChildBounty>, pred: spec_fn(ChildBounty) -> bool)
    requires
        s.no_duplicates(),
    ensures
        s.filter(pred).no_duplicates(),
    decreases s.len(),
{
    reveal(Seq::filter);
    if s.len() > 0 {
        let t = s.drop_last();
        assert(t.no_duplicates()) by {
            assert forall|i: int, j: int| 0 <= i < t.len() && 0 <= j < t.len() && i != j implies t[i]
                != t[j] by {
                assert(t[i] == s[i] && t[j] == s[j]);
            }
        }
        lemma_filter_no_duplicates(t, pred);
        lemma_filter_from(t, pred);
        if pred(s.last()) {
            let u = t.filter(pred);
            assert(!t.contains(s.last())) by {
                if t.contains(s.last()) {
                    let j = choose|j: int| 0 <= j < t.len() && t[j] == s.last();
                    assert(s[j] == s[s.len() - 1]);
                }
            }
            assert(!u.contains(s.last()));
            let v = u.push(s.last());
            assert forall|i: int, j: int| 0 <= i < v.len() && 0 <= j < v.len() && i != j implies v[i]
                != v[j] by {
                if i == v.len() - 1 {
                    assert(u.contains(v[j]) ==> v[j] != s.last());
                    assert(u[j] == v[j]);
                } else if j == v.len() - 1 {
                    assert(u[i] == v[i]);
                }
            }
        }
    }
}

/// The number of bounties a filter selects is the size of the set of bounties
/// of the collection that pass the filter.
pub proof fn lemma_count_is_set_size(s: Seq<ChildBounty>, f: Filter, finalized: Option<u64>)
    requires
        ids_unique(s),
    ensures
        selected(s, f, finalized).len() == s.to_set().filter(selects(f, finalized)).len(),
{
    broadcast use group_filter_ensures;

    let pred = selects(f, finalized);
    assert(s.no_duplicates()) by {
        assert forall|i: int, j: int| 0 <= i < s.len() && 0 <= j < s.len() && i != j implies s[i]
            != s[j] by {
            assert(s[i].id != s[j].id);
        }
    }
    lemma_filter_no_duplicates(s, pred);
    lemma_filter_from(s, pred);
    s.filter(pred).unique_seq_to_set();
    assert(s.filter(pred).to_set() =~= s.to_set().filter(pred)) by {
        assert forall|e: ChildBounty| s.to_set().filter(pred).contains(e) implies s.filter(
            pred,
        ).to_set().contains(e) by {
            let j = choose|j: int| 0 <= j < s.len() && s[j] == e;
            assert(s.filter(pred).contains(s[j]));
        }
    }
}

/// The count of a collection is the number of bounties the filter selects.
pub fn total_count(c: &BountyCollection, f: &Filter, finalized: Option<u64>) -> (r: usize)
    ensures
        r == selected(c@, *f, finalized).len(),
{
    let items = c.bounties();
    let ghost s = c@;
    let ghost pred = selects(*f, finalized);
    let mut n: usize = 0;
    let mut i: usize = 0;
    while i < items.len()
        invariant
            items@ == s,
            s == c@,
            pred == selects(*f, finalized),
            0 <= i <= s.len(),
            n == s.take(i as int).filter(pred).len(),
            n <= i,
        decreases s.len() - i,
    {
        proof {
            lemma_filter_step(s, i as int, pred);
        }
        if f.check(&items[i], finalized) {
            n = n + 1;
        }
        i = i + 1;
    }
    assert(s.take(s.len() as int) =~= s);
    n
}

/// The pending and claimable totals of what `f` selects at the finalized block.
pub fn amounts(c: &BountyCollection, f: &Filter, finalized: Option<u64>) -> (r: Result<
    Amounts,
    ViewError,
>)
    ensures
        finalized is None ==> r == Err::<Amounts, ViewError>(ViewError::MissingFinalityHeight),
        finalized matches Some(h) ==> {
            let p = sum_values(selected_pending(c@, *f, h));
            let q = sum_values(selected_claimable(c@, *f, h));
            if p <= u128::MAX && q <= u128::MAX {
                r == Ok::<Amounts, ViewError>(Amounts { pending: p as u128, claimable: q as u128 })
            } else {
                r == Err::<Amounts, ViewError>(ViewError::AmountOverflow)
            }
        },
{
    let h = match finalized {
        Some(h) => h,
        None => {
            return Err(ViewError::MissingFinalityHeight);
        },
    };
    let items = c.bounties();
    let ghost s = c@;
    let ghost pp = selects_pending(*f, h);
    let ghost pq = selects_claimable(*f, h);
    let mut pending: u128 = 0;
    let mut claimable: u128 = 0;
    let mut i: usize = 0;
    while i < items.len()
        invariant
            items@ == s,
            s == c@,
            0 <= i <= s.len(),
            finalized == Some(h),
            pp == selects_pending(*f, h),
            pq == selects_claimable(*f, h),
            pending == sum_values(s.take(i as int).filter(pp)),
            claimable == sum_values(s.take(i as int).filter(pq)),
        decreases s.len() - i,
    {
        proof {
            lemma_filter_step(s, i as int, pp);
            lemma_filter_step(s, i as int, pq);
        }
        proof {
            lemma_sum_values_push(s.take(i as int).filter(pp), s[i as int]);
            lemma_sum_values_push(s.take(i as int).filter(pq), s[i as int]);
        }
        let b = &items[i];
        if f.check(b, Some(h)) {
            if b.is_claimable(h) {
                match claimable.checked_add(b.value) {
                    Some(v) => claimable = v,
                    None => {
                        proof {
                            lemma_prefix_sum_le(s, i + 1, pq);
                        }
                        return Err(ViewError::AmountOverflow);
                    },
                }
            } else {
                match pending.checked_add(b.value) {
                    Some(v) => pending = v,
                    None => {
                        proof {
                            lemma_prefix_sum_le(s, i + 1, pp);
                        }
                        return Err(ViewError::AmountOverflow);
                    },
                }
            }
        }
        i = i + 1;
    }
    assert(s.take(s.len() as int) =~= s);
    Ok(Amounts { pending, claimable })
}

/// Pending and claimable split what the filter selects into two disjoint parts
/// that together hold all of its value.
pub proof fn lemma_amounts_partition(s: Seq<ChildBounty>, f: Filter, h: u64)
    ensures
        sum_values(selected_pending(s, f, h)) + sum_values(selected_claimable(s, f, h))
            == sum_values(selected(s, f, Some(h))),
        selected_pending(s, f, h).len() + selected_claimable(s, f, h).len() == selected(
            s,
            f,
            Some(h),
        ).len(),
    decreases s.len(),
{
    reveal(Seq::filter);
    if s.len() > 0 {
        let t = s.drop_last();
        lemma_amounts_partition(t, f, h);
        lemma_sum_values_push(t.filter(selects_pending(f, h)), s.last());
        lemma_sum_values_push(t.filter(selects_claimable(f, h)), s.last());
        lemma_sum_values_push(t.filter(selects(f, Some(h))), s.last());
    }
}

} // verus!
