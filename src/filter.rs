use vstd::prelude::*;
use crate::bounty::ChildBounty;

verus! {

/// The category of bounties that the panel lists; exactly one is active.
#[derive(Clone, Copy, Debug, PartialEq, Eq, Structural)]
pub enum Filter {
    All,
    Following,
    Claimable,
    Pending,
}

/// A category of the selector, and whether it is the active one.
#[derive(Clone, Copy, Debug, PartialEq, Eq, Structural)]
pub struct FilterOption {
    pub filter: Filter,
    pub selected: bool,
}

/// The categories in the order the selector shows them.
pub open spec fn filter_order() -> Seq<Filter> {
    seq![Filter::All, Filter::Following, Filter::Claimable, Filter::Pending]
}

impl Filter {
    /// The canonical name of the category.
    pub open spec fn label(self) -> Seq<char> {
        match self {
            Filter::All => "All"@,
            Filter::Following => "Following"@,
            Filter::Claimable => "Claimable"@,
            Filter::Pending => "Pending"@,
        }
    }

    /// Whether `b` belongs to the category, given the finalized block if one is
    /// known. Without a finalized block no bounty counts as claimable.
    pub open spec fn matches(self, b: ChildBounty, finalized: Option<u64>) -> bool {
        match self {
            Filter::All => true,
            Filter::Following => b.followed,
            Filter::Claimable => finalized is Some && b.claimable_at(finalized->0 as int),
            Filter::Pending => !(finalized is Some && b.claimable_at(finalized->0 as int)),
        }
    }

    pub fn check(&self, b: &ChildBounty, finalized: Option<u64>) -> (r: bool)
        ensures
            r == self.matches(*b, finalized),
    {
        let claimable = match finalized {
            Some(h) => b.is_claimable(h),
            None => false,
        };
        match self {
            Filter::All => true,
            Filter::Following => b.followed,
            Filter::Claimable => claimable,
            Filter::Pending => !claimable,
        }
    }

    pub fn is_following(&self) -> (r: bool)
        ensures
            r == (*self == Filter::Following),
    {
        match self {
            Filter::Following => true,
            _ => false,
        }
    }

    pub fn is_claimable(&self) -> (r: bool)
        ensures
            r == (*self == Filter::Claimable),
    {
        match self {
            Filter::Claimable => true,
            _ => false,
        }
    }

    pub fn name(&self) -> (r: &'static str)
        ensures
            r@ == self.label(),
    {
        match self {
            Filter::All => "All",
            Filter::Following => "Following",
            Filter::Claimable => "Claimable",
            Filter::Pending => "Pending",
        }
    }

    /// Whether two filters are the same selection: their canonical names agree.
    pub fn same_selection(&self, other: &Filter) -> (r: bool)
        ensures
            r == (self.label() == other.label()),
    {
        proof {
            lemma_label_injective(*self, *other);
        }
        *self == *other
    }

    /// Every category, in selector order.
    pub fn all() -> (r: Vec<Filter>)
        ensures
            r@ == filter_order(),
    {
        let r = vec![Filter::All, Filter::Following, Filter::Claimable, Filter::Pending];
        assert(r@ =~= filter_order());
        r
    }
}

/// Distinct categories have distinct canonical names.
pub proof fn lemma_label_injective(a: Filter, b: Filter)
    ensures
        (a.label() == b.label()) == (a == b),
{
    reveal_strlit("All");
    reveal_strlit("Following");
    reveal_strlit("Claimable");
    reveal_strlit("Pending");
    if a != b {
        if a.label().len() == b.label().len() {
            assert(a.label()[0] != b.label()[0]);
        }
    }
}

/// Selection is decided by name alone: any filter is the same selection as
/// itself, and two filters built apart are the same selection exactly when
/// they are the same category.
pub proof fn lemma_same_selection_by_name(a: Filter, b: Filter)
    ensures
        a.label() == a.label(),
        (a.label() == b.label()) <==> a == b,
        (a.label() == b.label()) <==> (b.label() == a.label()),
{
    lemma_label_injective(a, b);
}

/// The selector's entries: every category in order, the active one marked.
pub fn filter_options(active: &Filter) -> (r: Vec<FilterOption>)
    ensures
        r@.len() == filter_order().len(),
        forall|i: int|
            0 <= i < r@.len() ==> (#[trigger] r@[i]).filter == filter_order()[i] && r@[i].selected
                == (filter_order()[i].label() == active.label()),
{
    let all = Filter::all();
    let mut r: Vec<FilterOption> = Vec::new();
    let mut i: usize = 0;
    while i < all.len()
        invariant
            all@ == filter_order(),
            0 <= i <= all@.len(),
            r@.len() == i,
            forall|k: int|
                0 <= k < i ==> (#[trigger] r@[k]).filter == filter_order()[k] && r@[k].selected
                    == (filter_order()[k].label() == active.label()),
        decreases all@.len() - i,
    {
        let f = all[i];
        let selected = active.same_selection(&f);
        r.push(FilterOption { filter: f, selected });
        i = i + 1;
    }
    r
}

} // verus!
