use vstd::prelude::*;

verus! {

/// A child bounty as observed on chain: a sub-grant of a parent bounty.
#[derive(Clone, Debug)]
pub struct ChildBounty {
    /// Unique identifier of the child bounty.
    pub id: u32,
    /// Amount in the chain's smallest unit.
    pub value: u128,
    /// Free-text description.
    pub description: String,
    /// First finalized block at which the bounty can be claimed.
    pub unlock_at: u64,
    /// Whether the beneficiary is one of the watched accounts.
    pub followed: bool,
}

impl ChildBounty {
    /// The bounty is claimable once the chain has finalized its unlock block.
    pub open spec fn claimable_at(&self, finalized_block: int) -> bool {
        self.unlock_at <= finalized_block
    }

    pub fn is_claimable(&self, finalized_block: u64) -> (r: bool)
        ensures
            r == self.claimable_at(finalized_block as int),
    {
        self.unlock_at <= finalized_block
    }
}

/// Once claimable, a bounty stays claimable at every later finalized block.
pub proof fn lemma_claimable_monotonic(b: ChildBounty, h: int, later: int)
    requires
        b.claimable_at(h),
        h <= later,
    ensures
        b.claimable_at(later),
{
}

/// No two bounties of the sequence share an identifier.
pub open spec fn ids_unique(s: Seq<ChildBounty>) -> bool {
    forall|i: int, j: int|
        0 <= i < s.len() && 0 <= j < s.len() && i != j ==> #[trigger] s[i].id != #[trigger] s[j].id
}

/// The sequence holds a bounty with identifier `id`.
pub open spec fn has_id(s: Seq<ChildBounty>, id: u32) -> bool {
    exists|j: int| 0 <= j < s.len() && #[trigger] s[j].id == id
}

/// The bounties tracked for the watched accounts, keyed by identifier.
pub struct BountyCollection {
    items: Vec<ChildBounty>,
}

impl View for BountyCollection {
    type V = Seq<ChildBounty>;

    closed spec fn view(&self) -> Seq<ChildBounty> {
        self.items@
    }
}

impl BountyCollection {
    pub open spec fn wf(&self) -> bool {
        ids_unique(self@)
    }

    pub fn new() -> (r: BountyCollection)
        ensures
            r.wf(),
            r@ == Seq::<ChildBounty>::empty(),
    {
        BountyCollection { items: Vec::new() }
    }

    /// Adds a bounty; one with the same identifier is replaced in place.
    pub fn insert(&mut self, b: ChildBounty)
        requires
            old(self).wf(),
        ensures
            final(self).wf(),
            has_id(old(self)@, b.id) ==> exists|j: int|
                0 <= j < old(self)@.len() && old(self)@[j].id == b.id && final(self)@ == old(
                    self,
                )@.update(j, b),
            !has_id(old(self)@, b.id) ==> final(self)@ == old(self)@.push(b),
    {
        let mut i: usize = 0;
        while i < self.items.len()
            invariant
                0 <= i <= self.items@.len(),
                self@ == old(self)@,
                ids_unique(old(self)@),
                forall|k: int| 0 <= k < i ==> #[trigger] self.items@[k].id != b.id,
            decreases self.items@.len() - i,
        {
            if self.items[i].id == b.id {
                let ghost j = i as int;
                self.items.set(i, b);
                assert(self@ == old(self)@.update(j, b));
                return ;
            }
            i = i + 1;
        }
        self.items.push(b);
        assert(!has_id(old(self)@, b.id));
    }

    pub fn len(&self) -> (r: usize)
        ensures
            r == self@.len(),
    {
        self.items.len()
    }

    pub fn bounties(&self) -> (r: &Vec<ChildBounty>)
        ensures
            r@ == self@,
    {
        &self.items
    }
}

} // verus!
