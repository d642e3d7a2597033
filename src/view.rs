use vstd::prelude::*;
use crate::aggregate::{
    amounts, selected, selected_claimable, selected_pending, sum_values, total_count, ViewError,
};
use crate::bounty::{BountyCollection, ChildBounty};
use crate::filter::Filter;
use crate::search::{is_infix, lower_of, matches_search};

verus! {

/// Phase of the network collaborator that supplies the bounties.
#[derive(Clone, Copy, Debug, PartialEq, Eq, Structural)]
pub enum NetworkStatus {
    Initializing,
    Fetching,
    Settled,
}

/// What the panel reads of the network: its phase and the finalized block.
#[derive(Clone, Copy, Debug, PartialEq, Eq, Structural)]
pub struct NetworkState {
    pub status: NetworkStatus,
    pub finalized_block_number: Option<u64>,
}

/// The heading of the panel.
#[derive(Clone, Copy, Debug, PartialEq, Eq, Structural)]
pub struct Title {
    /// Number of bounties the active filter selects; search is not applied.
    pub count: usize,
    /// A refresh is running in the background.
    pub show_spinner: bool,
    /// The claim affordance, offered on the followed bounties.
    pub show_claim_button: bool,
}

/// The totals block; `total_pending` is left out under the claimable filter.
#[derive(Clone, Copy, Debug, PartialEq, Eq, Structural)]
pub struct Stats {
    pub total_pending: Option<u128>,
    pub total_claimable: u128,
}

/// The list area of the panel.
#[derive(Clone, Debug, PartialEq, Eq)]
pub enum Body {
    /// Identifiers of the bounties to list, in collection order.
    Items(Vec<u32>),
    /// Nothing matches yet, but a fetch is still running.
    Searching,
    /// Nothing matches.
    NoMatches,
}

/// The panel once a collection has been received.
#[derive(Clone, Debug, PartialEq, Eq)]
pub struct Populated {
    pub title: Title,
    pub stats: Option<Stats>,
    pub show_search_input: bool,
    pub item_actions_hidden: bool,
    pub body: Body,
}

/// Everything the presentation layer needs to draw the panel.
#[derive(Clone, Debug, PartialEq, Eq)]
pub enum ViewState {
    /// No collection yet and the network is busy getting one.
    Loading(NetworkStatus),
    Populated(Populated),
    /// No collection and nothing under way.
    Empty,
}

pub open spec fn shows(f: Filter, finalized: Option<u64>, query: Seq<char>) -> spec_fn(
    ChildBounty,
) -> bool {
    |b: ChildBounty| f.matches(b, finalized) && is_infix(query, lower_of(b.description@))
}

/// The bounties listed: selected by the filter and matching the folded query.
pub open spec fn shown(
    s: Seq<ChildBounty>,
    f: Filter,
    finalized: Option<u64>,
    query: Seq<char>,
) -> Seq<ChildBounty> {
    s.filter(shows(f, finalized, query))
}

pub open spec fn ids_of(s: Seq<ChildBounty>) -> Seq<u32> {
    s.map_values(|b: ChildBounty| b.id)
}

/// At block `h` the pending or the claimable total does not fit in 128 bits.
pub open spec fn totals_overflow(s: Seq<ChildBounty>, f: Filter, h: u64) -> bool {
    sum_values(selected_pending(s, f, h)) > u128::MAX || sum_values(selected_claimable(s, f, h))
        > u128::MAX
}

/// The stats block for a collection, given the finalized block if known.
pub open spec fn stats_of(s: Seq<ChildBounty>, f: Filter, finalized: Option<u64>) -> Option<Stats> {
    match finalized {
        None => None,
        Some(h) => Some(
            Stats {
                total_pending: if f == Filter::Claimable {
                    None
                } else {
                    Some(sum_values(selected_pending(s, f, h)) as u128)
                },
                total_claimable: sum_values(selected_claimable(s, f, h)) as u128,
            },
        ),
    }
}

/// The populated panel for collection `s`, filter `f` and folded query `query`.
pub open spec fn is_populated_view(
    p: Populated,
    net: NetworkState,
    s: Seq<ChildBounty>,
    f: Filter,
    query: Seq<char>,
    onboarding: bool,
) -> bool {
    let fin = net.finalized_block_number;
    let listed = shown(s, f, fin, query);
    &&& p.title == (Title {
        count: selected(s, f, fin).len() as usize,
        show_spinner: net.status == NetworkStatus::Fetching,
        show_claim_button: f == Filter::Following,
    })
    &&& p.stats == stats_of(s, f, fin)
    &&& p.show_search_input == onboarding
    &&& p.item_actions_hidden == !onboarding
    &&& if listed.len() > 0 {
        p.body matches Body::Items(ids) && ids@ == ids_of(listed)
    } else if net.status == NetworkStatus::Fetching {
        p.body == Body::Searching
    } else {
        p.body == Body::NoMatches
    }
}

/// The count in the title follows the filter alone: panels built for the same
/// network, collection and filter under any two search texts show the same
/// count, the number of bounties that the filter selects.
pub proof fn lemma_count_ignores_search(
    p1: Populated,
    p2: Populated,
    net: NetworkState,
    s: Seq<ChildBounty>,
    f: Filter,
    q1: Seq<char>,
    q2: Seq<char>,
    onboarding1: bool,
    onboarding2: bool,
)
    requires
        s.len() <= usize::MAX,
        is_populated_view(p1, net, s, f, q1, onboarding1),
        is_populated_view(p2, net, s, f, q2, onboarding2),
    ensures
        p1.title.count == p2.title.count,
        p1.title.count == selected(s, f, net.finalized_block_number).len(),
{
    s.lemma_filter_len(crate::aggregate::selects(f, net.finalized_block_number));
}

/// Identifiers of the bounties that the filter selects and whose description
/// contains `search`, ignoring case, in collection order.
pub fn visible_ids(c: &BountyCollection, f: &Filter, finalized: Option<u64>, search: &str) -> (r:
    Vec<u32>)
    ensures
        r@ == ids_of(shown(c@, *f, finalized, lower_of(search@))),
{
    let items = c.bounties();
    let ghost s = c@;
    let ghost pred = shows(*f, finalized, lower_of(search@));
    let mut r: Vec<u32> = Vec::new();
    let mut i: usize = 0;
    while i < items.len()
        invariant
            items@ == s,
            s == c@,
            pred == shows(*f, finalized, lower_of(search@)),
            0 <= i <= s.len(),
            r@ == ids_of(s.take(i as int).filter(pred)),
        decreases s.len() - i,
    {
        proof {
            reveal(Seq::filter);
            assert(s.take(i + 1).drop_last() =~= s.take(i as int));
        }
        let b = &items[i];
        if f.check(b, finalized) && matches_search(b.description.as_str(), search) {
            proof {
                let t = s.take(i as int).filter(pred);
                assert(ids_of(t.push(s[i as int])) =~= ids_of(t).push(s[i as int].id));
            }
            r.push(b.id);
        }
        i = i + 1;
    }
    assert(s.take(s.len() as int) =~= s);
    r
}

/// The panel for the current inputs. Counts and totals follow the filter only;
/// the list follows the filter and the search text.
pub fn assemble_view_state(
    net: &NetworkState,
    collection: Option<&BountyCollection>,
    filter: &Filter,
    search: &str,
    onboarding: bool,
) -> (r: Result<ViewState, ViewError>)
    ensures
        collection is None && net.status != NetworkStatus::Settled ==> r == Ok::<
            ViewState,
            ViewError,
        >(ViewState::Loading(net.status)),
        collection is None && net.status == NetworkStatus::Settled ==> r == Ok::<
            ViewState,
            ViewError,
        >(ViewState::Empty),
        collection matches Some(c) ==> {
            let fin = net.finalized_block_number;
            if fin matches Some(h) && totals_overflow(c@, *filter, h) {
                r == Err::<ViewState, ViewError>(ViewError::AmountOverflow)
            } else {
                r matches Ok(ViewState::Populated(p)) && is_populated_view(
                    p,
                    *net,
                    c@,
                    *filter,
                    lower_of(search@),
                    onboarding,
                )
            }
        },
        net.finalized_block_number is None ==> !(r matches Ok(ViewState::Populated(p))
            && p.stats is Some),
{
    let c = match collection {
        None => {
            return match net.status {
                NetworkStatus::Settled => Ok(ViewState::Empty),
                status => Ok(ViewState::Loading(status)),
            };
        },
        Some(c) => c,
    };
    let fin = net.finalized_block_number;
    let fetching = match net.status {
        NetworkStatus::Fetching => true,
        _ => false,
    };
    let count = total_count(c, filter, fin);
    let stats = match fin {
        None => None,
        Some(_) => match amounts(c, filter, fin) {
            Ok(a) => Some(
                Stats {
                    total_pending: if filter.is_claimable() {
                        None
                    } else {
                        Some(a.pending)
                    },
                    total_claimable: a.claimable,
                },
            ),
            Err(e) => {
                return Err(e);
            },
        },
    };
    let ids = visible_ids(c, filter, fin, search);
    let body = if ids.len() > 0 {
        Body::Items(ids)
    } else if fetching {
        Body::Searching
    } else {
        Body::NoMatches
    };
    let title = Title { count, show_spinner: fetching, show_claim_button: filter.is_following() };
    Ok(
        ViewState::Populated(
            Populated {
                title,
                stats,
                show_search_input: onboarding,
                item_actions_hidden: !onboarding,
                body,
            },
        ),
    )
}

} // verus!
