use child_bounties::bounty::{BountyCollection, ChildBounty};
use child_bounties::filter::Filter;
use child_bounties::view::{
    assemble_view_state, visible_ids, Body, NetworkState, NetworkStatus, Populated, Stats, Title,
    ViewState,
};
use child_bounties::aggregate::ViewError;

fn bounty(id: u32, value: u128, unlock_at: u64, followed: bool, description: &str) -> ChildBounty {
    ChildBounty { id, value, description: description.to_string(), unlock_at, followed }
}

fn scenario() -> BountyCollection {
    let mut c = BountyCollection::new();
    c.insert(bounty(1, 100, 50, true, "Open Grant"));
    c.insert(bounty(2, 200, 200, false, "Tooling work"));
    c
}

fn net(status: NetworkStatus, finalized: Option<u64>) -> NetworkState {
    NetworkState { status, finalized_block_number: finalized }
}

fn populated(v: Result<ViewState, ViewError>) -> Populated {
    match v {
        Ok(ViewState::Populated(p)) => p,
        other => panic!("expected a populated view, got {:?}", other),
    }
}

#[test]
fn scenario_all_filter() {
    let c = scenario();
    let p = populated(assemble_view_state(
        &net(NetworkStatus::Settled, Some(100)),
        Some(&c),
        &Filter::All,
        "",
        true,
    ));
    assert_eq!(p.title, Title { count: 2, show_spinner: false, show_claim_button: false });
    assert_eq!(p.stats, Some(Stats { total_pending: Some(200), total_claimable: 100 }));
    assert_eq!(p.body, Body::Items(vec![1, 2]));
    assert!(p.show_search_input);
    assert!(!p.item_actions_hidden);
}

#[test]
fn scenario_claimable_filter_hides_pending() {
    let c = scenario();
    let p = populated(assemble_view_state(
        &net(NetworkStatus::Settled, Some(100)),
        Some(&c),
        &Filter::Claimable,
        "",
        false,
    ));
    assert_eq!(p.title.count, 1);
    assert_eq!(p.stats, Some(Stats { total_pending: None, total_claimable: 100 }));
    assert_eq!(p.body, Body::Items(vec![1]));
    assert!(!p.show_search_input);
    assert!(p.item_actions_hidden);
}

#[test]
fn scenario_loading_without_collection() {
    assert_eq!(
        assemble_view_state(&net(NetworkStatus::Fetching, None), None, &Filter::All, "", true),
        Ok(ViewState::Loading(NetworkStatus::Fetching))
    );
    assert_eq!(
        assemble_view_state(&net(NetworkStatus::Initializing, Some(3)), None, &Filter::All, "", true),
        Ok(ViewState::Loading(NetworkStatus::Initializing))
    );
}

#[test]
fn settled_without_collection_is_empty() {
    assert_eq!(
        assemble_view_state(&net(NetworkStatus::Settled, Some(3)), None, &Filter::All, "", true),
        Ok(ViewState::Empty)
    );
}

#[test]
fn scenario_searching_while_fetching() {
    let c = scenario();
    let p = populated(assemble_view_state(
        &net(NetworkStatus::Fetching, Some(100)),
        Some(&c),
        &Filter::All,
        "zzz",
        true,
    ));
    assert_eq!(p.body, Body::Searching);
    assert_eq!(p.title.count, 2);
    assert!(p.title.show_spinner);
}

#[test]
fn no_matches_when_settled() {
    let c = scenario();
    let p = populated(assemble_view_state(
        &net(NetworkStatus::Settled, Some(100)),
        Some(&c),
        &Filter::All,
        "zzz",
        true,
    ));
    assert_eq!(p.body, Body::NoMatches);
}

#[test]
fn no_stats_without_finality() {
    let c = scenario();
    for f in Filter::all() {
        let p = populated(assemble_view_state(
            &net(NetworkStatus::Settled, None),
            Some(&c),
            &f,
            "",
            true,
        ));
        assert_eq!(p.stats, None);
    }
}

#[test]
fn count_ignores_search_list_follows_it() {
    let c = scenario();
    let p = populated(assemble_view_state(
        &net(NetworkStatus::Settled, Some(100)),
        Some(&c),
        &Filter::All,
        "TOOL",
        true,
    ));
    assert_eq!(p.title.count, 2);
    assert_eq!(p.body, Body::Items(vec![2]));
}

#[test]
fn following_filter_offers_claim() {
    let c = scenario();
    let p = populated(assemble_view_state(
        &net(NetworkStatus::Settled, Some(10)),
        Some(&c),
        &Filter::Following,
        "",
        true,
    ));
    assert_eq!(p.title, Title { count: 1, show_spinner: false, show_claim_button: true });
    assert_eq!(p.stats, Some(Stats { total_pending: Some(100), total_claimable: 0 }));
}

#[test]
fn overflow_surfaces_from_the_view() {
    let mut c = BountyCollection::new();
    c.insert(bounty(1, u128::MAX, 1, false, "a"));
    c.insert(bounty(2, u128::MAX, 1, false, "b"));
    assert_eq!(
        assemble_view_state(&net(NetworkStatus::Settled, Some(5)), Some(&c), &Filter::All, "", true),
        Err(ViewError::AmountOverflow)
    );
    let p = populated(assemble_view_state(
        &net(NetworkStatus::Settled, None),
        Some(&c),
        &Filter::All,
        "",
        true,
    ));
    assert_eq!(p.title.count, 2);
}

#[test]
fn visible_ids_filter_and_search() {
    let c = scenario();
    assert_eq!(visible_ids(&c, &Filter::All, Some(100), "o"), vec![1, 2]);
    assert_eq!(visible_ids(&c, &Filter::Pending, Some(100), "o"), vec![2]);
    assert_eq!(visible_ids(&c, &Filter::Pending, Some(100), "grant"), Vec::<u32>::new());
}
