use imap_client::capability::Capability;
use imap_client::client::Client;
use imap_client::fetch::{FetchItem, FetchItemName, Macro, MacroOrFetchItemNames};
use imap_client::listing::{ListingAction, SortListing};
use imap_client::sort::{SortCriterion, SortKey};

fn size_msg(uid: u32, size: u32) -> (u32, (Vec<FetchItem>, u32)) {
    (uid, (vec![FetchItem::Uid(uid), FetchItem::Rfc822Size(size)], uid))
}

#[test]
fn server_sorted_listing_follows_the_server_order() {
    let mut client = Client::new();
    client.adopt_capabilities(Some(vec![Capability::Imap4Rev1, Capability::Sort]));
    let criteria = vec![SortCriterion { reverse: false, key: SortKey::Size }];
    let mut l: SortListing<u32> =
        SortListing::new(&client, criteria.clone(), MacroOrFetchItemNames::Macro(Macro::Fast), true);
    assert_eq!(
        l.items(),
        &vec![FetchItemName::Flags, FetchItemName::InternalDate, FetchItemName::Rfc822Size, FetchItemName::Uid]
    );
    assert!(matches!(l.next_action(), ListingAction::Sort(c) if *c == criteria));
    l.on_ids(vec![3, 1, 2]);
    assert!(matches!(l.next_action(), ListingAction::Fetch(ids) if *ids == vec![3, 1, 2]));
    l.on_fetched(vec![size_msg(1, 10), size_msg(2, 20), size_msg(3, 30)]);
    assert!(matches!(l.next_action(), ListingAction::Finish));
    let r: Vec<u32> = l.finish().into_iter().map(|(_, v)| v).collect();
    assert_eq!(r, vec![3, 1, 2]);
}

#[test]
fn client_sorted_listing_sorts_itself() {
    let client = Client::new();
    let criteria = vec![SortCriterion { reverse: true, key: SortKey::Size }];
    let mut l: SortListing<u32> = SortListing::new(
        &client,
        criteria,
        MacroOrFetchItemNames::FetchItemNames(vec![FetchItemName::Flags]),
        false,
    );
    assert_eq!(l.items(), &vec![FetchItemName::Flags, FetchItemName::Rfc822Size]);
    assert!(matches!(l.next_action(), ListingAction::Search));
    let ids: Vec<u32> = (1..=300).collect();
    l.on_ids(ids);
    match l.next_action() {
        ListingAction::Fetch(group) => assert_eq!(group.len(), 255),
        _ => panic!("expected a fetch"),
    }
    l.on_fetched(vec![size_msg(1, 10), size_msg(2, 50)]);
    match l.next_action() {
        ListingAction::Fetch(group) => assert_eq!(group.len(), 45),
        _ => panic!("expected a fetch"),
    }
    l.on_fetched(vec![size_msg(300, 20)]);
    assert!(matches!(l.next_action(), ListingAction::Finish));
    let r: Vec<u32> = l.finish().into_iter().map(|(_, v)| v).collect();
    assert_eq!(r, vec![2, 300, 1]);
}

#[test]
fn empty_listing_finishes_at_once() {
    let client = Client::new();
    let mut l: SortListing<u32> =
        SortListing::new(&client, vec![], MacroOrFetchItemNames::Macro(Macro::All), false);
    l.on_ids(vec![]);
    assert!(matches!(l.next_action(), ListingAction::Finish));
    assert!(l.finish().is_empty());
}
