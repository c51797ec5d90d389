use std::collections::HashMap;

use imap_client::fetch::{
    chunk_ids, contains_name, expand_items, fetch_item_names, listing_item_names, message_uid,
    order_by_ids, push_missing, uid_map, FetchItem, FetchItemName, Macro, MacroOrFetchItemNames,
    MAX_SEQUENCE_SIZE,
};

use FetchItemName::{Body, Envelope, Flags, InternalDate, Other, Rfc822Size, Uid};

#[test]
fn macros_expand() {
    assert_eq!(Macro::Fast.expand(), vec![Flags, InternalDate, Rfc822Size]);
    assert_eq!(Macro::All.expand(), vec![Flags, InternalDate, Rfc822Size, Envelope]);
    assert_eq!(Macro::Full.expand(), vec![Flags, InternalDate, Rfc822Size, Envelope, Body]);
    assert_eq!(
        expand_items(MacroOrFetchItemNames::FetchItemNames(vec![Uid, Other(3)])),
        vec![Uid, Other(3)]
    );
}

#[test]
fn uid_fetch_appends_uid() {
    assert_eq!(
        fetch_item_names(MacroOrFetchItemNames::Macro(Macro::Fast), true),
        vec![Flags, InternalDate, Rfc822Size, Uid]
    );
    assert_eq!(
        fetch_item_names(MacroOrFetchItemNames::FetchItemNames(vec![Uid]), true),
        vec![Uid, Uid]
    );
    assert_eq!(
        fetch_item_names(MacroOrFetchItemNames::FetchItemNames(vec![Envelope]), false),
        vec![Envelope]
    );
}

#[test]
fn listing_adds_uid_once() {
    assert_eq!(
        listing_item_names(MacroOrFetchItemNames::FetchItemNames(vec![Uid, Envelope]), true),
        vec![Uid, Envelope]
    );
    assert_eq!(
        listing_item_names(MacroOrFetchItemNames::Macro(Macro::All), true),
        vec![Flags, InternalDate, Rfc822Size, Envelope, Uid]
    );
    assert_eq!(
        listing_item_names(MacroOrFetchItemNames::Macro(Macro::Fast), false),
        vec![Flags, InternalDate, Rfc822Size]
    );
}

#[test]
fn names_membership() {
    let mut v = vec![Flags];
    assert!(contains_name(&v, Flags));
    assert!(!contains_name(&v, Uid));
    push_missing(&mut v, Flags);
    push_missing(&mut v, Uid);
    assert_eq!(v, vec![Flags, Uid]);
}

#[test]
fn uid_is_the_first_uid_item() {
    let items = vec![FetchItem::Rfc822Size(3), FetchItem::Uid(9), FetchItem::Uid(4)];
    assert_eq!(message_uid(&items), Some(9));
    assert_eq!(message_uid(&vec![FetchItem::Other]), None);
    assert_eq!(message_uid(&vec![]), None);
}

#[test]
fn messages_regrouped_by_uid() {
    let entries = vec![
        (vec![FetchItem::Uid(10)], "first"),
        (vec![FetchItem::Other], "no uid"),
        (vec![FetchItem::Other, FetchItem::Uid(20)], "second"),
        (vec![FetchItem::Uid(10)], "again"),
    ];
    let m = uid_map(entries);
    assert_eq!(m.len(), 2);
    assert_eq!(m.get(&10), Some(&"again"));
    assert_eq!(m.get(&20), Some(&"second"));
}

#[test]
fn ids_are_chunked_by_255() {
    assert_eq!(MAX_SEQUENCE_SIZE, 255);
    assert!(chunk_ids(&vec![]).is_empty());
    let ids: Vec<u32> = (1..=255).collect();
    assert_eq!(chunk_ids(&ids), vec![ids.clone()]);
    let ids: Vec<u32> = (1..=600).collect();
    let chunks = chunk_ids(&ids);
    assert_eq!(chunks.len(), 3);
    assert_eq!(chunks[0], (1..=255).collect::<Vec<u32>>());
    assert_eq!(chunks[1], (256..=510).collect::<Vec<u32>>());
    assert_eq!(chunks[2], (511..=600).collect::<Vec<u32>>());
    assert_eq!(chunks.concat(), ids);
    let ids: Vec<u32> = (1..=256).collect();
    assert_eq!(chunk_ids(&ids).iter().map(|c| c.len()).collect::<Vec<_>>(), vec![255, 1]);
}

#[test]
fn fetched_messages_follow_the_sorted_ids() {
    let mut fetched = HashMap::new();
    fetched.insert(1u32, "a");
    fetched.insert(2u32, "b");
    fetched.insert(3u32, "c");
    assert_eq!(order_by_ids(&vec![3, 1, 2], fetched.clone()), vec!["c", "a", "b"]);
    assert_eq!(order_by_ids(&vec![2, 9, 2, 1], fetched), vec!["b", "a"]);
}
