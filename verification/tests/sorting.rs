use std::cmp::Ordering;

use imap_client::fetch::{FetchItem, FetchItemName};
use imap_client::sort::{
    cmp_fetch_items, compare_by, compare_bytes, fallback_item_names, or_single, reverse_ordering,
    sort_criteria_or_default, sort_fetched, SortCriterion, SortKey,
};

fn msg(secs: i64, date: Option<&str>, subject: Option<&str>, size: Option<u32>) -> Vec<FetchItem> {
    let mut v = vec![
        FetchItem::InternalDate { secs, nanos: 0 },
        FetchItem::Envelope {
            date: date.map(|d| d.as_bytes().to_vec()),
            subject: subject.map(|s| s.as_bytes().to_vec()),
        },
    ];
    if let Some(n) = size {
        v.push(FetchItem::Rfc822Size(n));
    }
    v
}

#[test]
fn bytes_compare_lexicographically() {
    assert_eq!(compare_bytes(&b"abc".to_vec(), &b"abd".to_vec()), Ordering::Less);
    assert_eq!(compare_bytes(&b"ab".to_vec(), &b"abc".to_vec()), Ordering::Less);
    assert_eq!(compare_bytes(&b"b".to_vec(), &b"abc".to_vec()), Ordering::Greater);
    assert_eq!(compare_bytes(&b"".to_vec(), &b"".to_vec()), Ordering::Equal);
    assert_eq!(reverse_ordering(Ordering::Less), Ordering::Greater);
    assert_eq!(reverse_ordering(Ordering::Equal), Ordering::Equal);
}

#[test]
fn compare_on_each_key() {
    let a = msg(10, Some("2024"), Some("alpha"), Some(100));
    let b = msg(20, Some("2023"), Some("beta"), None);
    assert_eq!(cmp_fetch_items(&SortKey::Arrival, &a, &b), Ordering::Less);
    assert_eq!(cmp_fetch_items(&SortKey::Date, &a, &b), Ordering::Greater);
    assert_eq!(cmp_fetch_items(&SortKey::Subject, &a, &b), Ordering::Less);
    // a message without a size comes first
    assert_eq!(cmp_fetch_items(&SortKey::Size, &a, &b), Ordering::Greater);
    assert_eq!(cmp_fetch_items(&SortKey::Cc, &a, &b), Ordering::Equal);
    assert_eq!(cmp_fetch_items(&SortKey::From, &a, &b), Ordering::Equal);
    assert_eq!(cmp_fetch_items(&SortKey::DisplayTo, &a, &b), Ordering::Equal);
}

#[test]
fn arrival_compares_nanoseconds_too() {
    let a = vec![FetchItem::InternalDate { secs: 5, nanos: 1 }];
    let b = vec![FetchItem::InternalDate { secs: 5, nanos: 2 }];
    assert_eq!(cmp_fetch_items(&SortKey::Arrival, &a, &b), Ordering::Less);
    assert_eq!(cmp_fetch_items(&SortKey::Arrival, &vec![], &b), Ordering::Less);
}

#[test]
fn date_skips_envelopes_without_date() {
    let a = vec![
        FetchItem::Envelope { date: None, subject: None },
        FetchItem::Envelope { date: Some(b"b".to_vec()), subject: None },
    ];
    let b = vec![FetchItem::Envelope { date: Some(b"a".to_vec()), subject: None }];
    assert_eq!(cmp_fetch_items(&SortKey::Date, &a, &b), Ordering::Greater);
}

#[test]
fn criteria_apply_in_turn_then_date() {
    let a = msg(1, Some("2"), Some("same"), None);
    let b = msg(2, Some("1"), Some("same"), None);
    let by_subject = vec![SortCriterion { reverse: false, key: SortKey::Subject }];
    // equal subjects: the date decides
    assert_eq!(compare_by(&by_subject, &a, &b), Ordering::Greater);
    let by_arrival_desc = vec![SortCriterion { reverse: true, key: SortKey::Arrival }];
    assert_eq!(compare_by(&by_arrival_desc, &a, &b), Ordering::Greater);
    assert_eq!(compare_by(&vec![], &a, &a), Ordering::Equal);
}

#[test]
fn client_side_sort() {
    let fetched = vec![
        (msg(3, Some("c"), None, Some(30)), 'c'),
        (msg(1, Some("a"), None, Some(10)), 'a'),
        (msg(2, Some("b"), None, Some(20)), 'b'),
    ];
    let asc = vec![SortCriterion { reverse: false, key: SortKey::Size }];
    let r: Vec<char> = sort_fetched(fetched.clone(), &asc).into_iter().map(|(_, v)| v).collect();
    assert_eq!(r, vec!['a', 'b', 'c']);
    let desc = vec![SortCriterion { reverse: true, key: SortKey::Arrival }];
    let r: Vec<char> = sort_fetched(fetched.clone(), &desc).into_iter().map(|(_, v)| v).collect();
    assert_eq!(r, vec!['c', 'b', 'a']);
    let none: Vec<(Vec<FetchItem>, char)> = sort_fetched(vec![], &asc);
    assert!(none.is_empty());
}

#[test]
fn default_sort_criteria() {
    assert_eq!(
        sort_criteria_or_default(vec![]),
        vec![SortCriterion { reverse: true, key: SortKey::Date }]
    );
    let c = vec![SortCriterion { reverse: false, key: SortKey::Size }];
    assert_eq!(sort_criteria_or_default(c.clone()), c);
    assert_eq!(or_single(Vec::<u8>::new(), 7), vec![7]);
    assert_eq!(or_single(vec![1, 2], 7), vec![1, 2]);
}

#[test]
fn fallback_fetches_what_criteria_need() {
    let criteria = vec![
        SortCriterion { reverse: false, key: SortKey::Arrival },
        SortCriterion { reverse: false, key: SortKey::From },
        SortCriterion { reverse: false, key: SortKey::Date },
        SortCriterion { reverse: false, key: SortKey::DisplayTo },
        SortCriterion { reverse: true, key: SortKey::Size },
    ];
    assert_eq!(
        fallback_item_names(vec![FetchItemName::Uid, FetchItemName::Envelope], &criteria),
        vec![FetchItemName::Uid, FetchItemName::Envelope, FetchItemName::InternalDate, FetchItemName::Rfc822Size]
    );
    assert_eq!(fallback_item_names(vec![FetchItemName::Flags], &vec![]), vec![FetchItemName::Flags]);
}

#[test]
fn comparing_is_a_total_preorder_on_samples() {
    let msgs = vec![
        msg(1, Some("b"), Some("x"), Some(5)),
        msg(2, Some("a"), Some("x"), Some(5)),
        msg(2, None, None, None),
        msg(3, Some("a"), Some("y"), Some(1)),
    ];
    let criteria = vec![
        SortCriterion { reverse: true, key: SortKey::Size },
        SortCriterion { reverse: false, key: SortKey::Subject },
    ];
    for a in &msgs {
        assert_eq!(compare_by(&criteria, a, a), Ordering::Equal);
        for b in &msgs {
            assert_eq!(compare_by(&criteria, a, b), reverse_ordering(compare_by(&criteria, b, a)));
            for c in &msgs {
                if compare_by(&criteria, a, b) != Ordering::Greater
                    && compare_by(&criteria, b, c) != Ordering::Greater
                {
                    assert_ne!(compare_by(&criteria, a, c), Ordering::Greater);
                }
            }
        }
    }
}
