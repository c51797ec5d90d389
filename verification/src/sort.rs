//! SORT criteria, and the client-side sorting used when the server lacks
//! the SORT extension.
use vstd::prelude::*;
use std::cmp::Ordering;

use crate::fetch::{with_name, push_missing, FetchItem, FetchItemName};
use crate::seqs::{after, at, lemma_after_ends, lemma_after_step};

verus! {

broadcast use vstd::seq_lib::group_to_multiset_ensures;

/// What messages are sorted by.
#[derive(Debug, Clone, Copy, PartialEq, Eq, Structural)]
pub enum SortKey {
    Arrival,
    Cc,
    Date,
    From,
    Size,
    Subject,
    To,
    DisplayFrom,
    DisplayTo,
}

/// A sort key, in ascending or (with `reverse`) descending order.
#[derive(Debug, Clone, Copy, PartialEq, Eq, Structural)]
pub struct SortCriterion {
    pub reverse: bool,
    pub key: SortKey,
}

/// `items`, or `fallback` alone when there are none.
pub fn or_single<T>(items: Vec<T>, fallback: T) -> (r: Vec<T>)
    ensures
        r@ == (if items@.len() == 0 {
            seq![fallback]
        } else {
            items@
        }),
{
    if items.len() == 0 {
        let mut r: Vec<T> = Vec::new();
        r.push(fallback);
        r
    } else {
        items
    }
}

/// The criteria a SORT is sent with: the given ones, or newest first by
/// date when none are given.
pub fn sort_criteria_or_default(criteria: Vec<SortCriterion>) -> (r: Vec<SortCriterion>)
    ensures
        r@ == (if criteria@.len() == 0 {
            seq![SortCriterion { reverse: true, key: SortKey::Date }]
        } else {
            criteria@
        }),
{
    or_single(criteria, SortCriterion { reverse: true, key: SortKey::Date })
}

/// The item a message must be fetched with to be sorted by `key` on the
/// client; none for the keys the client cannot compare on.
pub open spec fn sort_item_name(key: SortKey) -> Option<FetchItemName> {
    match key {
        SortKey::Arrival => Some(FetchItemName::InternalDate),
        SortKey::Cc => Some(FetchItemName::Envelope),
        SortKey::Date => Some(FetchItemName::Envelope),
        SortKey::From => Some(FetchItemName::Envelope),
        SortKey::Size => Some(FetchItemName::Rfc822Size),
        SortKey::Subject => Some(FetchItemName::Envelope),
        SortKey::To => Some(FetchItemName::Envelope),
        SortKey::DisplayFrom => None,
        SortKey::DisplayTo => None,
    }
}

/// `names`, with the item of each criterion in turn added unless present.
pub open spec fn with_sort_names(names: Seq<FetchItemName>, criteria: Seq<SortCriterion>) -> Seq<
    FetchItemName,
>
    decreases criteria.len(),
{
    if criteria.len() == 0 {
        names
    } else {
        let before = with_sort_names(names, criteria.drop_last());
        match sort_item_name(criteria.last().key) {
            Some(n) => with_name(before, n),
            None => before,
        }
    }
}

/// Fetching for a client-side sort asks for everything it was asked for,
/// first and in the same order, and for what every criterion needs.
pub proof fn lemma_with_sort_names_covers(names: Seq<FetchItemName>, criteria: Seq<SortCriterion>)
    ensures
        with_sort_names(names, criteria).take(names.len() as int) == names,
        names.len() <= with_sort_names(names, criteria).len(),
        forall|i: int|
            0 <= i < criteria.len() && sort_item_name(#[trigger] criteria[i].key) is Some
                ==> with_sort_names(names, criteria).contains(sort_item_name(criteria[i].key)->0),
    decreases criteria.len(),
{
    if criteria.len() == 0 {
        assert(names.take(names.len() as int) == names);
    } else {
        let init = criteria.drop_last();
        lemma_with_sort_names_covers(names, init);
        let before = with_sort_names(names, init);
        let after = with_sort_names(names, criteria);
        match sort_item_name(criteria.last().key) {
            Some(n) => {
                if !before.contains(n) {
                    assert(after == before.push(n));
                    assert(after.take(names.len() as int) == before.take(names.len() as int));
                    assert(after[before.len() as int] == n);
                }
            },
            None => {},
        }
        assert forall|i: int|
            0 <= i < criteria.len() && sort_item_name(#[trigger] criteria[i].key) is Some implies after.contains(
            sort_item_name(criteria[i].key)->0,
        ) by {
            if i < init.len() {
                assert(init[i] == criteria[i]);
                let k = choose|k: int| 0 <= k < before.len() && before[k] == sort_item_name(criteria[i].key)->0;
                if !before.contains(sort_item_name(criteria.last().key)->0) && sort_item_name(criteria.last().key) is Some {
                    assert(after[k] == before[k]);
                }
            } else {
                assert(criteria[i] == criteria.last());
                if before.contains(sort_item_name(criteria.last().key)->0) {
                } else {
                    assert(after[before.len() as int] == sort_item_name(criteria.last().key)->0);
                }
            }
        }
    }
}

/// `x` is the item the client compares messages on under `key`:
/// `INTERNALDATE` for arrival, `RFC822.SIZE` for size, the envelope for
/// date, subject and the address keys it fetches.
pub open spec fn fetched_for(key: SortKey, x: FetchItemName) -> bool {
    ||| key == SortKey::Arrival && x == FetchItemName::InternalDate
    ||| key == SortKey::Size && x == FetchItemName::Rfc822Size
    ||| (key == SortKey::Date || key == SortKey::Subject || key == SortKey::Cc || key == SortKey::From
        || key == SortKey::To) && x == FetchItemName::Envelope
}

/// Fetching for a client-side sort asks, for each criterion, for the item
/// the client compares on under its key, and for nothing beyond that and
/// the items asked for.
pub proof fn law_sort_fetch_names(names: Seq<FetchItemName>, criteria: Seq<SortCriterion>)
    ensures
        forall|i: int, x: FetchItemName|
            0 <= i < criteria.len() && #[trigger] fetched_for(criteria[i].key, x)
                ==> with_sort_names(names, criteria).contains(x),
        forall|x: FetchItemName|
            #[trigger] with_sort_names(names, criteria).contains(x) ==> names.contains(x) || exists|i: int|
                0 <= i < criteria.len() && fetched_for(#[trigger] criteria[i].key, x),
    decreases criteria.len(),
{
    lemma_with_sort_names_covers(names, criteria);
    let r = with_sort_names(names, criteria);
    assert forall|i: int, x: FetchItemName|
        0 <= i < criteria.len() && #[trigger] fetched_for(criteria[i].key, x) implies r.contains(x) by {
        assert(sort_item_name(criteria[i].key) == Some(x));
    }
    if criteria.len() > 0 {
        let init = criteria.drop_last();
        law_sort_fetch_names(names, init);
        let before = with_sort_names(names, init);
        assert forall|x: FetchItemName| #[trigger] r.contains(x) implies names.contains(x) || exists|i: int|
            0 <= i < criteria.len() && fetched_for(#[trigger] criteria[i].key, x) by {
            if before.contains(x) {
                if !names.contains(x) {
                    let i = choose|i: int| 0 <= i < init.len() && fetched_for(#[trigger] init[i].key, x);
                    assert(criteria[i] == init[i]);
                }
            } else {
                let k = choose|k: int| 0 <= k < r.len() && r[k] == x;
                let n = sort_item_name(criteria.last().key)->0;
                assert(sort_item_name(criteria.last().key) is Some);
                assert(r == before.push(n));
                assert(x == n) by {
                    if k < before.len() {
                        assert(r[k] == before[k]);
                    }
                }
                assert(fetched_for(criteria[criteria.len() - 1].key, x));
            }
        }
    }
}

/// The items to fetch for sorting on the client: those asked for, and
/// what each criterion needs, each once.
pub fn fallback_item_names(names: Vec<FetchItemName>, criteria: &Vec<SortCriterion>) -> (r: Vec<
    FetchItemName,
>)
    ensures
        r@ == with_sort_names(names@, criteria@),
{
    let mut r = names;
    let ghost start = r@;
    let n = criteria.len();
    let mut i: usize = 0;
    while i < n
        invariant
            n == criteria@.len(),
            i <= n,
            r@ == with_sort_names(start, criteria@.take(i as int)),
        decreases n - i,
    {
        assert(criteria@.take(i + 1).drop_last() == criteria@.take(i as int));
        let item = match criteria[i].key {
            SortKey::Arrival => Some(FetchItemName::InternalDate),
            SortKey::Cc => Some(FetchItemName::Envelope),
            SortKey::Date => Some(FetchItemName::Envelope),
            SortKey::From => Some(FetchItemName::Envelope),
            SortKey::Size => Some(FetchItemName::Rfc822Size),
            SortKey::Subject => Some(FetchItemName::Envelope),
            SortKey::To => Some(FetchItemName::Envelope),
            SortKey::DisplayFrom => None,
            SortKey::DisplayTo => None,
        };
        if let Some(name) = item {
            push_missing(&mut r, name);
        }
        i = i + 1;
    }
    assert(criteria@.take(n as int) == criteria@);
    r
}

/// The opposite order.
pub open spec fn flip(o: Ordering) -> Ordering {
    match o {
        Ordering::Less => Ordering::Greater,
        Ordering::Equal => Ordering::Equal,
        Ordering::Greater => Ordering::Less,
    }
}

/// Reverses an ordering.
pub fn reverse_ordering(o: Ordering) -> (r: Ordering)
    ensures
        r == flip(o),
{
    match o {
        Ordering::Less => Ordering::Greater,
        Ordering::Equal => Ordering::Equal,
        Ordering::Greater => Ordering::Less,
    }
}

/// The order of two unsigned integers.
pub open spec fn order_u32(x: u32, y: u32) -> Ordering {
    if x < y {
        Ordering::Less
    } else if x > y {
        Ordering::Greater
    } else {
        Ordering::Equal
    }
}

/// The order of two signed integers.
pub open spec fn order_i64(x: i64, y: i64) -> Ordering {
    if x < y {
        Ordering::Less
    } else if x > y {
        Ordering::Greater
    } else {
        Ordering::Equal
    }
}

/// The lexicographic order of byte strings: at the first differing byte,
/// or else the shorter first.
pub open spec fn order_bytes(x: Seq<u8>, y: Seq<u8>) -> Ordering
    decreases x.len(),
{
    if x.len() == 0 {
        if y.len() == 0 {
            Ordering::Equal
        } else {
            Ordering::Less
        }
    } else if y.len() == 0 {
        Ordering::Greater
    } else if x[0] < y[0] {
        Ordering::Less
    } else if x[0] > y[0] {
        Ordering::Greater
    } else {
        order_bytes(x.drop_first(), y.drop_first())
    }
}

/// Absent before present; two present byte strings lexicographically.
pub open spec fn order_opt_bytes(x: Option<Seq<u8>>, y: Option<Seq<u8>>) -> Ordering {
    match (x, y) {
        (None, None) => Ordering::Equal,
        (None, Some(_)) => Ordering::Less,
        (Some(_), None) => Ordering::Greater,
        (Some(a), Some(b)) => order_bytes(a, b),
    }
}

/// Absent before present; two present sizes by value.
pub open spec fn order_opt_size(x: Option<u32>, y: Option<u32>) -> Ordering {
    match (x, y) {
        (None, None) => Ordering::Equal,
        (None, Some(_)) => Ordering::Less,
        (Some(_), None) => Ordering::Greater,
        (Some(a), Some(b)) => order_u32(a, b),
    }
}

/// Absent before present; two present instants earlier first.
pub open spec fn order_opt_instant(x: Option<(i64, u32)>, y: Option<(i64, u32)>) -> Ordering {
    match (x, y) {
        (None, None) => Ordering::Equal,
        (None, Some(_)) => Ordering::Less,
        (Some(_), None) => Ordering::Greater,
        (Some(a), Some(b)) => if a.0 != b.0 {
            order_i64(a.0, b.0)
        } else {
            order_u32(a.1, b.1)
        },
    }
}

/// The arrival instant of a message: its first `INTERNALDATE` item.
pub open spec fn first_internal_date(items: Seq<FetchItem>) -> Option<(i64, u32)>
    decreases items.len(),
{
    if items.len() == 0 {
        None
    } else {
        match items[0] {
            FetchItem::InternalDate { secs, nanos } => Some((secs, nanos)),
            _ => first_internal_date(items.drop_first()),
        }
    }
}

/// The date of a message: that of its first `ENVELOPE` item that has one.
pub open spec fn first_envelope_date(items: Seq<FetchItem>) -> Option<Seq<u8>>
    decreases items.len(),
{
    if items.len() == 0 {
        None
    } else {
        match items[0] {
            FetchItem::Envelope { date: Some(d), subject: _ } => Some(d@),
            _ => first_envelope_date(items.drop_first()),
        }
    }
}

/// The subject of a message: that of its first `ENVELOPE` item that has one.
pub open spec fn first_envelope_subject(items: Seq<FetchItem>) -> Option<Seq<u8>>
    decreases items.len(),
{
    if items.len() == 0 {
        None
    } else {
        match items[0] {
            FetchItem::Envelope { date: _, subject: Some(s) } => Some(s@),
            _ => first_envelope_subject(items.drop_first()),
        }
    }
}

/// The size of a message: its first `RFC822.SIZE` item.
pub open spec fn first_size(items: Seq<FetchItem>) -> Option<u32>
    decreases items.len(),
{
    if items.len() == 0 {
        None
    } else {
        match items[0] {
            FetchItem::Rfc822Size(n) => Some(n),
            _ => first_size(items.drop_first()),
        }
    }
}

/// How two fetched messages compare on one key. The client compares on
/// arrival, date, size and subject; on the address keys every two messages
/// are equal.
pub open spec fn key_order(key: SortKey, a: Seq<FetchItem>, b: Seq<FetchItem>) -> Ordering {
    match key {
        SortKey::Arrival => order_opt_instant(first_internal_date(a), first_internal_date(b)),
        SortKey::Date => order_opt_bytes(first_envelope_date(a), first_envelope_date(b)),
        SortKey::Size => order_opt_size(first_size(a), first_size(b)),
        SortKey::Subject => order_opt_bytes(first_envelope_subject(a), first_envelope_subject(b)),
        _ => Ordering::Equal,
    }
}

/// How two messages compare on one criterion: on its key, descending when
/// it is reversed.
pub open spec fn directed_order(c: SortCriterion, a: Seq<FetchItem>, b: Seq<FetchItem>) -> Ordering {
    if c.reverse {
        flip(key_order(c.key, a, b))
    } else {
        key_order(c.key, a, b)
    }
}

/// How two messages compare under a list of criteria: on the first
/// criterion on which they differ; when they differ on none, by date.
pub open spec fn order_by(criteria: Seq<SortCriterion>, a: Seq<FetchItem>, b: Seq<FetchItem>) -> Ordering
    decreases criteria.len(),
{
    if criteria.len() == 0 {
        key_order(SortKey::Date, a, b)
    } else {
        let o = directed_order(criteria[0], a, b);
        if o != Ordering::Equal {
            o
        } else {
            order_by(criteria.drop_first(), a, b)
        }
    }
}

proof fn lemma_order_bytes(x: Seq<u8>, y: Seq<u8>)
    ensures
        (order_bytes(x, y) == Ordering::Equal) == (x == y),
        order_bytes(x, y) == flip(order_bytes(y, x)),
    decreases x.len(),
{
    if x.len() > 0 && y.len() > 0 {
        if x[0] == y[0] {
            lemma_order_bytes(x.drop_first(), y.drop_first());
            if x.drop_first() =~= y.drop_first() {
                assert forall|i: int| 0 <= i < x.len() implies x[i] == y[i] by {
                    if i > 0 {
                        assert(x[i] == x.drop_first()[i - 1]);
                        assert(y[i] == y.drop_first()[i - 1]);
                    }
                }
                assert(x =~= y);
            } else {
                assert(x != y) by {
                    if x == y {
                        assert(x.drop_first() =~= y.drop_first());
                    }
                }
            }
        } else {
            assert(x != y);
        }
    } else if x.len() != y.len() {
        assert(x != y);
    } else {
        assert(x =~= y);
    }
}

proof fn lemma_order_bytes_trans(x: Seq<u8>, y: Seq<u8>, z: Seq<u8>)
    requires
        order_bytes(x, y) == Ordering::Less,
        order_bytes(y, z) == Ordering::Less,
    ensures
        order_bytes(x, z) == Ordering::Less,
    decreases x.len(),
{
    if x.len() > 0 && x[0] == y[0] && y[0] == z[0] {
        lemma_order_bytes_trans(x.drop_first(), y.drop_first(), z.drop_first());
    }
}

proof fn lemma_order_opt_bytes(x: Option<Seq<u8>>, y: Option<Seq<u8>>, z: Option<Seq<u8>>)
    ensures
        (order_opt_bytes(x, y) == Ordering::Equal) == (x == y),
        order_opt_bytes(x, y) == flip(order_opt_bytes(y, x)),
        order_opt_bytes(x, y) == Ordering::Less && order_opt_bytes(y, z) == Ordering::Less
            ==> order_opt_bytes(x, z) == Ordering::Less,
{
    if let (Some(a), Some(b)) = (x, y) {
        lemma_order_bytes(a, b);
    }
    if let (Some(a), Some(b), Some(c)) = (x, y, z) {
        if order_bytes(a, b) == Ordering::Less && order_bytes(b, c) == Ordering::Less {
            lemma_order_bytes_trans(a, b, c);
        }
    }
}

/// The facts that make `key_order` a total preorder.
proof fn lemma_key_order(k: SortKey, a: Seq<FetchItem>, b: Seq<FetchItem>, c: Seq<FetchItem>)
    ensures
        key_order(k, a, a) == Ordering::Equal,
        key_order(k, a, b) == flip(key_order(k, b, a)),
        key_order(k, a, b) == Ordering::Equal ==> key_order(k, a, c) == key_order(k, b, c),
        key_order(k, a, b) == Ordering::Less && key_order(k, b, c) == Ordering::Less
            ==> key_order(k, a, c) == Ordering::Less,
{
    match k {
        SortKey::Date => {
            lemma_order_opt_bytes(first_envelope_date(a), first_envelope_date(a), first_envelope_date(a));
            lemma_order_opt_bytes(first_envelope_date(a), first_envelope_date(b), first_envelope_date(c));
        },
        SortKey::Subject => {
            lemma_order_opt_bytes(first_envelope_subject(a), first_envelope_subject(a), first_envelope_subject(a));
            lemma_order_opt_bytes(first_envelope_subject(a), first_envelope_subject(b), first_envelope_subject(c));
        },
        _ => {},
    }
}

/// The same facts for a criterion, ascending or descending.
proof fn lemma_directed_order(cr: SortCriterion, a: Seq<FetchItem>, b: Seq<FetchItem>, c: Seq<FetchItem>)
    ensures
        directed_order(cr, a, a) == Ordering::Equal,
        directed_order(cr, a, b) == flip(directed_order(cr, b, a)),
        directed_order(cr, a, b) == Ordering::Equal ==> directed_order(cr, a, c) == directed_order(cr, b, c),
        directed_order(cr, b, c) == Ordering::Equal ==> directed_order(cr, a, b) == directed_order(cr, a, c),
        directed_order(cr, a, b) == Ordering::Less && directed_order(cr, b, c) == Ordering::Less
            ==> directed_order(cr, a, c) == Ordering::Less,
{
    lemma_key_order(cr.key, a, b, c);
    lemma_key_order(cr.key, b, c, a);
    lemma_key_order(cr.key, c, b, a);
    lemma_key_order(cr.key, a, c, b);
    lemma_key_order(cr.key, b, a, c);
}

/// Comparing under sort criteria is a total preorder: each message is equal
/// to itself, swapping the messages reverses the result, and "not after"
/// is transitive. So sorting by it is well defined up to equal messages.
pub proof fn lemma_order_by_total_preorder(
    criteria: Seq<SortCriterion>,
    a: Seq<FetchItem>,
    b: Seq<FetchItem>,
    c: Seq<FetchItem>,
)
    ensures
        order_by(criteria, a, a) == Ordering::Equal,
        order_by(criteria, a, b) == flip(order_by(criteria, b, a)),
        order_by(criteria, a, b) != Ordering::Greater && order_by(criteria, b, c) != Ordering::Greater
            ==> order_by(criteria, a, c) != Ordering::Greater,
    decreases criteria.len(),
{
    if criteria.len() == 0 {
        lemma_key_order(SortKey::Date, a, b, c);
        lemma_key_order(SortKey::Date, b, c, a);
        lemma_key_order(SortKey::Date, c, b, a);
        lemma_key_order(SortKey::Date, a, c, b);
    } else {
        lemma_directed_order(criteria[0], a, b, c);
        lemma_order_by_total_preorder(criteria.drop_first(), a, b, c);
    }
}

/// The arrival instant of a message is that of its first `INTERNALDATE` item,
/// wherever it stands; a message has none only when no item is one.
pub proof fn law_first_internal_date_item(items: Seq<FetchItem>, k: int)
    ensures
        0 <= k < items.len() && items[k] is InternalDate && (forall|j: int|
            0 <= j < k ==> !(#[trigger] items[j] is InternalDate)) ==> first_internal_date(items) == Some((items[k]->secs, items[k]->nanos)),
        first_internal_date(items) is None <==> forall|j: int| 0 <= j < items.len() ==> !(#[trigger] items[j] is InternalDate),
    decreases items.len(),
{
    if items.len() > 0 {
        let rest = items.drop_first();
        law_first_internal_date_item(rest, k - 1);
        if 0 <= k < items.len() && items[k] is InternalDate && (forall|j: int|
            0 <= j < k ==> !(#[trigger] items[j] is InternalDate)) && k > 0 {
            assert forall|j: int| 0 <= j < k - 1 implies !(#[trigger] rest[j] is InternalDate) by {
                assert(rest[j] == items[j + 1]);
            }
            assert(rest[k - 1] == items[k]);
        }
        if first_internal_date(items) is None {
            assert forall|j: int| 0 <= j < items.len() implies !(#[trigger] items[j] is InternalDate) by {
                if j > 0 {
                    assert(items[j] == rest[j - 1]);
                }
            }
        }
        if forall|j: int| 0 <= j < items.len() ==> !(#[trigger] items[j] is InternalDate) {
            assert forall|j: int| 0 <= j < rest.len() implies !(#[trigger] rest[j] is InternalDate) by {
                assert(rest[j] == items[j + 1]);
            }
        }
    }
}

/// The date of a message is that of its first envelope that carries a date,
/// wherever it stands; a message has none only when no envelope carries one.
pub proof fn law_first_envelope_date_item(items: Seq<FetchItem>, k: int)
    ensures
        0 <= k < items.len() && (items[k] matches FetchItem::Envelope { date: Some(_), subject: _ }) && (forall|j: int|
            0 <= j < k ==> !(#[trigger] items[j] matches FetchItem::Envelope { date: Some(_), subject: _ })) ==> first_envelope_date(items) == Some(items[k]->date->0@),
        first_envelope_date(items) is None <==> forall|j: int| 0 <= j < items.len() ==> !(#[trigger] items[j] matches FetchItem::Envelope { date: Some(_), subject: _ }),
    decreases items.len(),
{
    if items.len() > 0 {
        let rest = items.drop_first();
        law_first_envelope_date_item(rest, k - 1);
        if 0 <= k < items.len() && (items[k] matches FetchItem::Envelope { date: Some(_), subject: _ }) && (forall|j: int|
            0 <= j < k ==> !(#[trigger] items[j] matches FetchItem::Envelope { date: Some(_), subject: _ })) && k > 0 {
            assert forall|j: int| 0 <= j < k - 1 implies !(#[trigger] rest[j] matches FetchItem::Envelope { date: Some(_), subject: _ }) by {
                assert(rest[j] == items[j + 1]);
            }
            assert(rest[k - 1] == items[k]);
        }
        if first_envelope_date(items) is None {
            assert forall|j: int| 0 <= j < items.len() implies !(#[trigger] items[j] matches FetchItem::Envelope { date: Some(_), subject: _ }) by {
                if j > 0 {
                    assert(items[j] == rest[j - 1]);
                }
            }
        }
        if forall|j: int| 0 <= j < items.len() ==> !(#[trigger] items[j] matches FetchItem::Envelope { date: Some(_), subject: _ }) {
            assert forall|j: int| 0 <= j < rest.len() implies !(#[trigger] rest[j] matches FetchItem::Envelope { date: Some(_), subject: _ }) by {
                assert(rest[j] == items[j + 1]);
            }
        }
    }
}

/// The subject of a message is that of its first envelope that carries a
/// subject, wherever it stands; a message has none only when no envelope
/// carries one.
pub proof fn law_first_envelope_subject_item(items: Seq<FetchItem>, k: int)
    ensures
        0 <= k < items.len() && (items[k] matches FetchItem::Envelope { date: _, subject: Some(_) }) && (forall|j: int|
            0 <= j < k ==> !(#[trigger] items[j] matches FetchItem::Envelope { date: _, subject: Some(_) })) ==> first_envelope_subject(items) == Some(items[k]->subject->0@),
        first_envelope_subject(items) is None <==> forall|j: int| 0 <= j < items.len() ==> !(#[trigger] items[j] matches FetchItem::Envelope { date: _, subject: Some(_) }),
    decreases items.len(),
{
    if items.len() > 0 {
        let rest = items.drop_first();
        law_first_envelope_subject_item(rest, k - 1);
        if 0 <= k < items.len() && (items[k] matches FetchItem::Envelope { date: _, subject: Some(_) }) && (forall|j: int|
            0 <= j < k ==> !(#[trigger] items[j] matches FetchItem::Envelope { date: _, subject: Some(_) })) && k > 0 {
            assert forall|j: int| 0 <= j < k - 1 implies !(#[trigger] rest[j] matches FetchItem::Envelope { date: _, subject: Some(_) }) by {
                assert(rest[j] == items[j + 1]);
            }
            assert(rest[k - 1] == items[k]);
        }
        if first_envelope_subject(items) is None {
            assert forall|j: int| 0 <= j < items.len() implies !(#[trigger] items[j] matches FetchItem::Envelope { date: _, subject: Some(_) }) by {
                if j > 0 {
                    assert(items[j] == rest[j - 1]);
                }
            }
        }
        if forall|j: int| 0 <= j < items.len() ==> !(#[trigger] items[j] matches FetchItem::Envelope { date: _, subject: Some(_) }) {
            assert forall|j: int| 0 <= j < rest.len() implies !(#[trigger] rest[j] matches FetchItem::Envelope { date: _, subject: Some(_) }) by {
                assert(rest[j] == items[j + 1]);
            }
        }
    }
}

/// The size of a message is that of its first `RFC822.SIZE` item, wherever it
/// stands; a message has none only when no item is one.
pub proof fn law_first_size_item(items: Seq<FetchItem>, k: int)
    ensures
        0 <= k < items.len() && items[k] is Rfc822Size && (forall|j: int|
            0 <= j < k ==> !(#[trigger] items[j] is Rfc822Size)) ==> first_size(items) == Some(items[k]->Rfc822Size_0),
        first_size(items) is None <==> forall|j: int| 0 <= j < items.len() ==> !(#[trigger] items[j] is Rfc822Size),
    decreases items.len(),
{
    if items.len() > 0 {
        let rest = items.drop_first();
        law_first_size_item(rest, k - 1);
        if 0 <= k < items.len() && items[k] is Rfc822Size && (forall|j: int|
            0 <= j < k ==> !(#[trigger] items[j] is Rfc822Size)) && k > 0 {
            assert forall|j: int| 0 <= j < k - 1 implies !(#[trigger] rest[j] is Rfc822Size) by {
                assert(rest[j] == items[j + 1]);
            }
            assert(rest[k - 1] == items[k]);
        }
        if first_size(items) is None {
            assert forall|j: int| 0 <= j < items.len() implies !(#[trigger] items[j] is Rfc822Size) by {
                if j > 0 {
                    assert(items[j] == rest[j - 1]);
                }
            }
        }
        if forall|j: int| 0 <= j < items.len() ==> !(#[trigger] items[j] is Rfc822Size) {
            assert forall|j: int| 0 <= j < rest.len() implies !(#[trigger] rest[j] is Rfc822Size) by {
                assert(rest[j] == items[j + 1]);
            }
        }
    }
}

/// `x` and `y` agree on their first `p` bytes.
pub open spec fn agree_before(x: Seq<u8>, y: Seq<u8>, p: int) -> bool {
    forall|q: int| 0 <= q < p ==> x[q] == y[q]
}

/// `x` comes before `y` byte-wise: where they first differ, or where `x`
/// ends, `y` goes on with a greater byte or at all.
pub open spec fn bytes_before(x: Seq<u8>, y: Seq<u8>) -> bool {
    exists|p: int|
        0 <= p <= x.len() && p < y.len() && #[trigger] agree_before(x, y, p) && (p == x.len() || x[p]
            < y[p])
}

proof fn lemma_bytes_before(x: Seq<u8>, y: Seq<u8>)
    ensures
        bytes_before(x, y) <==> order_bytes(x, y) == Ordering::Less,
    decreases x.len(),
{
    if x.len() > 0 && y.len() > 0 && x[0] == y[0] {
        let x1 = x.drop_first();
        let y1 = y.drop_first();
        lemma_bytes_before(x1, y1);
        if bytes_before(x, y) {
            let p = choose|p: int|
                0 <= p <= x.len() && p < y.len() && #[trigger] agree_before(x, y, p) && (p == x.len()
                    || x[p] < y[p]);
            assert(p > 0);
            assert(agree_before(x1, y1, p - 1)) by {
                assert forall|q: int| 0 <= q < p - 1 implies x1[q] == y1[q] by {
                    assert(x1[q] == x[q + 1] && y1[q] == y[q + 1]);
                }
            }
            if p < x.len() {
                assert(x1[p - 1] == x[p] && y1[p - 1] == y[p]);
            }
        }
        if bytes_before(x1, y1) {
            let p = choose|p: int|
                0 <= p <= x1.len() && p < y1.len() && #[trigger] agree_before(x1, y1, p) && (p
                    == x1.len() || x1[p] < y1[p]);
            assert(agree_before(x, y, p + 1)) by {
                assert forall|q: int| 0 <= q < p + 1 implies x[q] == y[q] by {
                    if q > 0 {
                        assert(x1[q - 1] == x[q] && y1[q - 1] == y[q]);
                    }
                }
            }
            if p < x1.len() {
                assert(x1[p] == x[p + 1] && y1[p] == y[p + 1]);
            }
        }
    } else {
        assert(agree_before(x, y, 0));
        if bytes_before(x, y) {
            let p = choose|p: int|
                0 <= p <= x.len() && p < y.len() && #[trigger] agree_before(x, y, p) && (p == x.len()
                    || x[p] < y[p]);
            if p > 0 {
                assert(x[0] == y[0]);
            }
        }
    }
}

/// Under the date key messages compare by the date of their first dated
/// envelope (`x` for `a`, `y` for `b`, when they have one): byte-wise when
/// both have one, a message without one first.
pub proof fn law_date_order(a: Seq<FetchItem>, b: Seq<FetchItem>, x: Seq<u8>, y: Seq<u8>)
    ensures
        first_envelope_date(a) is None && first_envelope_date(b) is None ==> key_order(
            SortKey::Date,
            a,
            b,
        ) == Ordering::Equal,
        first_envelope_date(a) is None && first_envelope_date(b) is Some ==> key_order(
            SortKey::Date,
            a,
            b,
        ) == Ordering::Less,
        first_envelope_date(a) is Some && first_envelope_date(b) is None ==> key_order(
            SortKey::Date,
            a,
            b,
        ) == Ordering::Greater,
        first_envelope_date(a) == Some(x) && first_envelope_date(b) == Some(y) ==> (
        key_order(SortKey::Date, a, b) == Ordering::Less <==> bytes_before(x, y)) && (key_order(
            SortKey::Date,
            a,
            b,
        ) == Ordering::Equal <==> x == y) && (key_order(SortKey::Date, a, b) == Ordering::Greater
            <==> bytes_before(y, x)),
{
    lemma_bytes_before(x, y);
    lemma_bytes_before(y, x);
    lemma_order_bytes(x, y);
}

/// Under the subject key messages compare by the subject of their first
/// envelope that has one (`x` for `a`, `y` for `b`): byte-wise when both
/// have one, a message without one first.
pub proof fn law_subject_order(a: Seq<FetchItem>, b: Seq<FetchItem>, x: Seq<u8>, y: Seq<u8>)
    ensures
        first_envelope_subject(a) is None && first_envelope_subject(b) is None ==> key_order(
            SortKey::Subject,
            a,
            b,
        ) == Ordering::Equal,
        first_envelope_subject(a) is None && first_envelope_subject(b) is Some ==> key_order(
            SortKey::Subject,
            a,
            b,
        ) == Ordering::Less,
        first_envelope_subject(a) is Some && first_envelope_subject(b) is None ==> key_order(
            SortKey::Subject,
            a,
            b,
        ) == Ordering::Greater,
        first_envelope_subject(a) == Some(x) && first_envelope_subject(b) == Some(y) ==> (
        key_order(SortKey::Subject, a, b) == Ordering::Less <==> bytes_before(x, y)) && (key_order(
            SortKey::Subject,
            a,
            b,
        ) == Ordering::Equal <==> x == y) && (key_order(SortKey::Subject, a, b) == Ordering::Greater
            <==> bytes_before(y, x)),
{
    lemma_bytes_before(x, y);
    lemma_bytes_before(y, x);
    lemma_order_bytes(x, y);
}

/// Under the arrival key messages compare by the instant of their first
/// `INTERNALDATE` (`x` for `a`, `y` for `b`, as seconds and nanoseconds):
/// earlier seconds first, then fewer nanoseconds; a message without one
/// first.
pub proof fn law_arrival_order(
    a: Seq<FetchItem>,
    b: Seq<FetchItem>,
    x: (i64, u32),
    y: (i64, u32),
)
    ensures
        first_internal_date(a) is None && first_internal_date(b) is None ==> key_order(
            SortKey::Arrival,
            a,
            b,
        ) == Ordering::Equal,
        first_internal_date(a) is None && first_internal_date(b) is Some ==> key_order(
            SortKey::Arrival,
            a,
            b,
        ) == Ordering::Less,
        first_internal_date(a) is Some && first_internal_date(b) is None ==> key_order(
            SortKey::Arrival,
            a,
            b,
        ) == Ordering::Greater,
        first_internal_date(a) == Some(x) && first_internal_date(b) == Some(y) ==> (
        key_order(SortKey::Arrival, a, b) == Ordering::Less <==> (x.0 < y.0 || (x.0 == y.0 && x.1
            < y.1))) && (key_order(SortKey::Arrival, a, b) == Ordering::Equal <==> x == y) && (
        key_order(SortKey::Arrival, a, b) == Ordering::Greater <==> (y.0 < x.0 || (x.0 == y.0 && y.1
            < x.1))),
{
}

/// Under the size key messages compare by their first `RFC822.SIZE` (`x`
/// for `a`, `y` for `b`), smaller first; a message without one first.
pub proof fn law_size_order(a: Seq<FetchItem>, b: Seq<FetchItem>, x: u32, y: u32)
    ensures
        first_size(a) is None && first_size(b) is None ==> key_order(SortKey::Size, a, b)
            == Ordering::Equal,
        first_size(a) is None && first_size(b) is Some ==> key_order(SortKey::Size, a, b)
            == Ordering::Less,
        first_size(a) is Some && first_size(b) is None ==> key_order(SortKey::Size, a, b)
            == Ordering::Greater,
        first_size(a) == Some(x) && first_size(b) == Some(y) ==> (key_order(
            SortKey::Size,
            a,
            b,
        ) == Ordering::Less <==> x < y) && (key_order(SortKey::Size, a, b) == Ordering::Equal <==> x
            == y) && (key_order(SortKey::Size, a, b) == Ordering::Greater <==> y < x),
{
}

/// The client does not compare on addresses: under the address keys every
/// two messages are equal.
pub proof fn law_address_keys_equal(k: SortKey, a: Seq<FetchItem>, b: Seq<FetchItem>)
    ensures
        k == SortKey::Cc || k == SortKey::From || k == SortKey::To || k == SortKey::DisplayFrom || k
            == SortKey::DisplayTo ==> key_order(k, a, b) == Ordering::Equal,
{
}

/// The opposite order turns less into greater and greater into less, keeps
/// equal, and taken twice gives the order back.
pub proof fn law_flip(o: Ordering)
    ensures
        flip(Ordering::Less) == Ordering::Greater,
        flip(Ordering::Greater) == Ordering::Less,
        flip(Ordering::Equal) == Ordering::Equal,
        flip(flip(o)) == o,
{
}

/// A criterion compares as its key does, and the reversed criterion on the
/// same key compares the other way round, whatever the key.
pub proof fn law_reverse_flips(k: SortKey, a: Seq<FetchItem>, b: Seq<FetchItem>)
    ensures
        directed_order((SortCriterion { reverse: false, key: k }), a, b) == key_order(k, a, b),
        directed_order((SortCriterion { reverse: true, key: k }), a, b) == flip(
            directed_order((SortCriterion { reverse: false, key: k }), a, b),
        ),
{
}

/// Under a list of criteria, two messages compare as on the first criterion
/// on which they differ, and by date when they differ on none.
pub proof fn law_order_by_first_difference(
    criteria: Seq<SortCriterion>,
    a: Seq<FetchItem>,
    b: Seq<FetchItem>,
    i: int,
)
    ensures
        0 <= i < criteria.len() && (forall|j: int|
            0 <= j < i ==> #[trigger] directed_order(criteria[j], a, b) == Ordering::Equal)
            && directed_order(criteria[i], a, b) != Ordering::Equal ==> order_by(criteria, a, b)
            == directed_order(criteria[i], a, b),
        (forall|j: int|
            0 <= j < criteria.len() ==> #[trigger] directed_order(criteria[j], a, b) == Ordering::Equal)
            ==> order_by(criteria, a, b) == key_order(SortKey::Date, a, b),
    decreases criteria.len(),
{
    if criteria.len() > 0 {
        let rest = criteria.drop_first();
        law_order_by_first_difference(rest, a, b, i - 1);
        if 0 < i < criteria.len() && (forall|j: int|
            0 <= j < i ==> #[trigger] directed_order(criteria[j], a, b) == Ordering::Equal) {
            assert(directed_order(criteria[0], a, b) == Ordering::Equal);
            assert(rest[i - 1] == criteria[i]);
            assert forall|j: int| 0 <= j < i - 1 implies #[trigger] directed_order(rest[j], a, b)
                == Ordering::Equal by {
                assert(rest[j] == criteria[j + 1]);
                assert(directed_order(criteria[j + 1], a, b) == Ordering::Equal);
            }
        }
        if forall|j: int|
            0 <= j < criteria.len() ==> #[trigger] directed_order(criteria[j], a, b) == Ordering::Equal {
            assert(directed_order(criteria[0], a, b) == Ordering::Equal);
            assert forall|j: int| 0 <= j < rest.len() implies #[trigger] directed_order(rest[j], a, b)
                == Ordering::Equal by {
                assert(rest[j] == criteria[j + 1]);
                assert(directed_order(criteria[j + 1], a, b) == Ordering::Equal);
            }
        }
    }
}

/// The arrival instant of a message.
fn internal_date_of(items: &Vec<FetchItem>) -> (r: Option<(i64, u32)>)
    ensures
        r == first_internal_date(items@),
{
    let n = items.len();
    let mut i: usize = 0;
    assert(items@.skip(0) == items@);
    while i < n
        invariant
            n == items@.len(),
            i <= n,
            first_internal_date(items@) == first_internal_date(items@.skip(i as int)),
        decreases n - i,
    {
        assert(items@.skip(i as int).drop_first() == items@.skip(i + 1));
        if let FetchItem::InternalDate { secs, nanos } = &items[i] {
            return Some((*secs, *nanos));
        }
        i = i + 1;
    }
    None
}

/// The date of a message.
fn envelope_date_of(items: &Vec<FetchItem>) -> (r: Option<&Vec<u8>>)
    ensures
        first_envelope_date(items@) == (match r {
            Some(d) => Some(d@),
            None => None,
        }),
{
    let n = items.len();
    let mut i: usize = 0;
    assert(items@.skip(0) == items@);
    while i < n
        invariant
            n == items@.len(),
            i <= n,
            first_envelope_date(items@) == first_envelope_date(items@.skip(i as int)),
        decreases n - i,
    {
        assert(items@.skip(i as int).drop_first() == items@.skip(i + 1));
        if let FetchItem::Envelope { date: Some(d), subject: _ } = &items[i] {
            return Some(d);
        }
        i = i + 1;
    }
    None
}

/// The subject of a message.
fn envelope_subject_of(items: &Vec<FetchItem>) -> (r: Option<&Vec<u8>>)
    ensures
        first_envelope_subject(items@) == (match r {
            Some(d) => Some(d@),
            None => None,
        }),
{
    let n = items.len();
    let mut i: usize = 0;
    assert(items@.skip(0) == items@);
    while i < n
        invariant
            n == items@.len(),
            i <= n,
            first_envelope_subject(items@) == first_envelope_subject(items@.skip(i as int)),
        decreases n - i,
    {
        assert(items@.skip(i as int).drop_first() == items@.skip(i + 1));
        if let FetchItem::Envelope { date: _, subject: Some(t) } = &items[i] {
            return Some(t);
        }
        i = i + 1;
    }
    None
}

/// The size of a message.
fn size_of(items: &Vec<FetchItem>) -> (r: Option<u32>)
    ensures
        r == first_size(items@),
{
    let n = items.len();
    let mut i: usize = 0;
    assert(items@.skip(0) == items@);
    while i < n
        invariant
            n == items@.len(),
            i <= n,
            first_size(items@) == first_size(items@.skip(i as int)),
        decreases n - i,
    {
        assert(items@.skip(i as int).drop_first() == items@.skip(i + 1));
        if let FetchItem::Rfc822Size(k) = &items[i] {
            return Some(*k);
        }
        i = i + 1;
    }
    None
}

/// Compares byte strings lexicographically.
pub fn compare_bytes(x: &Vec<u8>, y: &Vec<u8>) -> (r: Ordering)
    ensures
        r == order_bytes(x@, y@),
{
    let xn = x.len();
    let yn = y.len();
    let mut i: usize = 0;
    proof {
        lemma_after_ends(x@, 0);
        lemma_after_ends(y@, 0);
    }
    while i < xn && i < yn
        invariant
            xn == x@.len(),
            yn == y@.len(),
            i <= xn,
            i <= yn,
            order_bytes(x@, y@) == order_bytes(after(x@, i), after(y@, i)),
        decreases xn - i,
    {
        proof {
            lemma_after_step(x@, i);
            lemma_after_step(y@, i);
        }
        if x[i] < y[i] {
            return Ordering::Less;
        }
        if x[i] > y[i] {
            return Ordering::Greater;
        }
        i = i + 1;
    }
    proof {
        lemma_after_ends(x@, i);
        lemma_after_ends(y@, i);
    }
    if i < yn {
        proof {
            lemma_after_step(y@, i);
        }
        Ordering::Less
    } else if i < xn {
        proof {
            lemma_after_step(x@, i);
        }
        Ordering::Greater
    } else {
        Ordering::Equal
    }
}

fn compare_opt_bytes(x: Option<&Vec<u8>>, y: Option<&Vec<u8>>) -> (r: Ordering)
    ensures
        r == order_opt_bytes(
            match x {
                Some(v) => Some(v@),
                None => None,
            },
            match y {
                Some(v) => Some(v@),
                None => None,
            },
        ),
{
    match (x, y) {
        (None, None) => Ordering::Equal,
        (None, Some(_)) => Ordering::Less,
        (Some(_), None) => Ordering::Greater,
        (Some(a), Some(b)) => compare_bytes(a, b),
    }
}

fn compare_u32(x: u32, y: u32) -> (r: Ordering)
    ensures
        r == order_u32(x, y),
{
    if x < y {
        Ordering::Less
    } else if x > y {
        Ordering::Greater
    } else {
        Ordering::Equal
    }
}

/// Compares two fetched messages on one sort key.
pub fn cmp_fetch_items(criterion: &SortKey, a: &Vec<FetchItem>, b: &Vec<FetchItem>) -> (r: Ordering)
    ensures
        r == key_order(*criterion, a@, b@),
{
    match criterion {
        SortKey::Arrival => {
            match (internal_date_of(a), internal_date_of(b)) {
                (None, None) => Ordering::Equal,
                (None, Some(_)) => Ordering::Less,
                (Some(_), None) => Ordering::Greater,
                (Some(x), Some(y)) => {
                    if x.0 < y.0 {
                        Ordering::Less
                    } else if x.0 > y.0 {
                        Ordering::Greater
                    } else {
                        compare_u32(x.1, y.1)
                    }
                },
            }
        },
        SortKey::Date => compare_opt_bytes(envelope_date_of(a), envelope_date_of(b)),
        SortKey::Size => {
            match (size_of(a), size_of(b)) {
                (None, None) => Ordering::Equal,
                (None, Some(_)) => Ordering::Less,
                (Some(_), None) => Ordering::Greater,
                (Some(x), Some(y)) => compare_u32(x, y),
            }
        },
        SortKey::Subject => compare_opt_bytes(envelope_subject_of(a), envelope_subject_of(b)),
        SortKey::Cc | SortKey::From | SortKey::To | SortKey::DisplayFrom | SortKey::DisplayTo => {
            Ordering::Equal
        },
    }
}

/// Compares two fetched messages under a list of criteria.
pub fn compare_by(criteria: &Vec<SortCriterion>, a: &Vec<FetchItem>, b: &Vec<FetchItem>) -> (r: Ordering)
    ensures
        r == order_by(criteria@, a@, b@),
{
    let n = criteria.len();
    let mut i: usize = 0;
    proof {
        lemma_after_ends(criteria@, 0);
    }
    while i < n
        invariant
            n == criteria@.len(),
            i <= n,
            order_by(criteria@, a@, b@) == order_by(after(criteria@, i), a@, b@),
        decreases n - i,
    {
        proof {
            lemma_after_step(criteria@, i);
        }
        let c = criteria[i];
        let mut o = cmp_fetch_items(&c.key, a, b);
        if c.reverse {
            o = reverse_ordering(o);
        }
        match o {
            Ordering::Equal => {},
            _ => {
                return o;
            },
        }
        i = i + 1;
    }
    proof {
        lemma_after_ends(criteria@, n);
    }
    cmp_fetch_items(&SortKey::Date, a, b)
}

/// `a` comes strictly before `b` under the criteria.
pub open spec fn precedes(criteria: Seq<SortCriterion>, a: Seq<FetchItem>, b: Seq<FetchItem>) -> bool {
    order_by(criteria, a, b) == Ordering::Less
}

/// `a` comes no later than `b` under the criteria.
pub open spec fn not_after(criteria: Seq<SortCriterion>, a: Seq<FetchItem>, b: Seq<FetchItem>) -> bool {
    order_by(criteria, a, b) != Ordering::Greater
}

/// No two messages of `s` stand against the criteria: each comes no
/// later than those after it.
pub open spec fn sorted_by<V>(criteria: Seq<SortCriterion>, s: Seq<(Vec<FetchItem>, V)>) -> bool {
    forall|i: int, j: int|
        0 <= i < j < s.len() ==> not_after(criteria, #[trigger] s[i].0@, #[trigger] s[j].0@)
}

/// Inserting before the first message that `x` comes before keeps a sorted
/// sequence sorted.
proof fn lemma_insert_sorted<V>(
    criteria: Seq<SortCriterion>,
    s: Seq<(Vec<FetchItem>, V)>,
    p: int,
    x: (Vec<FetchItem>, V),
)
    requires
        sorted_by(criteria, s),
        0 <= p <= s.len(),
        forall|k: int| 0 <= k < p ==> !precedes(criteria, x.0@, #[trigger] s[k].0@),
        p < s.len() ==> precedes(criteria, x.0@, s[p].0@),
    ensures
        sorted_by(criteria, s.insert(p, x)),
{
    s.insert_ensures(p, x);
    let t = s.insert(p, x);
    assert forall|i: int, j: int| 0 <= i < j < t.len() implies not_after(
        criteria,
        #[trigger] t[i].0@,
        #[trigger] t[j].0@,
    ) by {
        if j < p {
            assert(t[i] == s[i] && t[j] == s[j]);
        } else if j == p {
            assert(t[i] == s[i]);
            lemma_order_by_total_preorder(criteria, x.0@, s[i].0@, s[i].0@);
        } else {
            assert(t[j] == s[j - 1]);
            if i < p {
                assert(t[i] == s[i]);
            } else if i == p {
                if p < j - 1 {
                    assert(not_after(criteria, s[p].0@, s[j - 1].0@));
                }
                lemma_order_by_total_preorder(criteria, x.0@, s[p].0@, s[j - 1].0@);
            } else {
                assert(t[i] == s[i - 1]);
            }
        }
    }
}

/// Where `x` goes in a sorted sequence: before the first message it comes
/// before, else at the end.
fn insert_position<V>(criteria: &Vec<SortCriterion>, r: &Vec<(Vec<FetchItem>, V)>, x: &Vec<FetchItem>) -> (p: usize)
    ensures
        p <= r@.len(),
        forall|k: int| 0 <= k < p ==> !precedes(criteria@, x@, #[trigger] r@[k].0@),
        p < r@.len() ==> precedes(criteria@, x@, at(r@, p).0@),
{
    let n = r.len();
    let mut p: usize = 0;
    while p < n
        invariant
            n == r@.len(),
            p <= n,
            forall|k: int| 0 <= k < p ==> !precedes(criteria@, x@, #[trigger] r@[k].0@),
        decreases n - p,
    {
        match compare_by(criteria, x, &r[p].0) {
            Ordering::Less => {
                return p;
            },
            _ => {},
        }
        p = p + 1;
    }
    p
}

/// Sorts fetched messages (their items, with what the caller keeps of
/// each) under the criteria, on the client.
pub fn sort_fetched<V>(fetched: Vec<(Vec<FetchItem>, V)>, criteria: &Vec<SortCriterion>) -> (r: Vec<
    (Vec<FetchItem>, V),
>)
    ensures
        r@.to_multiset() == fetched@.to_multiset(),
        sorted_by(criteria@, r@),
{
    broadcast use vstd::multiset::group_multiset_axioms;

    let ghost all = fetched@;
    let mut rest = fetched;
    let mut r: Vec<(Vec<FetchItem>, V)> = Vec::new();
    assert(r@.to_multiset() =~= vstd::multiset::Multiset::empty());
    while rest.len() > 0
        invariant
            r@.to_multiset().add(rest@.to_multiset()) == all.to_multiset(),
            sorted_by(criteria@, r@),
        decreases rest@.len(),
    {
        let ghost rest_before = rest@;
        let ghost r_before = r@;
        let x = rest.pop().unwrap();
        assert(rest_before == rest@.push(x));
        let p = insert_position(criteria, &r, &x.0);
        proof {
            lemma_insert_sorted(criteria@, r@, p as int, x);
        }
        r.insert(p, x);
        assert(r@.to_multiset().add(rest@.to_multiset()) =~= r_before.to_multiset().add(
            rest_before.to_multiset(),
        ));
    }
    assert(r@.to_multiset().add(rest@.to_multiset()) =~= r@.to_multiset());
    r
}

} // verus!
