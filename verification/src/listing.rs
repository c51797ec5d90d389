//! A sorted listing of messages: with the SORT extension the server sorts
//! and the messages are fetched in its order; without it the client
//! searches, fetches what the criteria need, and sorts itself.
use vstd::prelude::*;
use std::collections::HashMap;

use crate::client::Client;
use crate::capability::{announces, CapabilityKind};
use crate::fetch::{
    chunk_count, chunk_ids, chunk_of, expanded, in_id_order, lemma_in_id_order_exact,
    law_with_name, listing_item_names, order_by_ids, with_name, FetchItem, FetchItemName,
    MacroOrFetchItemNames,
};
use crate::sort::{
    fallback_item_names, fetched_for, law_sort_fetch_names, lemma_with_sort_names_covers,
    sort_fetched, sorted_by, with_sort_names, SortCriterion,
};

verus! {

broadcast use vstd::std_specs::hash::group_hash_axioms;

/// What the listing needs done next.
pub enum ListingAction<'a> {
    /// Send SORT (or UID SORT) with these criteria and the search criteria.
    Sort(&'a Vec<SortCriterion>),
    /// Send SEARCH (or UID SEARCH) with the search criteria.
    Search,
    /// FETCH (or UID FETCH) these ids.
    Fetch(&'a Vec<u32>),
    /// Everything is fetched: call `finish`.
    Finish,
}

/// A listing in progress.
pub struct SortListing<V> {
    criteria: Vec<SortCriterion>,
    uid: bool,
    server_sort: bool,
    items: Vec<FetchItemName>,
    ids: Option<(Vec<u32>, Vec<Vec<u32>>)>,
    next: usize,
    fetched: HashMap<u32, (Vec<FetchItem>, V)>,
}

/// The items a listing fetches: those asked for with `UID` added for a UID
/// listing, and, when the client sorts, what each criterion needs.
pub open spec fn listing_items(
    asked: MacroOrFetchItemNames,
    uid: bool,
    server_sort: bool,
    criteria: Seq<SortCriterion>,
) -> Seq<FetchItemName> {
    let base = if uid {
        with_name(expanded(asked), FetchItemName::Uid)
    } else {
        expanded(asked)
    };
    if server_sort {
        base
    } else {
        with_sort_names(base, criteria)
    }
}

/// A listing fetches every item asked for, `UID` when it is by UID, and,
/// when the client sorts, the item it compares on under each criterion.
pub proof fn law_listing_items(
    asked: MacroOrFetchItemNames,
    uid: bool,
    server_sort: bool,
    criteria: Seq<SortCriterion>,
)
    ensures
        forall|x: FetchItemName|
            #[trigger] expanded(asked).contains(x) ==> listing_items(asked, uid, server_sort, criteria).contains(x),
        uid ==> listing_items(asked, uid, server_sort, criteria).contains(FetchItemName::Uid),
        !server_sort ==> forall|i: int, x: FetchItemName|
            0 <= i < criteria.len() && #[trigger] fetched_for(criteria[i].key, x)
                ==> listing_items(asked, uid, server_sort, criteria).contains(x),
{
    let e = expanded(asked);
    let base = if uid {
        with_name(e, FetchItemName::Uid)
    } else {
        e
    };
    let r = listing_items(asked, uid, server_sort, criteria);
    law_with_name(e, FetchItemName::Uid);
    law_sort_fetch_names(base, criteria);
    lemma_with_sort_names_covers(base, criteria);
    assert forall|x: FetchItemName| #[trigger] base.contains(x) implies r.contains(x) by {
        let k = choose|k: int| 0 <= k < base.len() && base[k] == x;
        if !server_sort {
            assert(r.take(base.len() as int)[k] == x);
        }
    }
    assert forall|x: FetchItemName| #[trigger] e.contains(x) implies base.contains(x) by {
        let k = choose|k: int| 0 <= k < e.len() && e[k] == x;
        if uid {
            assert(with_name(e, FetchItemName::Uid).take(e.len() as int)[k] == x);
        }
    }
    if uid {
        assert(base.contains(FetchItemName::Uid));
    }
}

impl<V> SortListing<V> {
    #[verifier::type_invariant]
    spec fn well_formed(self) -> bool {
        &&& self.ids is None ==> self.next == 0
        &&& self.ids matches Some((ids, chunks)) ==> {
            &&& self.next <= chunks@.len()
            &&& chunks@.len() == chunk_count(ids@.len())
            &&& forall|k: int| 0 <= k < chunks@.len() ==> #[trigger] chunks@[k]@ == chunk_of(ids@, k)
        }
    }

    pub closed spec fn criteria(self) -> Seq<SortCriterion> {
        self.criteria@
    }

    /// Whether the server sorts.
    pub closed spec fn server_sorts(self) -> bool {
        self.server_sort
    }

    /// Whether the listing is by UID.
    pub closed spec fn by_uid(self) -> bool {
        self.uid
    }

    /// The items each FETCH asks for.
    pub closed spec fn fetch_items(self) -> Seq<FetchItemName> {
        self.items@
    }

    /// The ids SORT or SEARCH gave, once given.
    pub closed spec fn found_ids(self) -> Option<Seq<u32>> {
        match self.ids {
            Some((v, _)) => Some(v@),
            None => None,
        }
    }

    /// How many groups of ids were fetched so far.
    pub closed spec fn fetched_groups(self) -> nat {
        self.next as nat
    }

    /// The messages fetched so far, by id.
    pub closed spec fn fetched(self) -> Map<u32, (Vec<FetchItem>, V)> {
        self.fetched@
    }

    /// Starts a listing for `client`'s server.
    pub fn new(client: &Client, criteria: Vec<SortCriterion>, items: MacroOrFetchItemNames, uid: bool) -> (r: Self)
        ensures
            r.criteria() == criteria@,
            r.by_uid() == uid,
            r.server_sorts() == announces(client.caps(), CapabilityKind::Sort),
            r.fetch_items() == listing_items(items, uid, r.server_sorts(), criteria@),
            r.found_ids() is None,
            r.fetched_groups() == 0,
            r.fetched() == Map::<u32, (Vec<FetchItem>, V)>::empty(),
    {
        let server_sort = client.ext_sort_supported();
        let base = listing_item_names(items, uid);
        let items = if server_sort {
            base
        } else {
            fallback_item_names(base, &criteria)
        };
        SortListing {
            criteria,
            uid,
            server_sort,
            items,
            ids: None,
            next: 0,
            fetched: HashMap::new(),
        }
    }

    /// The items each FETCH asks for.
    pub fn items(&self) -> (r: &Vec<FetchItemName>)
        ensures
            r@ == self.fetch_items(),
    {
        &self.items
    }

    /// What to do next: first SORT (server sorting) or SEARCH (client
    /// sorting); then FETCH of each group of at most 255 ids, in order;
    /// then finish.
    pub fn next_action(&self) -> (r: ListingAction<'_>)
        ensures
            self.found_ids() is None ==> (if self.server_sorts() {
                r matches ListingAction::Sort(c) && c@ == self.criteria()
            } else {
                r is Search
            }),
            self.found_ids() matches Some(ids) ==> (if self.fetched_groups() < chunk_count(
                ids.len(),
            ) {
                r matches ListingAction::Fetch(group) && group@ == chunk_of(
                    ids,
                    self.fetched_groups() as int,
                )
            } else {
                r is Finish
            }),
    {
        proof {
            use_type_invariant(self);
        }
        match &self.ids {
            None => {
                if self.server_sort {
                    ListingAction::Sort(&self.criteria)
                } else {
                    ListingAction::Search
                }
            },
            Some((_, chunks)) => {
                if self.next < chunks.len() {
                    ListingAction::Fetch(&chunks[self.next])
                } else {
                    ListingAction::Finish
                }
            },
        }
    }

    /// Takes the ids SORT or SEARCH answered with.
    pub fn on_ids(&mut self, ids: Vec<u32>)
        requires
            old(self).found_ids() is None,
        ensures
            final(self).found_ids() == Some(ids@),
            final(self).fetched_groups() == 0,
            final(self).criteria() == old(self).criteria(),
            final(self).server_sorts() == old(self).server_sorts(),
            final(self).by_uid() == old(self).by_uid(),
            final(self).fetch_items() == old(self).fetch_items(),
            final(self).fetched() == old(self).fetched(),
    {
        proof {
            use_type_invariant(&*self);
        }
        let chunks = chunk_ids(&ids);
        self.ids = Some((ids, chunks));
    }

    /// Takes what a FETCH of the current group gave, by id (UID for a UID
    /// listing); a message fetched under an id seen before replaces it.
    pub fn on_fetched(&mut self, messages: Vec<(u32, (Vec<FetchItem>, V))>)
        requires
            old(self).found_ids() matches Some(ids) && old(self).fetched_groups() < chunk_count(
                ids.len(),
            ),
        ensures
            final(self).fetched_groups() == old(self).fetched_groups() + 1,
            final(self).fetched() == inserted(old(self).fetched(), messages@),
            final(self).found_ids() == old(self).found_ids(),
            final(self).criteria() == old(self).criteria(),
            final(self).server_sorts() == old(self).server_sorts(),
            final(self).by_uid() == old(self).by_uid(),
            final(self).fetch_items() == old(self).fetch_items(),
    {
        proof {
            use_type_invariant(&*self);
        }
        let next = match &self.ids {
            Some((_, chunks)) => {
                let _count = chunks.len();
                self.next + 1
            },
            None => 0,
        };
        let mut fetched: HashMap<u32, (Vec<FetchItem>, V)> = HashMap::new();
        std::mem::swap(&mut fetched, &mut self.fetched);
        let ghost start = fetched@;
        for m in it: messages.into_iter()
            invariant
                it.seq() == messages@,
                fetched@ == inserted(start, messages@.take(it.index() as int)),
        {
            proof {
                let k = it.index() as int;
                assert(messages@.take(k + 1).drop_last() == messages@.take(k));
            }
            let (id, message) = m;
            fetched.insert(id, message);
        }
        assert(messages@.take(messages@.len() as int) == messages@);
        self.fetched = fetched;
        self.next = next;
    }

    /// The listing. When the server sorted: the fetched messages in its
    /// order. Otherwise: every fetched message once, sorted on the client
    /// under the criteria.
    pub fn finish(self) -> (r: Vec<(Vec<FetchItem>, V)>)
        requires
            self.found_ids() matches Some(ids) && self.fetched_groups() == chunk_count(ids.len()),
        ensures
            self.server_sorts() ==> r@ == in_id_order(self.found_ids()->0, self.fetched()),
            !self.server_sorts() ==> sorted_by(self.criteria(), r@) && exists|keys: Seq<u32>|
                #![trigger keys.to_set()]
                keys.no_duplicates() && keys.to_set() == self.fetched().dom() && r@.to_multiset()
                    == keys.map_values(|k: u32| self.fetched()[k]).to_multiset(),
    {
        proof {
            use_type_invariant(&self);
        }
        let SortListing { criteria, uid: _, server_sort, items: _, ids, next: _, fetched } = self;
        let ids = match ids {
            Some((ids, _)) => ids,
            None => Vec::new(),
        };
        if server_sort {
            order_by_ids(&ids, fetched)
        } else {
            let keys = map_keys(&fetched);
            proof {
                assert forall|i: int| 0 <= i < keys@.len() implies fetched@.contains_key(
                    #[trigger] keys@[i],
                ) by {
                    assert(keys@.to_set().contains(keys@[i]));
                }
                lemma_in_id_order_exact(keys@, fetched@);
            }
            let all = order_by_ids(&keys, fetched);
            sort_fetched(all, &criteria)
        }
    }
}

/// `m` with each `(id, message)` of `entries` inserted in turn.
pub open spec fn inserted<T>(m: Map<u32, T>, entries: Seq<(u32, T)>) -> Map<u32, T>
    decreases entries.len(),
{
    if entries.len() == 0 {
        m
    } else {
        inserted(m, entries.drop_last()).insert(entries.last().0, entries.last().1)
    }
}

/// The keys of a map, each once.
fn map_keys<T>(m: &HashMap<u32, T>) -> (r: Vec<u32>)
    ensures
        r@.no_duplicates(),
        r@.to_set() == m@.dom(),
{
    let ghost ks = vstd::std_specs::iter::IteratorSpec::remaining(&vstd::std_specs::hash::spec_keys_iter(m));
    let mut r: Vec<u32> = Vec::new();
    for k in it: m.keys()
        invariant
            it.seq() == ks,
            r@ == ks.take(it.index() as int).unref(),
    {
        proof {
            let i = it.index() as int;
            assert(ks.take(i + 1).unref() == ks.take(i).unref().push(*ks[i]));
        }
        r.push(*k);
    }
    assert(r@ == ks.unref());
    proof {
        assert forall|i: int, j: int| 0 <= i < j < r@.len() implies r@[i] != r@[j] by {
            assert(ks[i] != ks[j]);
        }
    }
    r
}

} // verus!
