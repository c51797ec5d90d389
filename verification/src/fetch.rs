//! FETCH: which message data items are asked for, what a fetched message's
//! items tell the client, and how fetched messages are regrouped.
use vstd::prelude::*;
use std::collections::HashMap;

verus! {

broadcast use vstd::std_specs::hash::group_hash_axioms;

/// The most message numbers (or UIDs) sent in one FETCH.
pub const MAX_SEQUENCE_SIZE: u8 = 255;

/// A FETCH macro.
#[derive(Debug, Clone, Copy, PartialEq, Eq, Structural)]
pub enum Macro {
    /// `(FLAGS INTERNALDATE RFC822.SIZE)`
    Fast,
    /// `(FLAGS INTERNALDATE RFC822.SIZE ENVELOPE)`
    All,
    /// `(FLAGS INTERNALDATE RFC822.SIZE ENVELOPE BODY)`
    Full,
}

/// The name of a message data item asked for in FETCH.
///
/// Items with parameters (a body section, a binary part, ...) are carried by
/// an index in `Other`, by which their owner finds them again.
#[derive(Debug, Clone, Copy, PartialEq, Eq, Structural)]
pub enum FetchItemName {
    Body,
    BodyStructure,
    Envelope,
    Flags,
    InternalDate,
    Rfc822,
    Rfc822Header,
    Rfc822Size,
    Rfc822Text,
    Uid,
    Other(u32),
}

/// Either a macro or a list of item names.
#[derive(Debug, Clone)]
pub enum MacroOrFetchItemNames {
    Macro(Macro),
    FetchItemNames(Vec<FetchItemName>),
}

/// The items a macro stands for.
pub open spec fn macro_items(m: Macro) -> Seq<FetchItemName> {
    match m {
        Macro::Fast => seq![FetchItemName::Flags, FetchItemName::InternalDate, FetchItemName::Rfc822Size],
        Macro::All => seq![
            FetchItemName::Flags,
            FetchItemName::InternalDate,
            FetchItemName::Rfc822Size,
            FetchItemName::Envelope,
        ],
        Macro::Full => seq![
            FetchItemName::Flags,
            FetchItemName::InternalDate,
            FetchItemName::Rfc822Size,
            FetchItemName::Envelope,
            FetchItemName::Body,
        ],
    }
}

/// Every macro asks for `FLAGS`, `INTERNALDATE` and `RFC822.SIZE` first;
/// `ALL` adds the envelope to `FAST`, and `FULL` adds the body to `ALL`.
pub proof fn law_macro_items(m: Macro)
    ensures
        macro_items(m).len() >= 3,
        macro_items(m).take(3) == seq![
            FetchItemName::Flags,
            FetchItemName::InternalDate,
            FetchItemName::Rfc822Size,
        ],
        macro_items(Macro::Fast).len() == 3,
        macro_items(Macro::All) == macro_items(Macro::Fast).push(FetchItemName::Envelope),
        macro_items(Macro::Full) == macro_items(Macro::All).push(FetchItemName::Body),
{
    assert(macro_items(m).take(3) =~= seq![
        FetchItemName::Flags,
        FetchItemName::InternalDate,
        FetchItemName::Rfc822Size,
    ]);
    assert(macro_items(Macro::All) =~= macro_items(Macro::Fast).push(FetchItemName::Envelope));
    assert(macro_items(Macro::Full) =~= macro_items(Macro::All).push(FetchItemName::Body));
}

impl Macro {
    /// The items the macro stands for.
    pub fn expand(&self) -> (r: Vec<FetchItemName>)
        ensures
            r@ == macro_items(*self),
    {
        let mut r: Vec<FetchItemName> = Vec::new();
        r.push(FetchItemName::Flags);
        r.push(FetchItemName::InternalDate);
        r.push(FetchItemName::Rfc822Size);
        match self {
            Macro::Fast => {},
            Macro::All => {
                r.push(FetchItemName::Envelope);
            },
            Macro::Full => {
                r.push(FetchItemName::Envelope);
                r.push(FetchItemName::Body);
            },
        }
        r
    }
}

/// The item names a macro or a list stands for.
pub open spec fn expanded(items: MacroOrFetchItemNames) -> Seq<FetchItemName> {
    match items {
        MacroOrFetchItemNames::Macro(m) => macro_items(m),
        MacroOrFetchItemNames::FetchItemNames(v) => v@,
    }
}

/// Expands a macro into its item names; a list is kept as it is.
pub fn expand_items(items: MacroOrFetchItemNames) -> (r: Vec<FetchItemName>)
    ensures
        r@ == expanded(items),
{
    match items {
        MacroOrFetchItemNames::Macro(m) => m.expand(),
        MacroOrFetchItemNames::FetchItemNames(v) => v,
    }
}

/// The items a FETCH asks for: the given ones and, for a UID FETCH, `UID`
/// at the end.
pub fn fetch_item_names(items: MacroOrFetchItemNames, uid: bool) -> (r: Vec<FetchItemName>)
    ensures
        r@ == (if uid {
            expanded(items).push(FetchItemName::Uid)
        } else {
            expanded(items)
        }),
{
    let mut r = expand_items(items);
    if uid {
        r.push(FetchItemName::Uid);
    }
    r
}

/// Whether `name` is in `names`.
pub fn contains_name(names: &Vec<FetchItemName>, name: FetchItemName) -> (r: bool)
    ensures
        r == names@.contains(name),
{
    let n = names.len();
    let mut i: usize = 0;
    while i < n
        invariant
            n == names@.len(),
            i <= n,
            forall|j: int| 0 <= j < i ==> names@[j] != name,
        decreases n - i,
    {
        if names[i] == name {
            return true;
        }
        i = i + 1;
    }
    false
}

/// `names` with `name` appended unless it is already there.
pub open spec fn with_name(names: Seq<FetchItemName>, name: FetchItemName) -> Seq<FetchItemName> {
    if names.contains(name) {
        names
    } else {
        names.push(name)
    }
}

/// Adding a name keeps the names there, in their order, and leaves the
/// name present; the list grows by at most that one name, and not at all
/// when it was present.
pub proof fn law_with_name(names: Seq<FetchItemName>, name: FetchItemName)
    ensures
        with_name(names, name).contains(name),
        names.is_prefix_of(with_name(names, name)),
        with_name(names, name).len() <= names.len() + 1,
        names.contains(name) ==> with_name(names, name).len() == names.len(),
{
    if !names.contains(name) {
        assert(names.push(name)[names.len() as int] == name);
    }
}

/// Appends `name` unless it is already there.
pub fn push_missing(names: &mut Vec<FetchItemName>, name: FetchItemName)
    ensures
        final(names)@ == with_name(old(names)@, name),
{
    if !contains_name(names, name) {
        names.push(name);
    }
}

/// The items a sorted listing fetches: the given ones, with `UID` added
/// for a UID listing when it is not asked for already.
pub fn listing_item_names(items: MacroOrFetchItemNames, uid: bool) -> (r: Vec<FetchItemName>)
    ensures
        r@ == (if uid {
            with_name(expanded(items), FetchItemName::Uid)
        } else {
            expanded(items)
        }),
{
    let mut r = expand_items(items);
    if uid {
        push_missing(&mut r, FetchItemName::Uid);
    }
    r
}

/// A message data item of a FETCH answer, as far as the client reads it.
///
/// An `INTERNALDATE` is kept as the instant it names: seconds since the
/// epoch and the nanoseconds beyond them.
#[derive(Debug, Clone)]
pub enum FetchItem {
    Uid(u32),
    InternalDate { secs: i64, nanos: u32 },
    Envelope { date: Option<Vec<u8>>, subject: Option<Vec<u8>> },
    Rfc822Size(u32),
    Other,
}

/// The first `UID` item among `items`.
pub open spec fn first_uid(items: Seq<FetchItem>) -> Option<u32>
    decreases items.len(),
{
    if items.len() == 0 {
        None
    } else {
        match items[0] {
            FetchItem::Uid(u) => Some(u),
            _ => first_uid(items.drop_first()),
        }
    }
}

/// The UID of a message is that of its first `UID` item, wherever it
/// stands among the items; a message has none only when no item is a `UID`.
pub proof fn law_first_uid_item(items: Seq<FetchItem>, k: int)
    ensures
        0 <= k < items.len() && items[k] is Uid && (forall|j: int|
            0 <= j < k ==> !(#[trigger] items[j] is Uid)) ==> first_uid(items) == Some(
            items[k]->Uid_0,
        ),
        first_uid(items) is None <==> forall|j: int| 0 <= j < items.len() ==> !(#[trigger] items[j] is Uid),
    decreases items.len(),
{
    if items.len() > 0 {
        let rest = items.drop_first();
        law_first_uid_item(rest, k - 1);
        if 0 <= k < items.len() && items[k] is Uid && (forall|j: int|
            0 <= j < k ==> !(#[trigger] items[j] is Uid)) && k > 0 {
            assert(!(items[0] is Uid));
            assert forall|j: int| 0 <= j < k - 1 implies !(#[trigger] rest[j] is Uid) by {
                assert(rest[j] == items[j + 1]);
            }
            assert(rest[k - 1] == items[k]);
        }
        if first_uid(items) is None {
            assert forall|j: int| 0 <= j < items.len() implies !(#[trigger] items[j] is Uid) by {
                if j > 0 {
                    assert(items[j] == rest[j - 1]);
                }
            }
        }
        if forall|j: int| 0 <= j < items.len() ==> !(#[trigger] items[j] is Uid) {
            assert forall|j: int| 0 <= j < rest.len() implies !(#[trigger] rest[j] is Uid) by {
                assert(rest[j] == items[j + 1]);
            }
        }
    }
}

/// The UID of a fetched message: the first `UID` item it carries.
pub fn message_uid(items: &Vec<FetchItem>) -> (r: Option<u32>)
    ensures
        r == first_uid(items@),
{
    let n = items.len();
    let mut i: usize = 0;
    assert(items@.skip(0) == items@);
    while i < n
        invariant
            n == items@.len(),
            i <= n,
            first_uid(items@) == first_uid(items@.skip(i as int)),
        decreases n - i,
    {
        assert(items@.skip(i as int).drop_first() == items@.skip(i + 1));
        if let FetchItem::Uid(u) = &items[i] {
            return Some(*u);
        }
        i = i + 1;
    }
    None
}

/// Messages keyed by UID: each message with a UID goes under it, a later
/// one replacing an earlier one of the same UID; messages without one are
/// left out.
pub open spec fn by_uid<V>(entries: Seq<(Vec<FetchItem>, V)>) -> Map<u32, V>
    decreases entries.len(),
{
    if entries.len() == 0 {
        Map::empty()
    } else {
        let m = by_uid(entries.drop_last());
        match first_uid(entries.last().0@) {
            Some(u) => m.insert(u, entries.last().1),
            None => m,
        }
    }
}

/// Regroups fetched messages (their items, and what the caller keeps of
/// each) by their UIDs.
pub fn uid_map<V>(entries: Vec<(Vec<FetchItem>, V)>) -> (r: HashMap<u32, V>)
    ensures
        r@ == by_uid(entries@),
{
    let ghost all = entries@;
    let mut r: HashMap<u32, V> = HashMap::new();
    for e in it: entries.into_iter()
        invariant
            it.seq() == all,
            r@ == by_uid(all.take(it.index() as int)),
    {
        proof {
            let k = it.index() as int;
            assert(all.take(k + 1).drop_last() == all.take(k));
        }
        let (items, v) = e;
        match message_uid(&items) {
            Some(u) => {
                r.insert(u, v);
            },
            None => {},
        }
    }
    assert(all.take(all.len() as int) == all);
    r
}

/// The `k`-th group of at most [`MAX_SEQUENCE_SIZE`] consecutive ids.
pub open spec fn chunk_of(ids: Seq<u32>, k: int) -> Seq<u32> {
    let start = 255 * k;
    let end = if start + 255 < ids.len() { start + 255 } else { ids.len() as int };
    ids.subrange(start, end)
}

/// How many groups `chunk_ids` makes of `n` ids.
pub open spec fn chunk_count(n: nat) -> nat {
    (n + 254) / 255
}

/// Every group holds at least one id and at most [`MAX_SEQUENCE_SIZE`], and
/// every group but the last holds exactly that many.
pub proof fn law_chunk_sizes(ids: Seq<u32>, k: int)
    ensures
        0 <= k < chunk_count(ids.len()) ==> 0 < chunk_of(ids, k).len() <= 255,
        0 <= k && k + 1 < chunk_count(ids.len()) ==> chunk_of(ids, k).len() == 255,
{
    let n = ids.len();
    if 0 <= k < chunk_count(n) {
        assert(255 * k < n) by (nonlinear_arith)
            requires
                0 <= k < (n + 254) / 255,
        ;
    }
    if 0 <= k && k + 1 < chunk_count(n) {
        assert(255 * k + 255 < n) by (nonlinear_arith)
            requires
                0 <= k,
                k + 1 < (n + 254) / 255,
        ;
    }
}

/// Splits ids into consecutive groups of [`MAX_SEQUENCE_SIZE`], the last one
/// holding what is left; no ids, no group.
pub fn chunk_ids(ids: &Vec<u32>) -> (r: Vec<Vec<u32>>)
    ensures
        r@.len() == chunk_count(ids@.len()),
        forall|k: int| 0 <= k < r@.len() ==> #[trigger] r@[k]@ == chunk_of(ids@, k),
{
    let n = ids.len();
    let size: usize = MAX_SEQUENCE_SIZE as usize;
    let mut r: Vec<Vec<u32>> = Vec::new();
    let mut i: usize = 0;
    while i < n
        invariant
            n == ids@.len(),
            size == 255,
            i <= n,
            i < n ==> i == 255 * r@.len(),
            i == n ==> 255 * r@.len() >= n,
            r@.len() > 0 ==> 255 * (r@.len() - 1) < n,
            forall|k: int| 0 <= k < r@.len() ==> #[trigger] r@[k]@ == chunk_of(ids@, k),
        decreases n - i,
    {
        let end: usize = if n - i > size { i + size } else { n };
        let mut chunk: Vec<u32> = Vec::new();
        let mut j: usize = i;
        while j < end
            invariant
                n == ids@.len(),
                i <= j <= end <= n,
                chunk@ == ids@.subrange(i as int, j as int),
            decreases end - j,
        {
            chunk.push(ids[j]);
            j = j + 1;
        }
        assert(chunk@ == chunk_of(ids@, r@.len() as int));
        r.push(chunk);
        i = end;
    }
    let ghost len = r@.len();
    assert(len == chunk_count(n as nat)) by (nonlinear_arith)
        requires
            255 * len >= n,
            len > 0 ==> 255 * (len - 1) < n,
    ;
    r
}

/// The messages in the order of `ids`: for each id, the message fetched
/// under it, once; ids with no message, or seen before, give nothing.
pub open spec fn in_id_order<V>(ids: Seq<u32>, fetched: Map<u32, V>) -> Seq<V>
    decreases ids.len(),
{
    if ids.len() == 0 {
        Seq::empty()
    } else if fetched.contains_key(ids[0]) {
        seq![fetched[ids[0]]] + in_id_order(ids.drop_first(), fetched.remove(ids[0]))
    } else {
        in_id_order(ids.drop_first(), fetched)
    }
}

/// Putting messages in the order of the ids gives, for each id in turn, the
/// message fetched under it the first time the id comes; an id seen before,
/// or with no message, gives nothing.
pub proof fn law_in_id_order_push<V>(ids: Seq<u32>, id: u32, fetched: Map<u32, V>)
    ensures
        in_id_order(Seq::<u32>::empty(), fetched) == Seq::<V>::empty(),
        in_id_order(ids.push(id), fetched) == in_id_order(ids, fetched) + (if !ids.contains(id)
            && fetched.contains_key(id) {
            seq![fetched[id]]
        } else {
            Seq::<V>::empty()
        }),
    decreases ids.len(),
{
    let t = ids.push(id);
    if ids.len() == 0 {
        assert(t.drop_first() =~= Seq::<u32>::empty());
        assert(!ids.contains(id));
        assert(t[0] == id);
        if fetched.contains_key(id) {
            assert(in_id_order(t, fetched) =~= seq![fetched[id]] + in_id_order(
                Seq::<u32>::empty(),
                fetched.remove(id),
            ));
        }
        assert(in_id_order(ids, fetched) =~= Seq::<V>::empty());
        if fetched.contains_key(id) {
            assert(in_id_order(t, fetched) =~= in_id_order(ids, fetched) + seq![fetched[id]]);
        } else {
            assert(in_id_order(t, fetched) == in_id_order(t.drop_first(), fetched));
            assert(in_id_order(Seq::<u32>::empty(), fetched) =~= Seq::<V>::empty());
            assert(in_id_order(t, fetched) =~= in_id_order(ids, fetched) + Seq::<V>::empty());
        }
    } else {
        let x = ids[0];
        let rest = ids.drop_first();
        assert(t[0] == x);
        assert(t.drop_first() =~= rest.push(id));
        assert(ids.contains(id) == (x == id || rest.contains(id))) by {
            if ids.contains(id) && x != id {
                let k = choose|k: int| 0 <= k < ids.len() && ids[k] == id;
                assert(rest[k - 1] == id);
            }
            if rest.contains(id) {
                let k = choose|k: int| 0 <= k < rest.len() && rest[k] == id;
                assert(ids[k + 1] == id);
            }
        }
        let tail = if !ids.contains(id) && fetched.contains_key(id) {
            seq![fetched[id]]
        } else {
            Seq::<V>::empty()
        };
        if fetched.contains_key(x) {
            let m = fetched.remove(x);
            law_in_id_order_push(rest, id, m);
            let tail1 = if !rest.contains(id) && m.contains_key(id) {
                seq![m[id]]
            } else {
                Seq::<V>::empty()
            };
            assert(tail1 == tail);
            assert(in_id_order(t, fetched) == seq![fetched[x]] + in_id_order(rest.push(id), m));
            assert(in_id_order(ids, fetched) == seq![fetched[x]] + in_id_order(rest, m));
            assert(seq![fetched[x]] + (in_id_order(rest, m) + tail) =~= (seq![fetched[x]]
                + in_id_order(rest, m)) + tail);
            assert(in_id_order(t, fetched) == in_id_order(ids, fetched) + tail);
        } else {
            law_in_id_order_push(rest, id, fetched);
            assert(in_id_order(t, fetched) == in_id_order(rest.push(id), fetched));
            assert(in_id_order(ids, fetched) == in_id_order(rest, fetched));
            assert(in_id_order(t, fetched) == in_id_order(ids, fetched) + tail);
        }
    }
}

/// Puts fetched messages in the order the server sorted their ids.
pub fn order_by_ids<V>(ids: &Vec<u32>, fetched: HashMap<u32, V>) -> (r: Vec<V>)
    ensures
        r@ == in_id_order(ids@, fetched@),
{
    let ghost initial = fetched@;
    let mut fetched = fetched;
    let mut r: Vec<V> = Vec::new();
    let n = ids.len();
    let mut i: usize = 0;
    assert(ids@.skip(0) == ids@);
    while i < n
        invariant
            n == ids@.len(),
            i <= n,
            r@ + in_id_order(ids@.skip(i as int), fetched@) == in_id_order(ids@, initial),
        decreases n - i,
    {
        let id = ids[i];
        proof {
            assert(ids@.skip(i as int)[0] == id);
            assert(ids@.skip(i as int).drop_first() == ids@.skip(i + 1));
        }
        let ghost before = fetched@;
        let ghost r_before = r@;
        match fetched.remove(&id) {
            Some(v) => {
                r.push(v);
                proof {
                    let rest = in_id_order(ids@.skip(i + 1), fetched@);
                    assert(in_id_order(ids@.skip(i as int), before) == seq![v] + rest);
                    assert(r@ + rest == r_before + (seq![v] + rest));
                }
            },
            None => {
                proof {
                    assert(fetched@ == before);
                }
            },
        }
        i = i + 1;
    }
    assert(ids@.skip(n as int) == Seq::<u32>::empty());
    r
}

/// The groups concatenated from the `k`-th on.
pub open spec fn chunks_from(ids: Seq<u32>, k: nat) -> Seq<u32>
    decreases chunk_count(ids.len()) - k,
{
    if k >= chunk_count(ids.len()) {
        Seq::empty()
    } else {
        chunk_of(ids, k as int) + chunks_from(ids, k + 1)
    }
}

/// Splitting into groups loses and reorders nothing: the groups, one after
/// the other, are the ids.
pub proof fn lemma_chunks_concat(ids: Seq<u32>)
    ensures
        chunks_from(ids, 0) == ids,
{
    lemma_chunks_from(ids, 0);
    assert(ids.skip(0) == ids);
}

proof fn lemma_chunks_from(ids: Seq<u32>, k: nat)
    requires
        255 * k <= ids.len(),
    ensures
        chunks_from(ids, k) == ids.skip((255 * k) as int),
    decreases chunk_count(ids.len()) - k,
{
    let n = ids.len();
    if k >= chunk_count(n) {
        assert(255 * k >= n) by (nonlinear_arith)
            requires
                k >= (n + 254) / 255,
        ;
        assert(ids.skip((255 * k) as int) =~= Seq::<u32>::empty());
    } else {
        assert(255 * k < n) by (nonlinear_arith)
            requires
                k < (n + 254) / 255,
        ;
        if 255 * k + 255 < n {
            lemma_chunks_from(ids, k + 1);
            assert(ids.skip((255 * k) as int) =~= chunk_of(ids, k as int) + ids.skip((255 * (k + 1)) as int));
        } else {
            assert(chunk_count(n) == k + 1) by (nonlinear_arith)
                requires
                    255 * k < n,
                    n <= 255 * k + 255,
            ;
            assert(chunks_from(ids, k + 1) == Seq::<u32>::empty());
            assert(ids.skip((255 * k) as int) =~= chunk_of(ids, k as int));
        }
    }
}

/// Regrouping by UID is sound and complete: every UID in the map is the UID
/// of a message it came from, and holds the last such message; every
/// message with a UID is represented under it.
pub proof fn lemma_by_uid<V>(entries: Seq<(Vec<FetchItem>, V)>)
    ensures
        forall|u: u32| #[trigger]
            by_uid(entries).contains_key(u) ==> exists|i: int|
                0 <= i < entries.len() && first_uid(entries[i].0@) == Some(u) && by_uid(entries)[u]
                    == entries[i].1 && (forall|j: int|
                    i < j < entries.len() ==> first_uid(#[trigger] entries[j].0@) != Some(u)),
        forall|i: int|
            0 <= i < entries.len() && first_uid(#[trigger] entries[i].0@) is Some
                ==> by_uid(entries).contains_key(first_uid(entries[i].0@)->0),
    decreases entries.len(),
{
    if entries.len() > 0 {
        let init = entries.drop_last();
        lemma_by_uid(init);
        let last = entries.last();
        assert forall|u: u32| #[trigger]
            by_uid(entries).contains_key(u) implies exists|i: int|
                0 <= i < entries.len() && first_uid(entries[i].0@) == Some(u) && by_uid(entries)[u]
                    == entries[i].1 && (forall|j: int|
                    i < j < entries.len() ==> first_uid(#[trigger] entries[j].0@) != Some(u)) by {
            if first_uid(last.0@) == Some(u) {
                let i = entries.len() - 1;
                assert(first_uid(entries[i].0@) == Some(u));
            } else {
                assert(by_uid(init).contains_key(u));
                let i = choose|i: int|
                    0 <= i < init.len() && first_uid(init[i].0@) == Some(u) && by_uid(init)[u]
                        == init[i].1 && (forall|j: int|
                        i < j < init.len() ==> first_uid(#[trigger] init[j].0@) != Some(u));
                assert(entries[i] == init[i]);
                assert forall|j: int| i < j < entries.len() implies first_uid(
                    #[trigger] entries[j].0@,
                ) != Some(u) by {
                    if j < init.len() {
                        assert(entries[j] == init[j]);
                    }
                }
            }
        }
        assert forall|i: int|
            0 <= i < entries.len() && first_uid(#[trigger] entries[i].0@) is Some implies by_uid(
                entries,
            ).contains_key(first_uid(entries[i].0@)->0) by {
            if i < init.len() {
                assert(entries[i] == init[i]);
            }
        }
    }
}

/// When the ids name distinct messages that were all fetched, the messages
/// come out exactly in the order of the ids.
pub proof fn lemma_in_id_order_exact<V>(ids: Seq<u32>, fetched: Map<u32, V>)
    requires
        ids.no_duplicates(),
        forall|i: int| 0 <= i < ids.len() ==> fetched.contains_key(#[trigger] ids[i]),
    ensures
        in_id_order(ids, fetched) == ids.map_values(|id: u32| fetched[id]),
    decreases ids.len(),
{
    if ids.len() > 0 {
        let rest = ids.drop_first();
        let m = fetched.remove(ids[0]);
        assert forall|i: int| 0 <= i < rest.len() implies m.contains_key(#[trigger] rest[i]) by {
            assert(rest[i] == ids[i + 1]);
        }
        lemma_in_id_order_exact(rest, m);
        assert(rest.map_values(|id: u32| m[id]) =~= rest.map_values(|id: u32| fetched[id])) by {
            assert forall|i: int| 0 <= i < rest.len() implies m[rest[i]] == fetched[rest[i]] by {
                assert(rest[i] == ids[i + 1]);
            }
        }
        assert(ids.map_values(|id: u32| fetched[id]) =~= seq![fetched[ids[0]]] + rest.map_values(
            |id: u32| fetched[id],
        ));
    }
}

} // verus!
