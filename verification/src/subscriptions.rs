use vstd::prelude::*;
use vstd::string::*;
use crate::feed::{DataType, data_type_of, feed_type_of, key_of, subscription_key};
use crate::symbols::{SymbolChangeEvent, SymbolDataType, opt_string_view};
use crate::text::str_eq;

verus! {

/// Map given by an association list of keys and data types; a later entry for
/// a key overrides an earlier one.
pub open spec fn table_map(s: Seq<(String, DataType)>) -> Map<Seq<char>, DataType>
    decreases s.len(),
{
    if s.len() == 0 {
        Map::empty()
    } else {
        table_map(s.drop_last()).insert(s.last().0@, s.last().1)
    }
}

pub open spec fn unique_keys(s: Seq<(String, DataType)>) -> bool {
    forall|i: int, j: int| 0 <= i < j < s.len() ==> (#[trigger] s[i]).0@ != (#[trigger] s[j]).0@
}

proof fn lemma_table_domain(s: Seq<(String, DataType)>, k: Seq<char>)
    ensures
        table_map(s).dom().contains(k) <==> exists|i: int| 0 <= i < s.len() && (#[trigger] s[i]).0@ == k,
    decreases s.len(),
{
    if s.len() > 0 {
        lemma_table_domain(s.drop_last(), k);
        if table_map(s).dom().contains(k) && s.last().0@ != k {
            let i = choose|i: int| 0 <= i < s.drop_last().len() && (#[trigger] s.drop_last()[i]).0@ == k;
            assert(s[i].0@ == k);
        }
        if exists|i: int| 0 <= i < s.len() && (#[trigger] s[i]).0@ == k {
            let i = choose|i: int| 0 <= i < s.len() && (#[trigger] s[i]).0@ == k;
            if i < s.len() - 1 {
                assert(s.drop_last()[i].0@ == k);
            }
        }
    }
}

proof fn lemma_table_value(s: Seq<(String, DataType)>, i: int)
    requires
        unique_keys(s),
        0 <= i < s.len(),
    ensures
        table_map(s).dom().contains(s[i].0@),
        table_map(s)[s[i].0@] == s[i].1,
    decreases s.len(),
{
    if i < s.len() - 1 {
        lemma_table_value(s.drop_last(), i);
    }
}

proof fn lemma_table_update(s: Seq<(String, DataType)>, i: int, e: (String, DataType))
    requires
        unique_keys(s),
        0 <= i < s.len(),
        s[i].0@ == e.0@,
    ensures
        table_map(s.update(i, e)) == table_map(s).insert(e.0@, e.1),
    decreases s.len(),
{
    let t = s.update(i, e);
    if i == s.len() - 1 {
        assert(t.drop_last() =~= s.drop_last());
        assert(table_map(t) =~= table_map(s).insert(e.0@, e.1));
    } else {
        assert(t.drop_last() =~= s.drop_last().update(i, e));
        lemma_table_update(s.drop_last(), i, e);
        assert(table_map(t) =~= table_map(s).insert(e.0@, e.1));
    }
}

proof fn lemma_table_remove(s: Seq<(String, DataType)>, i: int)
    requires
        unique_keys(s),
        0 <= i < s.len(),
    ensures
        table_map(s.remove(i)) == table_map(s).remove(s[i].0@),
    decreases s.len(),
{
    let k = s[i].0@;
    let t = s.remove(i);
    if i == s.len() - 1 {
        assert(t =~= s.drop_last());
        lemma_table_domain(s.drop_last(), k);
        assert(!table_map(s.drop_last()).dom().contains(k));
        assert(table_map(t) =~= table_map(s).remove(k));
    } else {
        assert(t.drop_last() =~= s.drop_last().remove(i));
        assert(t.last() == s.last());
        lemma_table_remove(s.drop_last(), i);
        assert(s.last().0@ != k);
        assert(table_map(t) =~= table_map(s).remove(k));
    }
}

/// Keys (data-type prefix followed by symbol) of the active subscriptions,
/// each with its data type.
pub struct SubscriptionTable {
    entries: Vec<(String, DataType)>,
}

impl SubscriptionTable {
    /// No key is recorded twice.
    #[verifier::type_invariant]
    closed spec fn wf(&self) -> bool {
        unique_keys(self.entries@)
    }

    /// The subscriptions as a map from key to data type.
    pub closed spec fn view_map(&self) -> Map<Seq<char>, DataType> {
        table_map(self.entries@)
    }

    /// An empty table.
    pub fn new() -> (res: SubscriptionTable)
        ensures
            res.view_map() == Map::<Seq<char>, DataType>::empty(),
    {
        SubscriptionTable { entries: Vec::new() }
    }

    fn find(&self, key: &str) -> (res: Option<usize>)
        ensures
            match res {
                Some(i) => i < self.entries@.len() && self.entries@[i as int].0@ == key@,
                None => !self.view_map().dom().contains(key@),
            },
    {
        let mut i: usize = 0;
        while i < self.entries.len()
            invariant
                i <= self.entries@.len(),
                forall|j: int| 0 <= j < i ==> (#[trigger] self.entries@[j]).0@ != key@,
            decreases self.entries@.len() - i,
        {
            if str_eq(self.entries[i].0.as_str(), key) {
                return Some(i);
            }
            i = i + 1;
        }
        proof {
            lemma_table_domain(self.entries@, key@);
        }
        None
    }

    /// Whether `key` is present.
    pub fn contains_key(&self, key: &str) -> (res: bool)
        ensures
            res == self.view_map().dom().contains(key@),
    {
        proof {
            use_type_invariant(self);
        }
        match self.find(key) {
            Some(i) => {
                proof {
                    lemma_table_value(self.entries@, i as int);
                }
                true
            },
            None => false,
        }
    }

    /// The data type recorded for `key`, if any.
    pub fn get(&self, key: &str) -> (res: Option<DataType>)
        ensures
            match res {
                Some(t) => self.view_map().dom().contains(key@) && self.view_map()[key@] == t,
                None => !self.view_map().dom().contains(key@),
            },
    {
        proof {
            use_type_invariant(self);
        }
        match self.find(key) {
            Some(i) => {
                proof {
                    lemma_table_value(self.entries@, i as int);
                }
                Some(self.entries[i].1)
            },
            None => None,
        }
    }

    /// Records `key` with data type `t`, replacing any earlier record.
    pub fn insert(&mut self, key: String, t: DataType)
        ensures
            final(self).view_map() == old(self).view_map().insert(key@, t),
    {
        proof {
            use_type_invariant(&*self);
        }
        let found = self.find(key.as_str());
        let mut entries: Vec<(String, DataType)> = Vec::new();
        std::mem::swap(&mut entries, &mut self.entries);
        let ghost before = entries@;
        match found {
            Some(i) => {
                proof {
                    lemma_table_update(before, i as int, (key, t));
                }
                entries.set(i, (key, t));
            },
            None => {
                proof {
                    lemma_table_domain(before, key@);
                }
                entries.push((key, t));
                assert(entries@.drop_last() =~= before);
            },
        }
        self.entries = entries;
    }

    /// Removes `key`; returns the data type it had, if it was present.
    pub fn remove(&mut self, key: &str) -> (res: Option<DataType>)
        ensures
            final(self).view_map() == old(self).view_map().remove(key@),
            match res {
                Some(t) => old(self).view_map().dom().contains(key@) && old(self).view_map()[key@] == t,
                None => !old(self).view_map().dom().contains(key@),
            },
    {
        proof {
            use_type_invariant(&*self);
        }
        match self.find(key) {
            Some(i) => {
                let mut entries: Vec<(String, DataType)> = Vec::new();
                std::mem::swap(&mut entries, &mut self.entries);
                let ghost before = entries@;
                proof {
                    lemma_table_value(before, i as int);
                    lemma_table_remove(before, i as int);
                }
                let (_, t) = entries.remove(i);
                assert(forall|a: int, b: int|
                    0 <= a < b < entries@.len() ==> entries@[a] == before[if a < i { a } else { a + 1 }]
                        && entries@[b] == before[if b < i { b } else { b + 1 }]);
                self.entries = entries;
                Some(t)
            },
            None => {
                assert(self.view_map() =~= self.view_map().remove(key@));
                None
            },
        }
    }

    /// Snapshot of the entries, each key exactly once.
    pub fn entries(&self) -> (res: Vec<(String, DataType)>)
        ensures
            unique_keys(res@),
            table_map(res@) == self.view_map(),
    {
        proof {
            use_type_invariant(self);
        }
        let mut r: Vec<(String, DataType)> = Vec::new();
        let mut i: usize = 0;
        while i < self.entries.len()
            invariant
                i <= self.entries@.len(),
                unique_keys(self.entries@),
                r@.len() == i,
                forall|j: int| 0 <= j < i ==> (#[trigger] r@[j]).0@ == self.entries@[j].0@ && r@[j].1
                    == self.entries@[j].1,
                table_map(r@) == table_map(self.entries@.take(i as int)),
            decreases self.entries@.len() - i,
        {
            let k = self.entries[i].0.clone();
            let t = self.entries[i].1;
            let ghost before = r@;
            r.push((k, t));
            assert(r@.drop_last() =~= before);
            assert(self.entries@.take(i + 1).drop_last() =~= self.entries@.take(i as int));
            i = i + 1;
        }
        assert(self.entries@.take(self.entries@.len() as int) =~= self.entries@);
        r
    }

    /// Subscribes to `data_type` for `symbol`.
    pub fn subscribe(&mut self, symbol: &str, data_type: DataType)
        ensures
            final(self).view_map() == old(self).view_map().insert(key_of(symbol@, data_type), data_type),
    {
        let key = subscription_key(symbol, data_type);
        self.insert(key, data_type);
    }

    /// Drops the subscription to `data_type` for `symbol`, if any.
    pub fn unsubscribe(&mut self, symbol: &str, data_type: DataType)
        ensures
            final(self).view_map() == old(self).view_map().remove(key_of(symbol@, data_type)),
    {
        let key = subscription_key(symbol, data_type);
        let _ = self.remove(key.as_str());
    }

    /// Whether `symbol` is subscribed for `data_type`.
    pub fn is_subscribed(&self, symbol: &str, data_type: DataType) -> (res: bool)
        ensures
            res == self.view_map().dom().contains(key_of(symbol@, data_type)),
    {
        let key = subscription_key(symbol, data_type);
        self.contains_key(key.as_str())
    }
}


/// `m` with the subscription of `symbol` to each of `types` dropped, in order.
pub open spec fn drop_types(m: Map<Seq<char>, DataType>, symbol: Seq<char>, types: Seq<SymbolDataType>) -> Map<
    Seq<char>,
    DataType,
>
    decreases types.len(),
{
    if types.len() == 0 {
        m
    } else {
        drop_types(m, symbol, types.drop_last()).remove(key_of(symbol, feed_type_of(types.last())))
    }
}

/// `m` with `symbol` subscribed to each of `types`, in order; a key already
/// present is left as it is.
pub open spec fn take_types(m: Map<Seq<char>, DataType>, symbol: Seq<char>, types: Seq<SymbolDataType>) -> Map<
    Seq<char>,
    DataType,
>
    decreases types.len(),
{
    if types.len() == 0 {
        m
    } else {
        let prev = take_types(m, symbol, types.drop_last());
        let t = feed_type_of(types.last());
        if prev.dom().contains(key_of(symbol, t)) {
            prev
        } else {
            prev.insert(key_of(symbol, t), t)
        }
    }
}

/// The subscriptions after a symbol change: the event's data types are
/// dropped for the old symbol, then taken for the new one.
pub open spec fn after_symbol_change(
    m: Map<Seq<char>, DataType>,
    old_symbol: Option<Seq<char>>,
    new_symbol: Option<Seq<char>>,
    types: Seq<SymbolDataType>,
) -> Map<Seq<char>, DataType> {
    let dropped = match old_symbol {
        Some(s) => drop_types(m, s, types),
        None => m,
    };
    match new_symbol {
        Some(s) => take_types(dropped, s, types),
        None => dropped,
    }
}

proof fn lemma_drop_types(m: Map<Seq<char>, DataType>, symbol: Seq<char>, types: Seq<SymbolDataType>, k: Seq<char>)
    ensures
        (exists|i: int| 0 <= i < types.len() && k == key_of(symbol, feed_type_of(#[trigger] types[i])))
            ==> !drop_types(m, symbol, types).dom().contains(k),
        (forall|i: int| 0 <= i < types.len() ==> k != key_of(symbol, feed_type_of(#[trigger] types[i])))
            ==> (drop_types(m, symbol, types).dom().contains(k) == m.dom().contains(k)),
    decreases types.len(),
{
    if types.len() > 0 {
        let init = types.drop_last();
        lemma_drop_types(m, symbol, init, k);
        if exists|i: int| 0 <= i < types.len() && k == key_of(symbol, feed_type_of(#[trigger] types[i])) {
            let i = choose|i: int| 0 <= i < types.len() && k == key_of(symbol, feed_type_of(#[trigger] types[i]));
            if i < types.len() - 1 {
                assert(init[i] == types[i]);
            }
        }
        if forall|i: int| 0 <= i < types.len() ==> k != key_of(symbol, feed_type_of(#[trigger] types[i])) {
            assert forall|i: int| 0 <= i < init.len() implies k != key_of(symbol, feed_type_of(#[trigger] init[i])) by {
                assert(init[i] == types[i]);
            }
            assert(k != key_of(symbol, feed_type_of(types[types.len() - 1])));
        }
    }
}

proof fn lemma_take_types(m: Map<Seq<char>, DataType>, symbol: Seq<char>, types: Seq<SymbolDataType>, k: Seq<char>)
    ensures
        (exists|i: int| 0 <= i < types.len() && k == key_of(symbol, feed_type_of(#[trigger] types[i])))
            ==> take_types(m, symbol, types).dom().contains(k),
        (forall|i: int| 0 <= i < types.len() ==> k != key_of(symbol, feed_type_of(#[trigger] types[i])))
            ==> (take_types(m, symbol, types).dom().contains(k) == m.dom().contains(k)),
    decreases types.len(),
{
    if types.len() > 0 {
        let init = types.drop_last();
        lemma_take_types(m, symbol, init, k);
        if exists|i: int| 0 <= i < types.len() && k == key_of(symbol, feed_type_of(#[trigger] types[i])) {
            let i = choose|i: int| 0 <= i < types.len() && k == key_of(symbol, feed_type_of(#[trigger] types[i]));
            if i < types.len() - 1 {
                assert(init[i] == types[i]);
            }
        }
        if forall|i: int| 0 <= i < types.len() ==> k != key_of(symbol, feed_type_of(#[trigger] types[i])) {
            assert forall|i: int| 0 <= i < init.len() implies k != key_of(symbol, feed_type_of(#[trigger] init[i])) by {
                assert(init[i] == types[i]);
            }
            assert(k != key_of(symbol, feed_type_of(types[types.len() - 1])));
        }
    }
}

/// After a change from `old_symbol` to a different `new_symbol`, the new
/// symbol is subscribed to every data type of the change and the old one to
/// none of them.
pub proof fn lemma_symbol_change_moves_subscriptions(
    m: Map<Seq<char>, DataType>,
    old_symbol: Seq<char>,
    new_symbol: Seq<char>,
    types: Seq<SymbolDataType>,
)
    requires
        old_symbol != new_symbol,
    ensures
        forall|i: int|
            0 <= i < types.len() ==> after_symbol_change(m, Some(old_symbol), Some(new_symbol), types).dom().contains(
                key_of(new_symbol, feed_type_of(#[trigger] types[i])),
            ),
        forall|i: int|
            0 <= i < types.len() ==> !after_symbol_change(m, Some(old_symbol), Some(new_symbol), types).dom().contains(
                key_of(old_symbol, feed_type_of(#[trigger] types[i])),
            ),
{
    let dropped = drop_types(m, old_symbol, types);
    assert forall|i: int| 0 <= i < types.len() implies after_symbol_change(m, Some(old_symbol), Some(new_symbol), types).dom().contains(
        key_of(new_symbol, feed_type_of(#[trigger] types[i])),
    ) by {
        lemma_take_types(dropped, new_symbol, types, key_of(new_symbol, feed_type_of(types[i])));
    }
    assert forall|i: int| 0 <= i < types.len() implies !after_symbol_change(m, Some(old_symbol), Some(new_symbol), types).dom().contains(
        key_of(old_symbol, feed_type_of(#[trigger] types[i])),
    ) by {
        let k = key_of(old_symbol, feed_type_of(types[i]));
        lemma_drop_types(m, old_symbol, types, k);
        assert forall|j: int| 0 <= j < types.len() implies k != key_of(new_symbol, feed_type_of(#[trigger] types[j])) by {
            if k == key_of(new_symbol, feed_type_of(types[j])) {
                crate::feed::lemma_key_injective(old_symbol, feed_type_of(types[i]), new_symbol, feed_type_of(types[j]));
            }
        }
        lemma_take_types(dropped, new_symbol, types, k);
    }
}

/// Follows a symbol change: unsubscribes the old symbol from every data type
/// of the event, then subscribes the new symbol to each of them that is not
/// subscribed yet.
pub fn apply_symbol_change(table: &mut SubscriptionTable, event: &SymbolChangeEvent)
    ensures
        final(table).view_map() == after_symbol_change(
            old(table).view_map(),
            opt_string_view(event.old_symbol),
            opt_string_view(event.new_symbol),
            event.data_types@,
        ),
{
    let ghost m0 = table.view_map();
    let types = &event.data_types;
    if let Some(old_symbol) = &event.old_symbol {
        let mut i: usize = 0;
        while i < types.len()
            invariant
                i <= types@.len(),
                *types == event.data_types,
                table.view_map() == drop_types(m0, old_symbol@, types@.take(i as int)),
            decreases types@.len() - i,
        {
            assert(types@.take(i + 1).drop_last() =~= types@.take(i as int));
            let t = data_type_of(types[i]);
            if table.is_subscribed(old_symbol.as_str(), t) {
                table.unsubscribe(old_symbol.as_str(), t);
            } else {
                assert(table.view_map().remove(key_of(old_symbol@, t)) =~= table.view_map());
            }
            i = i + 1;
        }
        assert(types@.take(types@.len() as int) =~= types@);
    }
    let ghost m1 = table.view_map();
    assert(m1 == match opt_string_view(event.old_symbol) {
        Some(s) => drop_types(m0, s, event.data_types@),
        None => m0,
    });
    if let Some(new_symbol) = &event.new_symbol {
        let mut i: usize = 0;
        while i < types.len()
            invariant
                i <= types@.len(),
                *types == event.data_types,
                table.view_map() == take_types(m1, new_symbol@, types@.take(i as int)),
            decreases types@.len() - i,
        {
            assert(types@.take(i + 1).drop_last() =~= types@.take(i as int));
            let t = data_type_of(types[i]);
            if !table.is_subscribed(new_symbol.as_str(), t) {
                table.subscribe(new_symbol.as_str(), t);
            }
            i = i + 1;
        }
        assert(types@.take(types@.len() as int) =~= types@);
    }
}

/// Subscribing makes the pair subscribed and leaves every other pair's status
/// as it was.
pub proof fn lemma_subscribe_effect(
    before: Map<Seq<char>, DataType>,
    symbol: Seq<char>,
    t: DataType,
    other_symbol: Seq<char>,
    other_t: DataType,
)
    requires
        other_symbol != symbol || other_t != t,
    ensures
        before.insert(key_of(symbol, t), t).dom().contains(key_of(symbol, t)),
        before.insert(key_of(symbol, t), t).dom().contains(key_of(other_symbol, other_t))
            == before.dom().contains(key_of(other_symbol, other_t)),
{
    if key_of(other_symbol, other_t) == key_of(symbol, t) {
        crate::feed::lemma_key_injective(other_symbol, other_t, symbol, t);
    }
}

/// The requested subscriptions after a run of calls, each a symbol, a data
/// type and whether it subscribes (`true`) or unsubscribes.
pub open spec fn after_calls(m: Map<Seq<char>, DataType>, calls: Seq<(Seq<char>, DataType, bool)>) -> Map<
    Seq<char>,
    DataType,
>
    decreases calls.len(),
{
    if calls.len() == 0 {
        m
    } else {
        let prev = after_calls(m, calls.drop_last());
        let c = calls.last();
        if c.2 {
            prev.insert(key_of(c.0, c.1), c.1)
        } else {
            prev.remove(key_of(c.0, c.1))
        }
    }
}

/// Calls on other (symbol, data type) pairs leave a pair's status alone.
pub proof fn lemma_other_calls_keep_status(
    m: Map<Seq<char>, DataType>,
    calls: Seq<(Seq<char>, DataType, bool)>,
    symbol: Seq<char>,
    t: DataType,
)
    requires
        forall|i: int| 0 <= i < calls.len() ==> (#[trigger] calls[i]).0 != symbol || calls[i].1 != t,
    ensures
        after_calls(m, calls).dom().contains(key_of(symbol, t)) == m.dom().contains(key_of(symbol, t)),
    decreases calls.len(),
{
    if calls.len() > 0 {
        let init = calls.drop_last();
        assert forall|i: int| 0 <= i < init.len() implies (#[trigger] init[i]).0 != symbol || init[i].1 != t by {
            assert(init[i] == calls[i]);
        }
        lemma_other_calls_keep_status(m, init, symbol, t);
        let c = calls.last();
        assert(c == calls[calls.len() - 1]);
        if key_of(c.0, c.1) == key_of(symbol, t) {
            crate::feed::lemma_key_injective(c.0, c.1, symbol, t);
        }
    }
}

/// A pair stays subscribed through any calls on other pairs; unsubscribing it
/// then makes it unsubscribed and leaves every other pair as it was.
pub proof fn lemma_subscribe_then_unsubscribe(
    m: Map<Seq<char>, DataType>,
    symbol: Seq<char>,
    t: DataType,
    calls: Seq<(Seq<char>, DataType, bool)>,
)
    requires
        forall|i: int| 0 <= i < calls.len() ==> (#[trigger] calls[i]).0 != symbol || calls[i].1 != t,
    ensures
        after_calls(m.insert(key_of(symbol, t), t), calls).dom().contains(key_of(symbol, t)),
        !after_calls(m.insert(key_of(symbol, t), t), calls).remove(key_of(symbol, t)).dom().contains(
            key_of(symbol, t),
        ),
        forall|o: Seq<char>, ot: DataType|
            (o != symbol || ot != t) ==> (#[trigger] after_calls(m.insert(key_of(symbol, t), t), calls).remove(
                key_of(symbol, t),
            ).dom().contains(key_of(o, ot))) == after_calls(m.insert(key_of(symbol, t), t), calls).dom().contains(
                key_of(o, ot),
            ),
{
    let start = m.insert(key_of(symbol, t), t);
    lemma_other_calls_keep_status(start, calls, symbol, t);
    let after = after_calls(start, calls);
    assert forall|o: Seq<char>, ot: DataType| (o != symbol || ot != t) implies (#[trigger] after.remove(
        key_of(symbol, t),
    ).dom().contains(key_of(o, ot))) == after.dom().contains(key_of(o, ot)) by {
        lemma_unsubscribe_effect(after, symbol, t, o, ot);
    }
}

/// Unsubscribing undoes a subscription that was not there before.
pub proof fn lemma_unsubscribe_undoes_subscribe(before: Map<Seq<char>, DataType>, symbol: Seq<char>, t: DataType)
    requires
        !before.dom().contains(key_of(symbol, t)),
    ensures
        before.insert(key_of(symbol, t), t).remove(key_of(symbol, t)) == before,
{
    assert(before.insert(key_of(symbol, t), t).remove(key_of(symbol, t)) =~= before);
}

/// Unsubscribing makes the pair unsubscribed and leaves every other pair's
/// status as it was.
pub proof fn lemma_unsubscribe_effect(
    before: Map<Seq<char>, DataType>,
    symbol: Seq<char>,
    t: DataType,
    other_symbol: Seq<char>,
    other_t: DataType,
)
    requires
        other_symbol != symbol || other_t != t,
    ensures
        !before.remove(key_of(symbol, t)).dom().contains(key_of(symbol, t)),
        before.remove(key_of(symbol, t)).dom().contains(key_of(other_symbol, other_t))
            == before.dom().contains(key_of(other_symbol, other_t)),
{
    if key_of(other_symbol, other_t) == key_of(symbol, t) {
        crate::feed::lemma_key_injective(other_symbol, other_t, symbol, t);
    }
}

/// Every key of `m` is the subscription key of some symbol for the data type
/// recorded under it, as for tables filled by `subscribe`.
pub open spec fn keys_match_types(m: Map<Seq<char>, DataType>) -> bool {
    forall|k: Seq<char>| #[trigger] m.dom().contains(k) ==> exists|s: Seq<char>| k == key_of(s, m[k])
}

/// Subscribing and unsubscribing keep every key matching its data type (and
/// the empty table trivially does).
pub proof fn lemma_subscriptions_keep_types(m: Map<Seq<char>, DataType>, symbol: Seq<char>, t: DataType)
    requires
        keys_match_types(m),
    ensures
        keys_match_types(Map::<Seq<char>, DataType>::empty()),
        keys_match_types(m.insert(key_of(symbol, t), t)),
        keys_match_types(m.remove(key_of(symbol, t))),
{
    let added = m.insert(key_of(symbol, t), t);
    assert forall|k: Seq<char>| #[trigger] added.dom().contains(k) implies exists|s: Seq<char>|
        k == key_of(s, added[k]) by {
        if k == key_of(symbol, t) {
            assert(k == key_of(symbol, added[k]));
        } else {
            assert(m.dom().contains(k));
            let s0 = choose|s: Seq<char>| k == key_of(s, m[k]);
            assert(k == key_of(s0, added[k]));
        }
    }
    let removed = m.remove(key_of(symbol, t));
    assert forall|k: Seq<char>| #[trigger] removed.dom().contains(k) implies exists|s: Seq<char>|
        k == key_of(s, removed[k]) by {
        assert(m.dom().contains(k));
        let s0 = choose|s: Seq<char>| k == key_of(s, m[k]);
        assert(k == key_of(s0, removed[k]));
    }
}

/// Two tables whose keys match their data types agree on the data type of
/// every key they share.
pub proof fn lemma_matching_tables_agree(a: Map<Seq<char>, DataType>, b: Map<Seq<char>, DataType>)
    requires
        keys_match_types(a),
        keys_match_types(b),
    ensures
        forall|k: Seq<char>| a.dom().contains(k) && b.dom().contains(k) ==> a[k] == b[k],
{
    assert forall|k: Seq<char>| a.dom().contains(k) && b.dom().contains(k) implies a[k] == b[k] by {
        assert(a.dom().contains(k));
        assert(b.dom().contains(k));
        let sa = choose|s: Seq<char>| k == key_of(s, a[k]);
        let sb = choose|s: Seq<char>| k == key_of(s, b[k]);
        crate::feed::lemma_key_injective(sa, a[k], sb, b[k]);
    }
}

/// What a transport must do to bring its live subscriptions in line with the
/// requested ones: keys to drop, and (key, data type) pairs to add.
pub struct SyncPlan {
    pub to_remove: Vec<String>,
    pub to_add: Vec<(String, DataType)>,
}

pub open spec fn keys_distinct(s: Seq<String>) -> bool {
    forall|i: int, j: int| 0 <= i < j < s.len() ==> (#[trigger] s[i])@ != (#[trigger] s[j])@
}

/// `m` with every key of `ks` removed, in order.
pub open spec fn apply_removals(m: Map<Seq<char>, DataType>, ks: Seq<String>) -> Map<
    Seq<char>,
    DataType,
>
    decreases ks.len(),
{
    if ks.len() == 0 {
        m
    } else {
        apply_removals(m, ks.drop_last()).remove(ks.last()@)
    }
}

/// `m` with every pair of `es` inserted, in order.
pub open spec fn apply_additions(m: Map<Seq<char>, DataType>, es: Seq<(String, DataType)>) -> Map<
    Seq<char>,
    DataType,
>
    decreases es.len(),
{
    if es.len() == 0 {
        m
    } else {
        apply_additions(m, es.drop_last()).insert(es.last().0@, es.last().1)
    }
}

proof fn lemma_apply_removals(m: Map<Seq<char>, DataType>, ks: Seq<String>, k: Seq<char>)
    ensures
        apply_removals(m, ks).dom().contains(k) <==> (m.dom().contains(k) && forall|i: int|
            0 <= i < ks.len() ==> (#[trigger] ks[i])@ != k),
        apply_removals(m, ks).dom().contains(k) ==> apply_removals(m, ks)[k] == m[k],
    decreases ks.len(),
{
    if ks.len() > 0 {
        lemma_apply_removals(m, ks.drop_last(), k);
        if m.dom().contains(k) && forall|i: int| 0 <= i < ks.drop_last().len() ==> (
        #[trigger] ks.drop_last()[i])@ != k {
            if ks.last()@ != k {
                assert forall|i: int| 0 <= i < ks.len() implies (#[trigger] ks[i])@ != k by {
                    if i < ks.len() - 1 {
                        assert(ks.drop_last()[i] == ks[i]);
                    }
                }
            }
        }
        if !(forall|i: int| 0 <= i < ks.drop_last().len() ==> (#[trigger] ks.drop_last()[i])@ != k) {
            let i = choose|i: int| 0 <= i < ks.drop_last().len() && (#[trigger] ks.drop_last()[i])@ == k;
            assert(ks[i]@ == k);
        }
    }
}

proof fn lemma_apply_additions(m: Map<Seq<char>, DataType>, es: Seq<(String, DataType)>, k: Seq<char>)
    requires
        unique_keys(es),
    ensures
        apply_additions(m, es).dom().contains(k) <==> (m.dom().contains(k) || exists|i: int|
            0 <= i < es.len() && (#[trigger] es[i]).0@ == k),
        forall|i: int|
            0 <= i < es.len() && (#[trigger] es[i]).0@ == k ==> apply_additions(m, es)[k] == es[i].1,
        (forall|i: int| 0 <= i < es.len() ==> (#[trigger] es[i]).0@ != k) ==> apply_additions(m, es)[k]
            == m[k],
    decreases es.len(),
{
    if es.len() > 0 {
        lemma_apply_additions(m, es.drop_last(), k);
        if exists|i: int| 0 <= i < es.drop_last().len() && (#[trigger] es.drop_last()[i]).0@ == k {
            let i = choose|i: int| 0 <= i < es.drop_last().len() && (#[trigger] es.drop_last()[i]).0@ == k;
            assert(es[i].0@ == k);
        }
        if exists|i: int| 0 <= i < es.len() && (#[trigger] es[i]).0@ == k {
            let i = choose|i: int| 0 <= i < es.len() && (#[trigger] es[i]).0@ == k;
            if i < es.len() - 1 {
                assert(es.drop_last()[i].0@ == k);
            }
        }
        assert forall|i: int| 0 <= i < es.len() && (#[trigger] es[i]).0@ == k implies apply_additions(
            m,
            es,
        )[k] == es[i].1 by {
            if i < es.len() - 1 {
                assert(es.drop_last()[i] == es[i]);
                assert(es.last().0@ != k);
            }
        }
        if forall|i: int| 0 <= i < es.len() ==> (#[trigger] es[i]).0@ != k {
            assert forall|i: int| 0 <= i < es.drop_last().len() implies (#[trigger] es.drop_last()[i]).0@
                != k by {
                assert(es.drop_last()[i] == es[i]);
            }
            assert(es[es.len() - 1].0@ != k);
        }
    }
}

pub open spec fn has_key(s: Seq<String>, k: Seq<char>) -> bool {
    exists|x: int| 0 <= x < s.len() && (#[trigger] s[x])@ == k
}

pub open spec fn dropped_in_prefix(
    cur: Seq<(String, DataType)>,
    n: int,
    target: Map<Seq<char>, DataType>,
    k: Seq<char>,
) -> bool {
    exists|j: int| 0 <= j < n && (#[trigger] cur[j]).0@ == k && !target.dom().contains(k)
}

/// Computes which live subscriptions to drop (those no longer requested) and
/// which requested subscriptions to add (those not yet live).
pub fn plan_sync(current: &SubscriptionTable, target: &SubscriptionTable) -> (res: SyncPlan)
    ensures
        keys_distinct(res.to_remove@),
        forall|k: Seq<char>|
            #[trigger] has_key(res.to_remove@, k) <==> (current.view_map().dom().contains(k)
                && !target.view_map().dom().contains(k)),
        unique_keys(res.to_add@),
        forall|i: int|
            0 <= i < res.to_add@.len() ==> {
                let e = #[trigger] res.to_add@[i];
                &&& target.view_map().dom().contains(e.0@)
                &&& target.view_map()[e.0@] == e.1
                &&& !current.view_map().dom().contains(e.0@)
            },
        forall|k: Seq<char>|
            target.view_map().dom().contains(k) && !current.view_map().dom().contains(k) ==> exists|
                i: int,
            |
                0 <= i < res.to_add@.len() && (#[trigger] res.to_add@[i]).0@ == k,
{
    let cur = current.entries();
    let tgt = target.entries();
    let mut to_remove: Vec<String> = Vec::new();
    let mut i: usize = 0;
    while i < cur.len()
        invariant
            i <= cur@.len(),
            unique_keys(cur@),
            table_map(cur@) == current.view_map(),
            keys_distinct(to_remove@),
            forall|k: int| 0 <= k < to_remove@.len() ==> exists|j: int|
                0 <= j < i && (#[trigger] cur@[j]).0@ == (#[trigger] to_remove@[k])@,
            forall|k: Seq<char>|
                #[trigger] has_key(to_remove@, k) <==> dropped_in_prefix(
                    cur@,
                    i as int,
                    target.view_map(),
                    k,
                ),
        decreases cur@.len() - i,
    {
        let key = &cur[i].0;
        let ghost before = to_remove@;
        if !target.contains_key(key.as_str()) {
            to_remove.push(key.clone());
            assert forall|a: int, b: int|
                0 <= a < b < to_remove@.len() implies (#[trigger] to_remove@[a])@ != (
            #[trigger] to_remove@[b])@ by {
                if b == to_remove@.len() - 1 {
                    let j = choose|j: int| 0 <= j < i && (#[trigger] cur@[j]).0@ == before[a]@;
                    assert(cur@[j].0@ != cur@[i as int].0@);
                }
            }
            assert forall|k: int| 0 <= k < to_remove@.len() implies exists|j: int|
                0 <= j < i + 1 && (#[trigger] cur@[j]).0@ == (#[trigger] to_remove@[k])@ by {
                if k < before.len() {
                    assert(to_remove@[k] == before[k]);
                    let j = choose|j: int| 0 <= j < i && (#[trigger] cur@[j]).0@ == (#[trigger] before[k])@;
                    assert(cur@[j].0@ == to_remove@[k]@);
                } else {
                    assert(cur@[i as int].0@ == to_remove@[k]@);
                }
            }
        }
        assert forall|k: Seq<char>|
            #[trigger] has_key(to_remove@, k) <==> dropped_in_prefix(cur@, i + 1, target.view_map(), k) by {
            if has_key(to_remove@, k) {
                let x = choose|x: int| 0 <= x < to_remove@.len() && (#[trigger] to_remove@[x])@ == k;
                if x < before.len() {
                    assert(before[x] == to_remove@[x]);
                    assert(has_key(before, k));
                    let j = choose|j: int| 0 <= j < i && (#[trigger] cur@[j]).0@ == k
                        && !target.view_map().dom().contains(k);
                    assert(0 <= j < i + 1 && cur@[j].0@ == k);
                } else {
                    assert(cur@[i as int].0@ == k);
                }
            }
            if dropped_in_prefix(cur@, i + 1, target.view_map(), k) {
                let j = choose|j: int| 0 <= j < i + 1 && (#[trigger] cur@[j]).0@ == k
                    && !target.view_map().dom().contains(k);
                if j < i {
                    assert(dropped_in_prefix(cur@, i as int, target.view_map(), k));
                    assert(has_key(before, k));
                    let x = choose|x: int| 0 <= x < before.len() && (#[trigger] before[x])@ == k;
                    assert(to_remove@[x] == before[x]);
                } else {
                    assert(to_remove@[before.len() as int]@ == k);
                }
            }
        }
        i = i + 1;
    }
    assert forall|k: Seq<char>|
        #[trigger] has_key(to_remove@, k) <==> (current.view_map().dom().contains(k)
            && !target.view_map().dom().contains(k)) by {
        lemma_table_domain(cur@, k);
        if current.view_map().dom().contains(k) && !target.view_map().dom().contains(k) {
            let j = choose|j: int| 0 <= j < cur@.len() && (#[trigger] cur@[j]).0@ == k;
            assert(dropped_in_prefix(cur@, cur@.len() as int, target.view_map(), k));
        }
    }
    let mut to_add: Vec<(String, DataType)> = Vec::new();
    let mut i: usize = 0;
    while i < tgt.len()
        invariant
            i <= tgt@.len(),
            unique_keys(tgt@),
            table_map(tgt@) == target.view_map(),
            unique_keys(to_add@),
            forall|x: int|
                0 <= x < to_add@.len() ==> exists|j: int|
                    0 <= j < i && (#[trigger] tgt@[j]) == (#[trigger] to_add@[x]),
            forall|x: int|
                0 <= x < to_add@.len() ==> !current.view_map().dom().contains((#[trigger] to_add@[x]).0@),
            forall|j: int|
                0 <= j < i && !current.view_map().dom().contains((#[trigger] tgt@[j]).0@) ==> exists|
                    x: int,
                | 0 <= x < to_add@.len() && (#[trigger] to_add@[x]).0@ == tgt@[j].0@,
        decreases tgt@.len() - i,
    {
        let key = &tgt[i].0;
        if !current.contains_key(key.as_str()) {
            let ghost before = to_add@;
            to_add.push((key.clone(), tgt[i].1));
            assert(to_add@[before.len() as int] == tgt@[i as int]);
            assert forall|a: int, b: int|
                0 <= a < b < to_add@.len() implies (#[trigger] to_add@[a]).0@ != (
            #[trigger] to_add@[b]).0@ by {
                if b == to_add@.len() - 1 {
                    let j = choose|j: int| 0 <= j < i && (#[trigger] tgt@[j]) == (#[trigger] before[a]);
                    assert(to_add@[a] == before[a]);
                }
            }
            assert forall|x: int|
                0 <= x < to_add@.len() implies exists|j: int|
                    0 <= j < i + 1 && (#[trigger] tgt@[j]) == (#[trigger] to_add@[x]) by {
                if x < before.len() {
                    assert(to_add@[x] == before[x]);
                    let j = choose|j: int| 0 <= j < i && (#[trigger] tgt@[j]) == (#[trigger] before[x]);
                    assert(tgt@[j] == to_add@[x]);
                } else {
                    assert(tgt@[i as int] == to_add@[x]);
                }
            }
            assert forall|j: int|
                0 <= j < i + 1 && !current.view_map().dom().contains((#[trigger] tgt@[j]).0@) implies exists|
                    x: int,
                | 0 <= x < to_add@.len() && (#[trigger] to_add@[x]).0@ == tgt@[j].0@ by {
                if j < i {
                    let x = choose|x: int| 0 <= x < before.len() && (#[trigger] before[x]).0@ == tgt@[j].0@;
                    assert(to_add@[x] == before[x]);
                } else {
                    assert(to_add@[before.len() as int].0@ == tgt@[j].0@);
                }
            }
        }
        i = i + 1;
    }
    assert forall|x: int| 0 <= x < to_add@.len() implies {
        let e = #[trigger] to_add@[x];
        &&& target.view_map().dom().contains(e.0@)
        &&& target.view_map()[e.0@] == e.1
        &&& !current.view_map().dom().contains(e.0@)
    } by {
        let j = choose|j: int| 0 <= j < tgt@.len() && (#[trigger] tgt@[j]) == (#[trigger] to_add@[x]);
        lemma_table_value(tgt@, j);
    }
    assert forall|k: Seq<char>|
        target.view_map().dom().contains(k) && !current.view_map().dom().contains(k) implies exists|
            i: int,
        | 0 <= i < to_add@.len() && (#[trigger] to_add@[i]).0@ == k by {
        lemma_table_domain(tgt@, k);
        let j = choose|j: int| 0 <= j < tgt@.len() && (#[trigger] tgt@[j]).0@ == k;
        assert(!current.view_map().dom().contains(tgt@[j].0@));
    }
    SyncPlan { to_remove, to_add }
}

/// Carrying out a sync plan in full (every removal, then every addition)
/// turns the live subscriptions into the requested ones, provided the two
/// agree on the data type of every key they share.
pub proof fn lemma_sync_plan_reaches_target(
    current: Map<Seq<char>, DataType>,
    target: Map<Seq<char>, DataType>,
    to_remove: Seq<String>,
    to_add: Seq<(String, DataType)>,
)
    requires
        forall|k: Seq<char>|
            #[trigger] has_key(to_remove, k) <==> (current.dom().contains(k) && !target.dom().contains(
                k,
            )),
        unique_keys(to_add),
        forall|i: int|
            0 <= i < to_add.len() ==> {
                let e = #[trigger] to_add[i];
                &&& target.dom().contains(e.0@)
                &&& target[e.0@] == e.1
                &&& !current.dom().contains(e.0@)
            },
        forall|k: Seq<char>|
            target.dom().contains(k) && !current.dom().contains(k) ==> exists|i: int|
                0 <= i < to_add.len() && (#[trigger] to_add[i]).0@ == k,
        forall|k: Seq<char>|
            current.dom().contains(k) && target.dom().contains(k) ==> current[k] == target[k],
    ensures
        apply_additions(apply_removals(current, to_remove), to_add) == target,
{
    let mid = apply_removals(current, to_remove);
    let fin = apply_additions(mid, to_add);
    assert forall|k: Seq<char>| fin.dom().contains(k) <==> target.dom().contains(k) by {
        lemma_apply_removals(current, to_remove, k);
        lemma_apply_additions(mid, to_add, k);
        let in_adds = exists|i: int| 0 <= i < to_add.len() && (#[trigger] to_add[i]).0@ == k;
        if target.dom().contains(k) {
            if current.dom().contains(k) {
                assert(!has_key(to_remove, k));
                assert forall|i: int| 0 <= i < to_remove.len() implies (#[trigger] to_remove[i])@ != k by {
                    if to_remove[i]@ == k {
                        assert(has_key(to_remove, k));
                    }
                }
                assert(mid.dom().contains(k));
            } else {
                assert(in_adds);
            }
        }
        if fin.dom().contains(k) {
            if in_adds {
                let i = choose|i: int| 0 <= i < to_add.len() && (#[trigger] to_add[i]).0@ == k;
                assert(target.dom().contains(to_add[i].0@));
            } else {
                assert(mid.dom().contains(k));
                assert(current.dom().contains(k));
                if has_key(to_remove, k) {
                    let x = choose|x: int| 0 <= x < to_remove.len() && (#[trigger] to_remove[x])@ == k;
                    assert(to_remove[x]@ != k);
                }
                assert(target.dom().contains(k));
            }
        }
    }
    assert forall|k: Seq<char>| fin.dom().contains(k) implies fin[k] == target[k] by {
        lemma_apply_removals(current, to_remove, k);
        lemma_apply_additions(mid, to_add, k);
        if exists|i: int| 0 <= i < to_add.len() && (#[trigger] to_add[i]).0@ == k {
            let i = choose|i: int| 0 <= i < to_add.len() && (#[trigger] to_add[i]).0@ == k;
            assert(fin[k] == to_add[i].1);
        } else {
            assert(mid.dom().contains(k));
        }
    }
    assert(fin =~= target);
}

/// For tables whose keys match their data types (those filled by
/// `subscribe`), carrying out the sync plan always reaches the requested
/// subscriptions.
pub proof fn lemma_sync_reaches_subscribed_target(
    current: Map<Seq<char>, DataType>,
    target: Map<Seq<char>, DataType>,
    to_remove: Seq<String>,
    to_add: Seq<(String, DataType)>,
)
    requires
        keys_match_types(current),
        keys_match_types(target),
        forall|k: Seq<char>|
            #[trigger] has_key(to_remove, k) <==> (current.dom().contains(k) && !target.dom().contains(
                k,
            )),
        unique_keys(to_add),
        forall|i: int|
            0 <= i < to_add.len() ==> {
                let e = #[trigger] to_add[i];
                &&& target.dom().contains(e.0@)
                &&& target[e.0@] == e.1
                &&& !current.dom().contains(e.0@)
            },
        forall|k: Seq<char>|
            target.dom().contains(k) && !current.dom().contains(k) ==> exists|i: int|
                0 <= i < to_add.len() && (#[trigger] to_add[i]).0@ == k,
    ensures
        apply_additions(apply_removals(current, to_remove), to_add) == target,
{
    lemma_matching_tables_agree(current, target);
    lemma_sync_plan_reaches_target(current, target, to_remove, to_add);
}

} // verus!
