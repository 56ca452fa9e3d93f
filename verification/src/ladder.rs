use vstd::prelude::*;

verus! {

/// A book level as the DOM ladder sees it: a key that orders levels by price
/// (levels with equal keys share a row) and whether the level carries size.
#[derive(Debug, Clone, Copy, PartialEq, Eq, Structural)]
pub struct LadderLevel {
    pub key: i64,
    pub size_positive: bool,
}

/// One ladder row: its price key, the bid and ask levels whose sizes it
/// shows, and whether it is the best bid or the best ask.
#[derive(Debug, Clone, Copy, PartialEq, Eq, Structural)]
pub struct LadderRow {
    pub key: i64,
    pub bid: Option<usize>,
    pub ask: Option<usize>,
    pub is_best_bid: bool,
    pub is_best_ask: bool,
}

/// Some level of `levels` carries size at `key`.
pub open spec fn has_key(levels: Seq<LadderLevel>, key: i64) -> bool {
    exists|i: int| 0 <= i < levels.len() && #[trigger] levels[i].size_positive && levels[i].key == key
}

/// `found` is the first level of `levels` that carries size at `key`, or
/// `None` when there is none.
pub open spec fn first_level(levels: Seq<LadderLevel>, key: i64, found: Option<usize>) -> bool {
    match found {
        Some(i) => {
            &&& i < levels.len()
            &&& levels[i as int].size_positive
            &&& levels[i as int].key == key
            &&& forall|j: int|
                0 <= j < i ==> !(#[trigger] levels[j].size_positive && levels[j].key == key)
        },
        None => !has_key(levels, key),
    }
}

/// No level carrying size lies above `key`.
pub open spec fn at_or_above_all(levels: Seq<LadderLevel>, key: i64) -> bool {
    forall|j: int| 0 <= j < levels.len() && #[trigger] levels[j].size_positive ==> levels[j].key <= key
}

/// No level carrying size lies below `key`.
pub open spec fn at_or_below_all(levels: Seq<LadderLevel>, key: i64) -> bool {
    forall|j: int| 0 <= j < levels.len() && #[trigger] levels[j].size_positive ==> levels[j].key >= key
}

/// `rows` is the ladder of the book: one row per price key that carries size
/// on either side, highest first; each row shows the first bid and the first
/// offer with size at its key, and is the best bid (best ask) when it shows
/// a bid (an ask) and no bid lies above it (no offer lies below it).
pub open spec fn is_ladder(bids: Seq<LadderLevel>, offers: Seq<LadderLevel>, rows: Seq<LadderRow>) -> bool {
    &&& forall|i: int, j: int| 0 <= i < j < rows.len() ==> #[trigger] rows[i].key > #[trigger] rows[j].key
    &&& forall|i: int|
        0 <= i < rows.len() ==> has_key(bids, #[trigger] rows[i].key) || has_key(offers, rows[i].key)
    &&& forall|k: i64|
        has_key(bids, k) || has_key(offers, k) ==> exists|i: int| 0 <= i < rows.len() && #[trigger] rows[i].key == k
    &&& forall|i: int|
        0 <= i < rows.len() ==> first_level(bids, #[trigger] rows[i].key, rows[i].bid) && first_level(
            offers,
            rows[i].key,
            rows[i].ask,
        )
    &&& forall|i: int|
        0 <= i < rows.len() ==> (#[trigger] rows[i].is_best_bid <==> (rows[i].bid is Some
            && at_or_above_all(bids, rows[i].key)))
    &&& forall|i: int|
        0 <= i < rows.len() ==> (#[trigger] rows[i].is_best_ask <==> (rows[i].ask is Some
            && at_or_below_all(offers, rows[i].key)))
}

/// Strictly decreasing keys.
pub open spec fn strictly_descending(keys: Seq<i64>) -> bool {
    forall|i: int, j: int| 0 <= i < j < keys.len() ==> #[trigger] keys[i] > #[trigger] keys[j]
}

/// Puts `key` into the strictly decreasing `keys` unless it is there already.
fn insert_key(keys: &mut Vec<i64>, key: i64)
    requires
        strictly_descending(old(keys)@),
    ensures
        strictly_descending(final(keys)@),
        forall|k: i64| #[trigger] final(keys)@.contains(k) <==> (old(keys)@.contains(k) || k == key),
{
    let mut p: usize = 0;
    while p < keys.len() && keys[p] > key
        invariant
            p <= keys@.len(),
            keys@ == old(keys)@,
            forall|j: int| 0 <= j < p ==> #[trigger] keys@[j] > key,
        decreases keys@.len() - p,
    {
        p = p + 1;
    }
    if p < keys.len() && keys[p] == key {
        assert forall|k: i64| keys@.contains(k) <==> (old(keys)@.contains(k) || k == key) by {
            if k == key {
                assert(keys@[p as int] == k);
            }
        }
        return;
    }
    let ghost before = keys@;
    keys.insert(p, key);
    assert(keys@ =~= before.subrange(0, p as int).push(key) + before.subrange(p as int, before.len() as int));
    assert forall|i: int, j: int| 0 <= i < j < keys@.len() implies #[trigger] keys@[i] > #[trigger] keys@[j] by {
        if j < p {
        } else if j == p {
        } else if i < p {
            assert(before[j - 1] < before[p as int] || j - 1 == p);
        } else if i == p {
            assert(before[p as int] < key);
            assert(before[j - 1] <= before[p as int]);
        } else {
        }
    }
    assert forall|k: i64| keys@.contains(k) <==> (before.contains(k) || k == key) by {
        if keys@.contains(k) {
            let i = choose|i: int| 0 <= i < keys@.len() && keys@[i] == k;
            if i < p {
                assert(before[i] == k);
            } else if i > p {
                assert(before[i - 1] == k);
            }
        }
        if before.contains(k) {
            let i = choose|i: int| 0 <= i < before.len() && before[i] == k;
            if i < p {
                assert(keys@[i] == k);
            } else {
                assert(keys@[i + 1] == k);
            }
        }
        if k == key {
            assert(keys@[p as int] == k);
        }
    }
    assert(forall|k: i64| #[trigger] keys@.contains(k) <==> (old(keys)@.contains(k) || k == key));
}

/// Adds the keys of the levels of `levels` that carry size.
fn collect_keys(keys: &mut Vec<i64>, levels: &Vec<LadderLevel>)
    requires
        strictly_descending(old(keys)@),
    ensures
        strictly_descending(final(keys)@),
        forall|k: i64| #[trigger] final(keys)@.contains(k) <==> (old(keys)@.contains(k) || has_key(levels@, k)),
{
    let ghost start = keys@;
    let mut i: usize = 0;
    while i < levels.len()
        invariant
            i <= levels@.len(),
            strictly_descending(keys@),
            forall|k: i64| #[trigger] keys@.contains(k) <==> (start.contains(k) || has_key(levels@.subrange(0, i as int), k)),
        decreases levels@.len() - i,
    {
        let l = levels[i];
        let ghost prev = keys@;
        if l.size_positive {
            insert_key(keys, l.key);
        }
        assert(forall|k: i64| keys@.contains(k) <==> (prev.contains(k) || (l.size_positive && k == l.key)));
        assert forall|k: i64| has_key(levels@.subrange(0, i + 1), k) <==> (has_key(levels@.subrange(0, i as int), k) || (l.size_positive && k == l.key)) by {
            let s = levels@.subrange(0, i + 1);
            let t = levels@.subrange(0, i as int);
            if has_key(s, k) {
                let a = choose|a: int| 0 <= a < s.len() && #[trigger] s[a].size_positive && s[a].key == k;
                if a < i {
                    assert(t[a] == s[a]);
                }
            }
            if has_key(t, k) {
                let a = choose|a: int| 0 <= a < t.len() && #[trigger] t[a].size_positive && t[a].key == k;
                assert(s[a] == t[a]);
            }
            if l.size_positive && k == l.key {
                assert(s[i as int] == l);
            }
        }
        assert forall|k: i64| #[trigger] keys@.contains(k) <==> (start.contains(k) || has_key(levels@.subrange(0, i + 1), k)) by {
            assert(prev.contains(k) <==> (start.contains(k) || has_key(levels@.subrange(0, i as int), k)));
        }
        i = i + 1;
    }
    assert(levels@.subrange(0, levels@.len() as int) =~= levels@);
}

/// First level of `levels` that carries size at `key`.
fn find_level(levels: &Vec<LadderLevel>, key: i64) -> (res: Option<usize>)
    ensures
        first_level(levels@, key, res),
{
    let mut i: usize = 0;
    while i < levels.len()
        invariant
            i <= levels@.len(),
            forall|j: int| 0 <= j < i ==> !(#[trigger] levels@[j].size_positive && levels@[j].key == key),
        decreases levels@.len() - i,
    {
        if levels[i].size_positive && levels[i].key == key {
            return Some(i);
        }
        i = i + 1;
    }
    None
}

/// Whether no level carrying size lies above `key`.
fn none_above(levels: &Vec<LadderLevel>, key: i64) -> (res: bool)
    ensures
        res == at_or_above_all(levels@, key),
{
    let mut i: usize = 0;
    while i < levels.len()
        invariant
            i <= levels@.len(),
            forall|j: int| 0 <= j < i && #[trigger] levels@[j].size_positive ==> levels@[j].key <= key,
        decreases levels@.len() - i,
    {
        if levels[i].size_positive && levels[i].key > key {
            return false;
        }
        i = i + 1;
    }
    true
}

/// Whether no level carrying size lies below `key`.
fn none_below(levels: &Vec<LadderLevel>, key: i64) -> (res: bool)
    ensures
        res == at_or_below_all(levels@, key),
{
    let mut i: usize = 0;
    while i < levels.len()
        invariant
            i <= levels@.len(),
            forall|j: int| 0 <= j < i && #[trigger] levels@[j].size_positive ==> levels@[j].key >= key,
        decreases levels@.len() - i,
    {
        if levels[i].size_positive && levels[i].key < key {
            return false;
        }
        i = i + 1;
    }
    true
}

/// The DOM ladder of a book: only price levels that carry size, highest
/// price first, each with its bid and ask sizes and the best bid (highest
/// bid) and best ask (lowest offer) marked.
pub fn build_ladder(bids: &Vec<LadderLevel>, offers: &Vec<LadderLevel>) -> (res: Vec<LadderRow>)
    ensures
        is_ladder(bids@, offers@, res@),
{
    let mut keys: Vec<i64> = Vec::new();
    assert forall|k: i64| !keys@.contains(k) by {}
    collect_keys(&mut keys, bids);
    let ghost mid = keys@;
    assert(forall|k: i64| #[trigger] mid.contains(k) <==> has_key(bids@, k));
    collect_keys(&mut keys, offers);
    assert forall|k: i64| #[trigger] keys@.contains(k) <==> (has_key(bids@, k) || has_key(offers@, k)) by {
        assert(mid.contains(k) <==> has_key(bids@, k));
    }
    let mut rows: Vec<LadderRow> = Vec::new();
    let mut i: usize = 0;
    while i < keys.len()
        invariant
            i <= keys@.len(),
            strictly_descending(keys@),
            forall|k: i64| #[trigger] keys@.contains(k) <==> (has_key(bids@, k) || has_key(offers@, k)),
            rows@.len() == i,
            forall|a: int| 0 <= a < i ==> (#[trigger] rows@[a]).key == keys@[a],
            forall|a: int|
                0 <= a < i ==> first_level(bids@, #[trigger] rows@[a].key, rows@[a].bid) && first_level(
                    offers@,
                    rows@[a].key,
                    rows@[a].ask,
                ),
            forall|a: int|
                0 <= a < i ==> (#[trigger] rows@[a].is_best_bid <==> (rows@[a].bid is Some
                    && at_or_above_all(bids@, rows@[a].key))),
            forall|a: int|
                0 <= a < i ==> (#[trigger] rows@[a].is_best_ask <==> (rows@[a].ask is Some
                    && at_or_below_all(offers@, rows@[a].key))),
        decreases keys@.len() - i,
    {
        let key = keys[i];
        let bid = find_level(bids, key);
        let ask = find_level(offers, key);
        let is_best_bid = bid.is_some() && none_above(bids, key);
        let is_best_ask = ask.is_some() && none_below(offers, key);
        rows.push(LadderRow { key, bid, ask, is_best_bid, is_best_ask });
        i = i + 1;
    }
    assert forall|i: int|
        0 <= i < rows@.len() implies has_key(bids@, #[trigger] rows@[i].key) || has_key(offers@, rows@[i].key) by {
        assert(keys@.contains(keys@[i]));
    }
    assert forall|k: i64| has_key(bids@, k) || has_key(offers@, k) implies exists|i: int|
        0 <= i < rows@.len() && #[trigger] rows@[i].key == k by {
        assert(keys@.contains(k));
        let i = choose|i: int| 0 <= i < keys@.len() && keys@[i] == k;
        assert(rows@[i].key == k);
    }
    rows
}

/// A level carrying size whose key is the highest (`highest`) or the lowest
/// among the levels carrying size.
proof fn lemma_extreme_level(levels: Seq<LadderLevel>, highest: bool) -> (k: int)
    requires
        exists|i: int| 0 <= i < levels.len() && #[trigger] levels[i].size_positive,
    ensures
        0 <= k < levels.len(),
        levels[k].size_positive,
        highest ==> at_or_above_all(levels, levels[k].key),
        !highest ==> at_or_below_all(levels, levels[k].key),
    decreases levels.len(),
{
    let n = levels.len() - 1;
    let init = levels.drop_last();
    if exists|i: int| 0 <= i < init.len() && #[trigger] init[i].size_positive {
        let w = choose|i: int| 0 <= i < init.len() && #[trigger] init[i].size_positive;
        assert(init[w].size_positive);
        let r = lemma_extreme_level(init, highest);
        assert(init[r] == levels[r]);
        let take_last = levels[n].size_positive && (if highest {
            levels[n].key > levels[r].key
        } else {
            levels[n].key < levels[r].key
        });
        let k = if take_last { n } else { r };
        assert forall|j: int| 0 <= j < levels.len() && #[trigger] levels[j].size_positive implies (if highest {
            levels[j].key <= levels[k].key
        } else {
            levels[j].key >= levels[k].key
        }) by {
            if j < n {
                assert(init[j] == levels[j]);
            }
        }
        k
    } else {
        let w = choose|i: int| 0 <= i < levels.len() && #[trigger] levels[i].size_positive;
        if w < n {
            assert(init[w] == levels[w]);
        }
        assert forall|j: int| 0 <= j < levels.len() && #[trigger] levels[j].size_positive implies j == n by {
            if j < n {
                assert(init[j] == levels[j]);
            }
        }
        n
    }
}

/// The ladder marks at most one row as the best bid and at most one as the
/// best ask; as soon as a bid (an offer) carries size, some row is the best
/// bid (the best ask).
pub proof fn lemma_ladder_single_best(bids: Seq<LadderLevel>, offers: Seq<LadderLevel>, rows: Seq<LadderRow>)
    requires
        is_ladder(bids, offers, rows),
    ensures
        forall|i: int, j: int|
            0 <= i < rows.len() && 0 <= j < rows.len() && #[trigger] rows[i].is_best_bid
                && #[trigger] rows[j].is_best_bid ==> i == j,
        forall|i: int, j: int|
            0 <= i < rows.len() && 0 <= j < rows.len() && #[trigger] rows[i].is_best_ask
                && #[trigger] rows[j].is_best_ask ==> i == j,
        (exists|k: int| 0 <= k < bids.len() && #[trigger] bids[k].size_positive) ==> exists|i: int|
            0 <= i < rows.len() && #[trigger] rows[i].is_best_bid,
        (exists|k: int| 0 <= k < offers.len() && #[trigger] offers[k].size_positive) ==> exists|i: int|
            0 <= i < rows.len() && #[trigger] rows[i].is_best_ask,
{
    assert forall|i: int, j: int|
        0 <= i < rows.len() && 0 <= j < rows.len() && #[trigger] rows[i].is_best_bid
            && #[trigger] rows[j].is_best_bid implies i == j by {
        let bi = rows[i].bid.unwrap() as int;
        let bj = rows[j].bid.unwrap() as int;
        assert(first_level(bids, rows[i].key, rows[i].bid));
        assert(first_level(bids, rows[j].key, rows[j].bid));
        assert(bids[bi].size_positive && bids[bj].size_positive);
        assert(rows[i].key <= rows[j].key);
        assert(rows[j].key <= rows[i].key);
        if i < j {
            assert(rows[i].key > rows[j].key);
        } else if j < i {
            assert(rows[j].key > rows[i].key);
        }
    }
    assert forall|i: int, j: int|
        0 <= i < rows.len() && 0 <= j < rows.len() && #[trigger] rows[i].is_best_ask
            && #[trigger] rows[j].is_best_ask implies i == j by {
        let ai = rows[i].ask.unwrap() as int;
        let aj = rows[j].ask.unwrap() as int;
        assert(first_level(offers, rows[i].key, rows[i].ask));
        assert(first_level(offers, rows[j].key, rows[j].ask));
        assert(offers[ai].size_positive && offers[aj].size_positive);
        assert(rows[i].key >= rows[j].key);
        assert(rows[j].key >= rows[i].key);
        if i < j {
            assert(rows[i].key > rows[j].key);
        } else if j < i {
            assert(rows[j].key > rows[i].key);
        }
    }
    if exists|k: int| 0 <= k < bids.len() && #[trigger] bids[k].size_positive {
        let top = lemma_extreme_level(bids, true);
        let key = bids[top].key;
        assert(has_key(bids, key));
        let i = choose|i: int| 0 <= i < rows.len() && #[trigger] rows[i].key == key;
        assert(first_level(bids, rows[i].key, rows[i].bid));
        assert(rows[i].bid is Some);
        assert(rows[i].is_best_bid);
    }
    if exists|k: int| 0 <= k < offers.len() && #[trigger] offers[k].size_positive {
        let bottom = lemma_extreme_level(offers, false);
        let key = offers[bottom].key;
        assert(has_key(offers, key));
        let i = choose|i: int| 0 <= i < rows.len() && #[trigger] rows[i].key == key;
        assert(first_level(offers, rows[i].key, rows[i].ask));
        assert(rows[i].ask is Some);
        assert(rows[i].is_best_ask);
    }
}

/// Colour family of a ladder price.
#[derive(Debug, Clone, Copy, PartialEq, Eq, Structural)]
pub enum PriceTone {
    Bid,
    Ask,
    Plain,
}

/// A price is shown in the bid colour when it is the best bid only, in the
/// ask colour when it is the best ask only, and plain otherwise.
pub fn price_tone(row: &LadderRow) -> (res: PriceTone)
    ensures
        res == (if row.is_best_bid && !row.is_best_ask {
            PriceTone::Bid
        } else if row.is_best_ask && !row.is_best_bid {
            PriceTone::Ask
        } else {
            PriceTone::Plain
        }),
{
    if row.is_best_bid && !row.is_best_ask {
        PriceTone::Bid
    } else if row.is_best_ask && !row.is_best_bid {
        PriceTone::Ask
    } else {
        PriceTone::Plain
    }
}

} // verus!
