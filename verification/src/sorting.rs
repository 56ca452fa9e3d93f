use vstd::prelude::*;

verus! {

/// Key by which rows are ordered: a number, or a text compared character by
/// character (code point order, which is also the byte order of UTF-8).
#[derive(Debug, Clone)]
pub enum SortKey {
    Num(u64),
    Text(Vec<char>),
}

/// Strict lexicographic order on character sequences; a proper prefix comes
/// first.
pub open spec fn lex_lt(a: Seq<char>, b: Seq<char>) -> bool
    decreases a.len(),
{
    if a.len() == 0 {
        b.len() > 0
    } else if b.len() == 0 {
        false
    } else if a[0] != b[0] {
        (a[0] as int) < (b[0] as int)
    } else {
        lex_lt(a.drop_first(), b.drop_first())
    }
}

proof fn lemma_lex_trichotomy(a: Seq<char>, b: Seq<char>)
    ensures
        (lex_lt(a, b) as int) + ((a == b) as int) + (lex_lt(b, a) as int) == 1,
    decreases a.len(),
{
    if a.len() > 0 && b.len() > 0 {
        if a[0] == b[0] {
            lemma_lex_trichotomy(a.drop_first(), b.drop_first());
            if a.drop_first() == b.drop_first() {
                assert(a =~= seq![a[0]] + a.drop_first());
                assert(b =~= seq![b[0]] + b.drop_first());
            }
            if a == b {
                assert(a.drop_first() == b.drop_first());
            }
        } else {
            assert((a[0] as int) != (b[0] as int));
        }
    } else if a.len() == 0 && b.len() == 0 {
        assert(a =~= b);
    }
}

proof fn lemma_lex_transitive(a: Seq<char>, b: Seq<char>, c: Seq<char>)
    requires
        lex_lt(a, b),
        lex_lt(b, c),
    ensures
        lex_lt(a, c),
    decreases a.len(),
{
    if a.len() > 0 && b.len() > 0 && c.len() > 0 {
        if a[0] == b[0] && b[0] == c[0] {
            lemma_lex_transitive(a.drop_first(), b.drop_first(), c.drop_first());
        }
    }
}

/// Strict order on keys: numbers by value, texts lexicographically, numbers
/// before texts.
pub open spec fn key_lt(a: SortKey, b: SortKey) -> bool {
    match (a, b) {
        (SortKey::Num(x), SortKey::Num(y)) => x < y,
        (SortKey::Num(_), SortKey::Text(_)) => true,
        (SortKey::Text(_), SortKey::Num(_)) => false,
        (SortKey::Text(x), SortKey::Text(y)) => lex_lt(x@, y@),
    }
}

/// Keys that compare equal.
pub open spec fn key_same(a: SortKey, b: SortKey) -> bool {
    match (a, b) {
        (SortKey::Num(x), SortKey::Num(y)) => x == y,
        (SortKey::Text(x), SortKey::Text(y)) => x@ == y@,
        _ => false,
    }
}

proof fn lemma_key_order(a: SortKey, b: SortKey, c: SortKey)
    ensures
        (key_lt(a, b) as int) + (key_same(a, b) as int) + (key_lt(b, a) as int) == 1,
        key_lt(a, b) && key_lt(b, c) ==> key_lt(a, c),
        key_same(a, b) && key_lt(b, c) ==> key_lt(a, c),
        key_lt(a, b) && key_same(b, c) ==> key_lt(a, c),
        key_same(a, b) && key_same(b, c) ==> key_same(a, c),
{
    match (a, b) {
        (SortKey::Text(x), SortKey::Text(y)) => {
            lemma_lex_trichotomy(x@, y@);
        },
        _ => {},
    }
    match (a, b, c) {
        (SortKey::Text(x), SortKey::Text(y), SortKey::Text(z)) => {
            if lex_lt(x@, y@) && lex_lt(y@, z@) {
                lemma_lex_transitive(x@, y@, z@);
            }
        },
        _ => {},
    }
}

/// Whether row `a` comes before row `b` when rows are ordered by key
/// (ascending, or descending when `descending`), rows with equal keys keeping
/// the order they came in.
pub open spec fn comes_before(keys: Seq<SortKey>, descending: bool, a: int, b: int) -> bool {
    if key_same(keys[a], keys[b]) {
        a < b
    } else if descending {
        key_lt(keys[b], keys[a])
    } else {
        key_lt(keys[a], keys[b])
    }
}

proof fn lemma_comes_before_order(keys: Seq<SortKey>, descending: bool, a: int, b: int, c: int)
    ensures
        a != b ==> (comes_before(keys, descending, a, b) != comes_before(keys, descending, b, a)),
        comes_before(keys, descending, a, b) && comes_before(keys, descending, b, c) ==> comes_before(
            keys,
            descending,
            a,
            c,
        ),
{
    lemma_key_order(keys[a], keys[b], keys[c]);
    lemma_key_order(keys[b], keys[a], keys[c]);
    lemma_key_order(keys[a], keys[c], keys[b]);
    lemma_key_order(keys[c], keys[b], keys[a]);
    lemma_key_order(keys[b], keys[c], keys[a]);
    lemma_key_order(keys[c], keys[a], keys[b]);
}

/// Whether index `k` occurs in `s`.
pub open spec fn contains_index(s: Seq<usize>, k: int) -> bool {
    exists|p: int| 0 <= p < s.len() && s[p] == k
}

/// `order` lists distinct row indices below `n`, each row ahead of every row
/// that comes after it.
pub open spec fn is_sorted_order(keys: Seq<SortKey>, descending: bool, order: Seq<usize>, n: int) -> bool {
    &&& forall|i: int| 0 <= i < order.len() ==> #[trigger] order[i] < n
    &&& forall|i: int, j: int| 0 <= i < j < order.len() ==> #[trigger] order[i] != #[trigger] order[j]
    &&& forall|i: int, j: int|
        0 <= i < j < order.len() ==> comes_before(keys, descending, #[trigger] order[i] as int, #[trigger] order[j] as int)
}

fn lex_less(a: &Vec<char>, b: &Vec<char>) -> (res: bool)
    ensures
        res == lex_lt(a@, b@),
{
    let mut i: usize = 0;
    assert(a@.skip(0) =~= a@ && b@.skip(0) =~= b@);
    while i < a.len() && i < b.len()
        invariant
            i <= a@.len(),
            i <= b@.len(),
            a@.subrange(0, i as int) == b@.subrange(0, i as int),
            lex_lt(a@, b@) == lex_lt(a@.skip(i as int), b@.skip(i as int)),
        decreases a@.len() - i,
    {
        let x = a[i];
        let y = b[i];
        assert(a@.skip(i as int)[0] == x && b@.skip(i as int)[0] == y);
        if x != y {
            return x < y;
        }
        assert(a@.skip(i as int).drop_first() =~= a@.skip(i + 1));
        assert(b@.skip(i as int).drop_first() =~= b@.skip(i + 1));
        assert(a@.subrange(0, i + 1) =~= a@.subrange(0, i as int).push(x));
        assert(b@.subrange(0, i + 1) =~= b@.subrange(0, i as int).push(y));
        i = i + 1;
    }
    i < b.len()
}

fn key_less(a: &SortKey, b: &SortKey) -> (res: bool)
    ensures
        res == key_lt(*a, *b),
{
    match (a, b) {
        (SortKey::Num(x), SortKey::Num(y)) => *x < *y,
        (SortKey::Num(_), SortKey::Text(_)) => true,
        (SortKey::Text(_), SortKey::Num(_)) => false,
        (SortKey::Text(x), SortKey::Text(y)) => lex_less(x, y),
    }
}

fn before(keys: &Vec<SortKey>, descending: bool, a: usize, b: usize) -> (res: bool)
    requires
        a < keys@.len(),
        b < keys@.len(),
    ensures
        res == comes_before(keys@, descending, a as int, b as int),
{
    let lt_ab = key_less(&keys[a], &keys[b]);
    let lt_ba = key_less(&keys[b], &keys[a]);
    proof {
        lemma_key_order(keys@[a as int], keys@[b as int], keys@[b as int]);
    }
    if !lt_ab && !lt_ba {
        a < b
    } else if descending {
        lt_ba
    } else {
        lt_ab
    }
}

/// The row order of a stable sort of the rows by key, ascending or
/// descending: every index below `keys.len()` exactly once, each row ahead of
/// the rows that come after it (rows with equal keys in the order they came in).
pub fn stable_sort_indices(keys: &Vec<SortKey>, descending: bool) -> (res: Vec<usize>)
    ensures
        res@.len() == keys@.len(),
        is_sorted_order(keys@, descending, res@, keys@.len() as int),
        forall|k: int| 0 <= k < keys@.len() ==> #[trigger] contains_index(res@, k),
{
    let n = keys.len();
    let mut order: Vec<usize> = Vec::new();
    let mut i: usize = 0;
    while i < n
        invariant
            n == keys@.len(),
            i <= n,
            order@.len() == i,
            is_sorted_order(keys@, descending, order@, i as int),
            forall|k: int| 0 <= k < i ==> #[trigger] contains_index(order@, k),
        decreases n - i,
    {
        let mut p: usize = 0;
        while p < order.len() && !before(keys, descending, i, order[p])
            invariant
                n == keys@.len(),
                i < n,
                order@.len() == i,
                p <= order@.len(),
                is_sorted_order(keys@, descending, order@, i as int),
                forall|q: int| 0 <= q < p ==> !comes_before(keys@, descending, i as int, #[trigger] order@[q] as int),
            decreases order@.len() - p,
        {
            p = p + 1;
        }
        let ghost old_order = order@;
        proof {
            assert forall|q: int| 0 <= q < p implies comes_before(keys@, descending, #[trigger] old_order[q] as int, i as int) by {
                lemma_comes_before_order(keys@, descending, i as int, old_order[q] as int, i as int);
            }
            assert forall|q: int| p <= q < old_order.len() implies comes_before(keys@, descending, i as int, #[trigger] old_order[q] as int) by {
                if q > p {
                    lemma_comes_before_order(keys@, descending, i as int, old_order[p as int] as int, old_order[q] as int);
                }
            }
        }
        order.insert(p, i);
        assert(order@ =~= old_order.insert(p as int, i));
        assert forall|a: int, b: int| 0 <= a < b < order@.len() implies comes_before(keys@, descending, #[trigger] order@[a] as int, #[trigger] order@[b] as int) by {
            if a < p && b < p {
                assert(order@[a] == old_order[a] && order@[b] == old_order[b]);
            } else if a < p && b == p {
            } else if a < p && b > p {
                assert(order@[a] == old_order[a] && order@[b] == old_order[b - 1]);
            } else if a == p {
                assert(order@[b] == old_order[b - 1]);
            } else {
                assert(order@[a] == old_order[a - 1] && order@[b] == old_order[b - 1]);
            }
        }
        assert forall|a: int, b: int| 0 <= a < b < order@.len() implies #[trigger] order@[a] != #[trigger] order@[b] by {
            if a < p && b < p {
                assert(order@[a] == old_order[a] && order@[b] == old_order[b]);
            } else if a < p && b > p {
                assert(order@[a] == old_order[a] && order@[b] == old_order[b - 1]);
            } else if a > p {
                assert(order@[a] == old_order[a - 1] && order@[b] == old_order[b - 1]);
            } else if a < p {
                assert(old_order[a] < i);
            } else {
                assert(old_order[b - 1] < i);
            }
        }
        assert forall|k: int| 0 <= k < i + 1 implies #[trigger] contains_index(order@, k) by {
            if k < i {
                assert(contains_index(old_order, k));
                let q = choose|q: int| 0 <= q < old_order.len() && old_order[q] == k;
                if q < p {
                    assert(order@[q] == k);
                } else {
                    assert(order@[q + 1] == k);
                }
            } else {
                assert(order@[p as int] == k);
            }
        }
        i = i + 1;
    }
    order
}

} // verus!
