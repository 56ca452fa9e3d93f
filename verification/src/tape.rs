use vstd::prelude::*;
use vstd::string::*;
use std::collections::VecDeque;
use crate::side::TradeSide;

verus! {

/// Maximum number of rows kept in memory by a tape.
pub const MAX_ROWS: usize = 500;

/// Rows after a new row arrives: the new row on top, then the previous rows,
/// keeping at most `MAX_ROWS`.
pub open spec fn pushed_rows<T>(rows: Seq<T>, row: T) -> Seq<T> {
    let all = seq![row] + rows;
    if all.len() <= MAX_ROWS {
        all
    } else {
        all.take(MAX_ROWS as int)
    }
}

/// Rows after several rows arrive in order.
pub open spec fn pushed_all<T>(rows: Seq<T>, new_rows: Seq<T>) -> Seq<T>
    decreases new_rows.len(),
{
    if new_rows.len() == 0 {
        rows
    } else {
        pushed_rows(pushed_all(rows, new_rows.drop_last()), new_rows.last())
    }
}

/// `s` cut to at most `MAX_ROWS` elements.
pub open spec fn capped<T>(s: Seq<T>) -> Seq<T> {
    if s.len() <= MAX_ROWS {
        s
    } else {
        s.take(MAX_ROWS as int)
    }
}

/// After any run of arrivals the tape shows the newest rows first, the
/// arrivals in reverse order ahead of the rows it held, cut to `MAX_ROWS`.
pub proof fn lemma_pushed_all_newest_first<T>(rows: Seq<T>, new_rows: Seq<T>)
    requires
        rows.len() <= MAX_ROWS,
    ensures
        pushed_all(rows, new_rows) == capped(new_rows.reverse() + rows),
    decreases new_rows.len(),
{
    if new_rows.len() > 0 {
        lemma_pushed_all_newest_first(rows, new_rows.drop_last());
        let prev = capped(new_rows.drop_last().reverse() + rows);
        let r = new_rows.last();
        assert(new_rows.reverse() =~= seq![r] + new_rows.drop_last().reverse());
        let full = new_rows.reverse() + rows;
        assert(full =~= seq![r] + (new_rows.drop_last().reverse() + rows));
        if (new_rows.drop_last().reverse() + rows).len() <= MAX_ROWS {
            assert(pushed_rows(prev, r) =~= capped(full));
        } else {
            assert(pushed_rows(prev, r) =~= capped(full));
        }
    }
}

/// A bounded list of rows, newest first; it never holds more than
/// `MAX_ROWS` rows.
pub struct RecentRows<T> {
    rows: VecDeque<T>,
}

impl<T> RecentRows<T> {
    pub closed spec fn view_rows(&self) -> Seq<T> {
        self.rows@
    }

    #[verifier::type_invariant]
    spec fn bounded(&self) -> bool {
        self.rows@.len() <= MAX_ROWS
    }

    /// No rows.
    pub fn new() -> (res: RecentRows<T>)
        ensures
            res.view_rows() == Seq::<T>::empty(),
    {
        RecentRows { rows: VecDeque::new() }
    }

    /// Drops every row.
    pub fn clear(&mut self)
        ensures
            final(self).view_rows() == Seq::<T>::empty(),
    {
        let mut rows: VecDeque<T> = VecDeque::new();
        std::mem::swap(&mut rows, &mut self.rows);
    }

    /// Puts `row` on top, evicting the oldest row when the tape is full.
    pub fn push(&mut self, row: T)
        ensures
            final(self).view_rows() == pushed_rows(old(self).view_rows(), row),
    {
        proof {
            use_type_invariant(&*self);
        }
        let mut rows: VecDeque<T> = VecDeque::new();
        std::mem::swap(&mut rows, &mut self.rows);
        let ghost before = rows@;
        if rows.len() >= MAX_ROWS {
            let _ = rows.pop_back();
        }
        rows.push_front(row);
        assert(rows@ =~= pushed_rows(before, row));
        self.rows = rows;
    }

    /// The rows, newest first.
    pub fn rows(&self) -> (res: &VecDeque<T>)
        ensures
            res@ == self.view_rows(),
    {
        &self.rows
    }

    /// Number of rows held, never more than `MAX_ROWS`.
    pub fn len(&self) -> (res: usize)
        ensures
            res == self.view_rows().len(),
            res <= MAX_ROWS,
    {
        proof {
            use_type_invariant(self);
        }
        self.rows.len()
    }
}

/// A single trade entry displayed in the Times & Sales list.
pub struct TimesAndSalesEntry<P> {
    pub time: String,
    pub price: P,
    pub size: u64,
    pub side: TradeSide,
    pub symbol: String,
}

/// The Times & Sales buffer and the symbol currently shown.
pub struct TimesAndSalesView<P> {
    pub rows: RecentRows<TimesAndSalesEntry<P>>,
    pub symbol: String,
}

impl<P> TimesAndSalesView<P> {
    /// Empty tape, no symbol.
    pub fn new() -> (res: TimesAndSalesView<P>)
        ensures
            res.rows.view_rows().len() == 0,
            res.symbol@ == Seq::<char>::empty(),
    {
        TimesAndSalesView { rows: RecentRows::new(), symbol: String::new() }
    }

    /// Clears the rows and the symbol (e.g. when the subscription changes).
    pub fn clear(&mut self)
        ensures
            final(self).rows.view_rows().len() == 0,
            final(self).symbol@ == Seq::<char>::empty(),
    {
        self.rows.clear();
        self.symbol = String::new();
    }

    /// Pushes a new trade on top, evicting the oldest when full; a non-empty
    /// entry symbol becomes the shown symbol.
    pub fn push(&mut self, entry: TimesAndSalesEntry<P>)
        ensures
            final(self).rows.view_rows() == pushed_rows(old(self).rows.view_rows(), entry),
            final(self).symbol@ == if entry.symbol@.len() > 0 {
                entry.symbol@
            } else {
                old(self).symbol@
            },
    {
        if !entry.symbol.as_str().is_empty() {
            self.symbol = entry.symbol.clone();
        }
        self.rows.push(entry);
    }
}

/// A row of the trade tape in the order-flow tab.
pub struct TicksEntry<P> {
    pub time: String,
    pub price: P,
    pub size: u64,
    pub side: TradeSide,
    pub decimals: usize,
}

/// The trade tape of the order-flow tab.
pub struct TicksView<P> {
    pub rows: RecentRows<TicksEntry<P>>,
}

impl<P> TicksView<P> {
    /// Empty tape.
    pub fn new() -> (res: TicksView<P>)
        ensures
            res.rows.view_rows().len() == 0,
    {
        TicksView { rows: RecentRows::new() }
    }

    /// Drops every row.
    pub fn clear(&mut self)
        ensures
            final(self).rows.view_rows().len() == 0,
    {
        self.rows.clear();
    }

    /// Pushes a new trade on top, evicting the oldest when full.
    pub fn push(&mut self, entry: TicksEntry<P>)
        ensures
            final(self).rows.view_rows() == pushed_rows(old(self).rows.view_rows(), entry),
    {
        self.rows.push(entry);
    }
}

} // verus!
