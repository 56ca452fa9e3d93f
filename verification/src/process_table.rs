use vstd::prelude::*;
use crate::sorting::{SortKey, comes_before, contains_index, is_sorted_order, stable_sort_indices};

verus! {

/// Column by which the process table is ordered.
#[derive(Clone, Debug, Copy, PartialEq, Eq, Structural)]
pub enum ProcessSortField {
    Pid,
    Name,
    Cpu,
    Memory,
}

impl Default for ProcessSortField {
    fn default() -> (res: ProcessSortField)
        ensures
            res == ProcessSortField::Cpu,
    {
        ProcessSortField::Cpu
    }
}

pub open spec fn field_of_column(col_ix: usize) -> ProcessSortField {
    if col_ix == 0 {
        ProcessSortField::Pid
    } else if col_ix == 1 {
        ProcessSortField::Name
    } else if col_ix == 2 {
        ProcessSortField::Cpu
    } else if col_ix == 3 {
        ProcessSortField::Memory
    } else {
        ProcessSortField::Cpu
    }
}

impl ProcessSortField {
    /// Field of a clicked column (PID, name, CPU, memory); other columns sort
    /// by CPU.
    pub fn from_column(col_ix: usize) -> (res: ProcessSortField)
        ensures
            res == field_of_column(col_ix),
    {
        match col_ix {
            0 => ProcessSortField::Pid,
            1 => ProcessSortField::Name,
            2 => ProcessSortField::Cpu,
            3 => ProcessSortField::Memory,
            _ => ProcessSortField::Cpu,
        }
    }
}

/// Most rows the process table shows.
pub const MAX_PROCESS_ROWS: usize = 200;

/// Rows of the process table, as indices into the process list: ordered by
/// the sort keys (descending when `descending`, ties in list order), at most
/// `MAX_PROCESS_ROWS` of them: the first rows of that order, so every process
/// left out comes after every process shown.
pub fn process_display_order(keys: &Vec<SortKey>, descending: bool) -> (res: Vec<usize>)
    ensures
        res@.len() == if keys@.len() <= MAX_PROCESS_ROWS {
            keys@.len() as int
        } else {
            MAX_PROCESS_ROWS as int
        },
        is_sorted_order(keys@, descending, res@, keys@.len() as int),
        keys@.len() <= MAX_PROCESS_ROWS ==> forall|k: int|
            0 <= k < keys@.len() ==> #[trigger] contains_index(res@, k),
        forall|k: int|
            0 <= k < keys@.len() && !#[trigger] contains_index(res@, k) ==> forall|i: int|
                0 <= i < res@.len() ==> comes_before(keys@, descending, #[trigger] res@[i] as int, k),
{
    let mut order = stable_sort_indices(keys, descending);
    let ghost full = order@;
    order.truncate(MAX_PROCESS_ROWS);
    assert(order@.len() <= full.len());
    assert(forall|i: int| 0 <= i < order@.len() ==> order@[i] == full[i]);
    if keys.len() <= MAX_PROCESS_ROWS {
        assert(order@ =~= full);
    }
    assert forall|k: int|
        0 <= k < keys@.len() && !#[trigger] contains_index(order@, k) implies forall|i: int|
            0 <= i < order@.len() ==> comes_before(keys@, descending, #[trigger] order@[i] as int, k) by {
        assert(contains_index(full, k));
        let p = choose|p: int| 0 <= p < full.len() && full[p] == k;
        if p < order@.len() {
            assert(order@[p] == k);
        }
        assert forall|i: int| 0 <= i < order@.len() implies comes_before(keys@, descending, #[trigger] order@[i] as int, k) by {
            assert(order@[i] == full[i]);
            assert(i < p);
        }
    }
    order
}

} // verus!
