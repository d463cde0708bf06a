//! Ordering of process rows: the column order, and the two-pass stable sort
//! of a process table.

use vstd::prelude::*;
use vstd::seq_lib::seq_to_set_is_finite;
use vstd::set_lib::{lemma_int_range, lemma_subset_equality, set_int_range};
use crate::process::{ProcessRow, RowView, rows_view};
use crate::text::{
    chars_before, lemma_text_before_asymmetric, lemma_text_before_total,
    lemma_text_before_transitive, less_ignoring_case, lowercase_of, lowercase_chars, text_before,
};

verus! {

/// The column by which a process table is sorted.
#[derive(Clone, Copy, Debug, PartialEq, Eq, Structural)]
pub enum ProcessSorting {
    CpuPercent,
    Mem,
    MemPercent,
    Pid,
    ProcessName,
    Command,
    ReadPerSecond,
    WritePerSecond,
    TotalRead,
    TotalWrite,
    State,
    Count,
}

/// `a` comes strictly before `b` in the ascending order of `column`. Text
/// columns compare without regard to letter case.
pub open spec fn key_before(a: RowView, b: RowView, column: ProcessSorting) -> bool {
    match column {
        ProcessSorting::CpuPercent => a.cpu_usage < b.cpu_usage,
        ProcessSorting::Mem => a.mem_bytes < b.mem_bytes,
        ProcessSorting::MemPercent => a.mem_usage < b.mem_usage,
        ProcessSorting::Pid => a.pid < b.pid,
        ProcessSorting::ProcessName => text_before(lowercase_of(a.name), lowercase_of(b.name)),
        ProcessSorting::Command => text_before(lowercase_of(a.command), lowercase_of(b.command)),
        ProcessSorting::ReadPerSecond => a.read_bytes_per_sec < b.read_bytes_per_sec,
        ProcessSorting::WritePerSecond => a.write_bytes_per_sec < b.write_bytes_per_sec,
        ProcessSorting::TotalRead => a.total_read_bytes < b.total_read_bytes,
        ProcessSorting::TotalWrite => a.total_write_bytes < b.total_write_bytes,
        ProcessSorting::State => text_before(
            lowercase_of(a.process_state),
            lowercase_of(b.process_state),
        ),
        ProcessSorting::Count => a.group_pids.len() < b.group_pids.len(),
    }
}

/// `a` comes strictly before `b` in the order of `column`, ascending or
/// descending.
pub open spec fn row_before(a: RowView, b: RowView, column: ProcessSorting, descending: bool) -> bool {
    if descending {
        key_before(b, a, column)
    } else {
        key_before(a, b, column)
    }
}

/// Of two rows at most one comes before the other.
pub proof fn lemma_key_before_asymmetric(a: RowView, b: RowView, column: ProcessSorting)
    ensures
        !(key_before(a, b, column) && key_before(b, a, column)),
{
    lemma_text_before_asymmetric(lowercase_of(a.name), lowercase_of(b.name));
    lemma_text_before_asymmetric(lowercase_of(a.command), lowercase_of(b.command));
    lemma_text_before_asymmetric(lowercase_of(a.process_state), lowercase_of(b.process_state));
}

/// `perm` lists the indices `0..n`, each once.
pub open spec fn is_index_permutation(perm: Seq<int>, n: nat) -> bool {
    &&& perm.len() == n
    &&& forall|i: int| 0 <= i < n ==> 0 <= #[trigger] perm[i] < n
    &&& forall|i: int, j: int| 0 <= i < j < n ==> #[trigger] perm[i] != #[trigger] perm[j]
}

/// `after` holds the rows of `before`, row `i` of `after` being row `perm[i]`
/// of `before`; it is in the order of `column`; and rows that the order does
/// not separate stand as they stood in `before`.
pub open spec fn is_stable_sort_by(
    before: Seq<RowView>,
    after: Seq<RowView>,
    perm: Seq<int>,
    column: ProcessSorting,
    descending: bool,
) -> bool {
    &&& after.len() == before.len()
    &&& is_index_permutation(perm, before.len())
    &&& forall|i: int| 0 <= i < after.len() ==> #[trigger] after[i] == before[perm[i]]
    &&& forall|i: int, j: int|
        0 <= i < j < after.len() ==> !row_before(
            #[trigger] after[j],
            #[trigger] after[i],
            column,
            descending,
        )
    &&& forall|i: int, j: int|
        0 <= i < j < after.len() && !row_before(after[i], after[j], column, descending)
            ==> #[trigger] perm[i] < #[trigger] perm[j]
}

/// `after` is the stable sort of `before` by `column`.
pub open spec fn is_stable_sort(
    before: Seq<RowView>,
    after: Seq<RowView>,
    column: ProcessSorting,
    descending: bool,
) -> bool {
    exists|perm: Seq<int>| is_stable_sort_by(before, after, perm, column, descending)
}

/// Whether sorting by `column` has a meaning in the table's mode: a grouped
/// table has no pid column, and only a grouped table has a count column.
pub open spec fn column_applies(column: ProcessSorting, is_grouped: bool) -> bool {
    match column {
        ProcessSorting::Pid => !is_grouped,
        ProcessSorting::Count => is_grouped,
        _ => true,
    }
}

/// `after` is `before` sorted for display: first by name, ascending and
/// ignoring case, into `by_name`; then, where the column applies, by the
/// column, so that the name order decides between rows that the column does
/// not separate.
pub open spec fn is_process_sort_via(
    before: Seq<RowView>,
    by_name: Seq<RowView>,
    after: Seq<RowView>,
    column: ProcessSorting,
    descending: bool,
    is_grouped: bool,
) -> bool {
    &&& is_stable_sort(before, by_name, ProcessSorting::ProcessName, false)
    &&& if column_applies(column, is_grouped) {
        is_stable_sort(by_name, after, column, descending)
    } else {
        after == by_name
    }
}

/// `after` is `before` sorted for display by `column`.
pub open spec fn is_process_sort(
    before: Seq<RowView>,
    after: Seq<RowView>,
    column: ProcessSorting,
    descending: bool,
    is_grouped: bool,
) -> bool {
    exists|by_name: Seq<RowView>|
        is_process_sort_via(before, by_name, after, column, descending, is_grouped)
}

/// Whether `a` comes strictly before `b` in the ascending order of `column`.
pub fn row_less(a: &ProcessRow, b: &ProcessRow, column: ProcessSorting) -> (less: bool)
    ensures
        less == key_before(a@, b@, column),
{
    match column {
        ProcessSorting::CpuPercent => a.cpu_usage < b.cpu_usage,
        ProcessSorting::Mem => a.mem_bytes < b.mem_bytes,
        ProcessSorting::MemPercent => a.mem_usage < b.mem_usage,
        ProcessSorting::Pid => a.pid < b.pid,
        ProcessSorting::ProcessName => less_ignoring_case(a.name.as_str(), b.name.as_str()),
        ProcessSorting::Command => less_ignoring_case(a.command.as_str(), b.command.as_str()),
        ProcessSorting::ReadPerSecond => a.read_bytes_per_sec < b.read_bytes_per_sec,
        ProcessSorting::WritePerSecond => a.write_bytes_per_sec < b.write_bytes_per_sec,
        ProcessSorting::TotalRead => a.total_read_bytes < b.total_read_bytes,
        ProcessSorting::TotalWrite => a.total_write_bytes < b.total_write_bytes,
        ProcessSorting::State => less_ignoring_case(
            a.process_state.as_str(),
            b.process_state.as_str(),
        ),
        ProcessSorting::Count => a.group_pids.len() < b.group_pids.len(),
    }
}

/// Row `a` of the table goes before row `b` in a stable sort: the order of
/// the column puts it first, or does not separate the two and `a` stands
/// first already.
pub open spec fn index_before(
    rows: Seq<RowView>,
    a: int,
    b: int,
    column: ProcessSorting,
    descending: bool,
) -> bool {
    ||| row_before(rows[a], rows[b], column, descending)
    ||| (!row_before(rows[b], rows[a], column, descending) && a < b)
}

/// Every index is below `n`.
pub open spec fn indices_in_range(indices: Seq<usize>, n: nat) -> bool {
    forall|k: int| 0 <= k < indices.len() ==> (#[trigger] indices[k]) < n
}

/// The indices stand in the order of a stable sort of the table.
pub open spec fn indices_sorted(
    rows: Seq<RowView>,
    indices: Seq<usize>,
    column: ProcessSorting,
    descending: bool,
) -> bool {
    forall|i: int, j: int|
        0 <= i < j < indices.len() ==> index_before(
            rows,
            (#[trigger] indices[i]) as int,
            (#[trigger] indices[j]) as int,
            column,
            descending,
        )
}

proof fn lemma_text_order(a: Seq<char>, b: Seq<char>, c: Seq<char>)
    ensures
        !(text_before(a, b) && text_before(b, a)),
        text_before(a, b) && text_before(b, c) ==> text_before(a, c),
        !text_before(a, b) && !text_before(b, a) ==> a == b,
{
    lemma_text_before_asymmetric(a, b);
    lemma_text_before_total(a, b);
    if text_before(a, b) && text_before(b, c) {
        lemma_text_before_transitive(a, b, c);
    }
}

/// The order of a column is a strict weak order: it is transitive, and so
/// is being left unseparated by it.
pub proof fn lemma_row_order(
    x: RowView,
    y: RowView,
    z: RowView,
    column: ProcessSorting,
    descending: bool,
)
    ensures
        !row_before(x, x, column, descending),
        row_before(x, y, column, descending) && row_before(y, z, column, descending)
            ==> row_before(x, z, column, descending),
        row_before(x, y, column, descending) && !row_before(z, y, column, descending)
            ==> row_before(x, z, column, descending),
        !row_before(y, x, column, descending) && row_before(y, z, column, descending)
            ==> row_before(x, z, column, descending),
{
    match column {
        ProcessSorting::ProcessName => {
            lemma_text_orders(lowercase_of(x.name), lowercase_of(y.name), lowercase_of(z.name));
        },
        ProcessSorting::Command => {
            lemma_text_orders(
                lowercase_of(x.command),
                lowercase_of(y.command),
                lowercase_of(z.command),
            );
        },
        ProcessSorting::State => {
            lemma_text_orders(
                lowercase_of(x.process_state),
                lowercase_of(y.process_state),
                lowercase_of(z.process_state),
            );
        },
        _ => {},
    }
}

proof fn lemma_text_orders(a: Seq<char>, b: Seq<char>, c: Seq<char>)
    ensures
        !text_before(a, a),
        text_before(a, b) && text_before(b, c) ==> text_before(a, c),
        text_before(c, b) && text_before(b, a) ==> text_before(c, a),
        text_before(a, b) && !text_before(c, b) ==> text_before(a, c),
        text_before(b, a) && !text_before(b, c) ==> text_before(c, a),
        !text_before(b, a) && text_before(b, c) ==> text_before(a, c),
        !text_before(a, b) && text_before(c, b) ==> text_before(c, a),
{
    lemma_text_order(a, a, a);
    lemma_text_order(a, b, c);
    lemma_text_order(c, b, a);
    lemma_text_order(b, c, a);
    lemma_text_order(b, a, c);
}

/// Going before in a stable sort is a strict total order on the rows'
/// indices.
pub proof fn lemma_index_order(
    rows: Seq<RowView>,
    a: int,
    b: int,
    c: int,
    column: ProcessSorting,
    descending: bool,
)
    ensures
        !index_before(rows, a, a, column, descending),
        a != b ==> index_before(rows, a, b, column, descending) || index_before(
            rows,
            b,
            a,
            column,
            descending,
        ),
        index_before(rows, a, b, column, descending) && index_before(
            rows,
            b,
            c,
            column,
            descending,
        ) ==> index_before(rows, a, c, column, descending),
{
    lemma_row_order(rows[a], rows[b], rows[c], column, descending);
    lemma_row_order(rows[a], rows[c], rows[b], column, descending);
    lemma_row_order(rows[b], rows[a], rows[c], column, descending);
    lemma_row_order(rows[b], rows[c], rows[a], column, descending);
    lemma_row_order(rows[c], rows[a], rows[b], column, descending);
    lemma_row_order(rows[c], rows[b], rows[a], column, descending);
    lemma_key_before_asymmetric(rows[a], rows[b], column);
    lemma_key_before_asymmetric(rows[b], rows[c], column);
    lemma_key_before_asymmetric(rows[a], rows[c], column);
}

/// The text by which a text column orders a row, in lower case; empty for
/// a column of numbers.
pub open spec fn text_key(row: RowView, column: ProcessSorting) -> Seq<char> {
    match column {
        ProcessSorting::ProcessName => lowercase_of(row.name),
        ProcessSorting::Command => lowercase_of(row.command),
        ProcessSorting::State => lowercase_of(row.process_state),
        _ => Seq::empty(),
    }
}

/// `keys` holds the text key of each row of the table.
pub open spec fn keys_match(rows: Seq<RowView>, keys: Seq<Vec<char>>, column: ProcessSorting) -> bool {
    &&& keys.len() == rows.len()
    &&& forall|i: int| 0 <= i < rows.len() ==> (#[trigger] keys[i])@ == text_key(rows[i], column)
}

fn key_of(row: &ProcessRow, column: ProcessSorting) -> (key: Vec<char>)
    ensures
        key@ == text_key(row@, column),
{
    match column {
        ProcessSorting::ProcessName => lowercase_chars(row.name.as_str()),
        ProcessSorting::Command => lowercase_chars(row.command.as_str()),
        ProcessSorting::State => lowercase_chars(row.process_state.as_str()),
        _ => Vec::new(),
    }
}

fn keys_of(rows: &Vec<ProcessRow>, column: ProcessSorting) -> (keys: Vec<Vec<char>>)
    ensures
        keys_match(rows_view(rows@), keys@, column),
{
    let mut keys: Vec<Vec<char>> = Vec::new();
    let mut i: usize = 0;
    while i < rows.len()
        invariant
            i <= rows.len(),
            keys@.len() == i,
            forall|k: int|
                0 <= k < i ==> (#[trigger] keys@[k])@ == text_key(rows_view(rows@)[k], column),
        decreases rows.len() - i,
    {
        let key = key_of(&rows[i], column);
        keys.push(key);
        i = i + 1;
    }
    keys
}

fn key_less(
    a: &ProcessRow,
    a_key: &Vec<char>,
    b: &ProcessRow,
    b_key: &Vec<char>,
    column: ProcessSorting,
) -> (less: bool)
    requires
        a_key@ == text_key(a@, column),
        b_key@ == text_key(b@, column),
    ensures
        less == key_before(a@, b@, column),
{
    match column {
        ProcessSorting::ProcessName => chars_before(a_key, b_key),
        ProcessSorting::Command => chars_before(a_key, b_key),
        ProcessSorting::State => chars_before(a_key, b_key),
        _ => row_less(a, b, column),
    }
}

fn goes_before(
    rows: &Vec<ProcessRow>,
    keys: &Vec<Vec<char>>,
    a: usize,
    b: usize,
    column: ProcessSorting,
    descending: bool,
) -> (before: bool)
    requires
        a < rows.len(),
        b < rows.len(),
        keys_match(rows_view(rows@), keys@, column),
    ensures
        before == index_before(rows_view(rows@), a as int, b as int, column, descending),
{
    let less = key_less(&rows[a], &keys[a], &rows[b], &keys[b], column);
    let greater = key_less(&rows[b], &keys[b], &rows[a], &keys[a], column);
    proof {
        lemma_key_before_asymmetric(rows_view(rows@)[a as int], rows_view(rows@)[b as int], column);
    }
    if less {
        !descending
    } else if greater {
        descending
    } else {
        a < b
    }
}

fn merge_indices(
    rows: &Vec<ProcessRow>,
    keys: &Vec<Vec<char>>,
    left: &Vec<usize>,
    right: &Vec<usize>,
    column: ProcessSorting,
    descending: bool,
) -> (merged: Vec<usize>)
    requires
        keys_match(rows_view(rows@), keys@, column),
        indices_in_range(left@, rows@.len()),
        indices_in_range(right@, rows@.len()),
        indices_sorted(rows_view(rows@), left@, column, descending),
        indices_sorted(rows_view(rows@), right@, column, descending),
        forall|i: int, j: int|
            0 <= i < left@.len() && 0 <= j < right@.len() ==> #[trigger] left@[i]
                != #[trigger] right@[j],
    ensures
        merged@.len() == left@.len() + right@.len(),
        indices_in_range(merged@, rows@.len()),
        indices_sorted(rows_view(rows@), merged@, column, descending),
        forall|k: int|
            0 <= k < merged@.len() ==> left@.contains(#[trigger] merged@[k]) || right@.contains(
                merged@[k],
            ),
{
    let ghost all = rows_view(rows@);
    let mut merged: Vec<usize> = Vec::new();
    let mut i: usize = 0;
    let mut j: usize = 0;
    while i < left.len() || j < right.len()
        invariant
            i <= left@.len(),
            j <= right@.len(),
            all == rows_view(rows@),
            keys_match(all, keys@, column),
            merged@.len() == i + j,
            indices_in_range(left@, rows@.len()),
            indices_in_range(right@, rows@.len()),
            indices_in_range(merged@, rows@.len()),
            indices_sorted(all, left@, column, descending),
            indices_sorted(all, right@, column, descending),
            indices_sorted(all, merged@, column, descending),
            forall|x: int, y: int|
                0 <= x < left@.len() && 0 <= y < right@.len() ==> #[trigger] left@[x]
                    != #[trigger] right@[y],
            forall|k: int, x: int|
                0 <= k < merged@.len() && i <= x < left@.len() ==> index_before(
                    all,
                    (#[trigger] merged@[k]) as int,
                    (#[trigger] left@[x]) as int,
                    column,
                    descending,
                ),
            forall|k: int, y: int|
                0 <= k < merged@.len() && j <= y < right@.len() ==> index_before(
                    all,
                    (#[trigger] merged@[k]) as int,
                    (#[trigger] right@[y]) as int,
                    column,
                    descending,
                ),
            forall|k: int|
                0 <= k < merged@.len() ==> left@.contains(#[trigger] merged@[k])
                    || right@.contains(merged@[k]),
        decreases left@.len() + right@.len() - i - j,
    {
        let ghost so_far = merged@;
        let take_left = if i >= left.len() {
            false
        } else if j >= right.len() {
            true
        } else {
            goes_before(rows, keys, left[i], right[j], column, descending)
        };
        if take_left {
            let next = left[i];
            merged.push(next);
            proof {
                assert(left@.contains(next));
                assert forall|k: int, y: int|
                    0 <= k < merged@.len() && j <= y < right@.len() implies index_before(
                    all,
                    (#[trigger] merged@[k]) as int,
                    (#[trigger] right@[y]) as int,
                    column,
                    descending,
                ) by {
                    if k == so_far.len() {
                        assert(left@[i as int] != right@[j as int]);
                        lemma_index_order(
                            all,
                            next as int,
                            right@[j as int] as int,
                            right@[y] as int,
                            column,
                            descending,
                        );
                    } else {
                        assert(merged@[k] == so_far[k]);
                    }
                }
                assert forall|k: int, x: int|
                    0 <= k < merged@.len() && i + 1 <= x < left@.len() implies index_before(
                    all,
                    (#[trigger] merged@[k]) as int,
                    (#[trigger] left@[x]) as int,
                    column,
                    descending,
                ) by {
                    if k < so_far.len() {
                        assert(merged@[k] == so_far[k]);
                    }
                }
                assert forall|a: int, b: int| 0 <= a < b < merged@.len() implies index_before(
                    all,
                    (#[trigger] merged@[a]) as int,
                    (#[trigger] merged@[b]) as int,
                    column,
                    descending,
                ) by {
                    assert(merged@[a] == so_far[a]);
                    if b < so_far.len() {
                        assert(merged@[b] == so_far[b]);
                    }
                }
                assert forall|k: int| 0 <= k < merged@.len() implies left@.contains(
                    #[trigger] merged@[k],
                ) || right@.contains(merged@[k]) by {
                    if k < so_far.len() {
                        assert(merged@[k] == so_far[k]);
                    }
                }
            }
            i = i + 1;
        } else {
            let next = right[j];
            merged.push(next);
            proof {
                assert(right@.contains(next));
                assert forall|k: int, x: int|
                    0 <= k < merged@.len() && i <= x < left@.len() implies index_before(
                    all,
                    (#[trigger] merged@[k]) as int,
                    (#[trigger] left@[x]) as int,
                    column,
                    descending,
                ) by {
                    if k == so_far.len() {
                        assert(left@[i as int] != right@[j as int]);
                        lemma_index_order(
                            all,
                            next as int,
                            left@[i as int] as int,
                            left@[x] as int,
                            column,
                            descending,
                        );
                        lemma_index_order(
                            all,
                            left@[i as int] as int,
                            next as int,
                            left@[x] as int,
                            column,
                            descending,
                        );
                    } else {
                        assert(merged@[k] == so_far[k]);
                    }
                }
                assert forall|k: int, y: int|
                    0 <= k < merged@.len() && j + 1 <= y < right@.len() implies index_before(
                    all,
                    (#[trigger] merged@[k]) as int,
                    (#[trigger] right@[y]) as int,
                    column,
                    descending,
                ) by {
                    if k < so_far.len() {
                        assert(merged@[k] == so_far[k]);
                    }
                }
                assert forall|a: int, b: int| 0 <= a < b < merged@.len() implies index_before(
                    all,
                    (#[trigger] merged@[a]) as int,
                    (#[trigger] merged@[b]) as int,
                    column,
                    descending,
                ) by {
                    assert(merged@[a] == so_far[a]);
                    if b < so_far.len() {
                        assert(merged@[b] == so_far[b]);
                    }
                }
                assert forall|k: int| 0 <= k < merged@.len() implies left@.contains(
                    #[trigger] merged@[k],
                ) || right@.contains(merged@[k]) by {
                    if k < so_far.len() {
                        assert(merged@[k] == so_far[k]);
                    }
                }
            }
            j = j + 1;
        }
    }
    merged
}

/// The value stands in `indices` at an index from `lo` up to `hi`.
spec fn stands_between(indices: Seq<usize>, lo: int, hi: int, value: usize) -> bool {
    exists|m: int| lo <= m < hi && #[trigger] indices[m] == value
}

fn sort_indices(
    rows: &Vec<ProcessRow>,
    keys: &Vec<Vec<char>>,
    indices: &Vec<usize>,
    lo: usize,
    hi: usize,
    column: ProcessSorting,
    descending: bool,
) -> (sorted: Vec<usize>)
    requires
        keys_match(rows_view(rows@), keys@, column),
        lo <= hi <= indices@.len(),
        indices_in_range(indices@, rows@.len()),
        forall|i: int, j: int|
            0 <= i < j < indices@.len() ==> #[trigger] indices@[i] != #[trigger] indices@[j],
    ensures
        sorted@.len() == hi - lo,
        indices_in_range(sorted@, rows@.len()),
        indices_sorted(rows_view(rows@), sorted@, column, descending),
        forall|k: int|
            0 <= k < sorted@.len() ==> stands_between(
                indices@,
                lo as int,
                hi as int,
                #[trigger] sorted@[k],
            ),
    decreases hi - lo,
{
    if hi - lo <= 1 {
        let mut sorted: Vec<usize> = Vec::new();
        if lo < hi {
            sorted.push(indices[lo]);
            assert(stands_between(indices@, lo as int, hi as int, indices@[lo as int]));
        }
        sorted
    } else {
        let mid = lo + (hi - lo) / 2;
        let left = sort_indices(rows, keys, indices, lo, mid, column, descending);
        let right = sort_indices(rows, keys, indices, mid, hi, column, descending);
        proof {
            assert forall|i: int, j: int|
                0 <= i < left@.len() && 0 <= j < right@.len() implies #[trigger] left@[i]
                != #[trigger] right@[j] by {
                assert(stands_between(indices@, lo as int, mid as int, left@[i]));
                assert(stands_between(indices@, mid as int, hi as int, right@[j]));
                let m = choose|m: int| lo <= m < mid && #[trigger] indices@[m] == left@[i];
                let n = choose|n: int| mid <= n < hi && #[trigger] indices@[n] == right@[j];
                assert(indices@[m] != indices@[n]);
            }
        }
        let sorted = merge_indices(rows, keys, &left, &right, column, descending);
        proof {
            assert forall|k: int| 0 <= k < sorted@.len() implies stands_between(
                indices@,
                lo as int,
                hi as int,
                #[trigger] sorted@[k],
            ) by {
                let value = sorted@[k];
                if left@.contains(value) {
                    let x = choose|x: int| 0 <= x < left@.len() && left@[x] == value;
                    assert(stands_between(indices@, lo as int, mid as int, left@[x]));
                    let m = choose|m: int| lo <= m < mid && #[trigger] indices@[m] == left@[x];
                    assert(lo <= m < hi && indices@[m] == value);
                } else {
                    let y = choose|y: int| 0 <= y < right@.len() && right@[y] == value;
                    assert(stands_between(indices@, mid as int, hi as int, right@[y]));
                    let n = choose|n: int| mid <= n < hi && #[trigger] indices@[n] == right@[y];
                    assert(lo <= n < hi && indices@[n] == value);
                }
            }
        }
        sorted
    }
}

/// Sorts the table stably by a column: the rows come into the order of the
/// column, and rows that the order does not separate keep their relative
/// order.
pub fn stable_sort_rows(rows: &mut Vec<ProcessRow>, column: ProcessSorting, descending: bool)
    ensures
        is_stable_sort(rows_view(old(rows)@), rows_view(final(rows)@), column, descending),
{
    let ghost before = rows_view(rows@);
    let n = rows.len();
    let mut indices: Vec<usize> = Vec::new();
    let mut k: usize = 0;
    while k < n
        invariant
            k <= n,
            indices@.len() == k,
            forall|m: int| 0 <= m < k ==> #[trigger] indices@[m] == m,
        decreases n - k,
    {
        indices.push(k);
        k = k + 1;
    }
    let keys = keys_of(rows, column);
    let order = sort_indices(rows, &keys, &indices, 0, n, column, descending);
    let mut sorted: Vec<ProcessRow> = Vec::new();
    let mut i: usize = 0;
    while i < n
        invariant
            i <= n,
            n == rows@.len(),
            order@.len() == n,
            before == rows_view(rows@),
            indices_in_range(order@, rows@.len()),
            sorted@.len() == i,
            forall|m: int| 0 <= m < i ==> (#[trigger] sorted@[m])@ == before[order@[m] as int],
        decreases n - i,
    {
        let row = rows[order[i]].duplicate();
        sorted.push(row);
        i = i + 1;
    }
    proof {
        let perm = Seq::new(n as nat, |m: int| order@[m] as int);
        let after = rows_view(sorted@);
        assert forall|a: int, b: int| 0 <= a < b < n implies #[trigger] perm[a]
            != #[trigger] perm[b] by {
            lemma_index_order(before, perm[a], perm[b], perm[b], column, descending);
            assert(index_before(before, order@[a] as int, order@[b] as int, column, descending));
        }
        assert forall|a: int, b: int| 0 <= a < b < after.len() implies !row_before(
            #[trigger] after[b],
            #[trigger] after[a],
            column,
            descending,
        ) by {
            assert(index_before(before, order@[a] as int, order@[b] as int, column, descending));
            lemma_key_before_asymmetric(after[a], after[b], column);
        }
        assert forall|a: int, b: int|
            0 <= a < b < after.len() && !row_before(
                after[a],
                after[b],
                column,
                descending,
            ) implies #[trigger] perm[a] < #[trigger] perm[b] by {
            assert(index_before(before, order@[a] as int, order@[b] as int, column, descending));
        }
        assert(is_stable_sort_by(before, after, perm, column, descending));
    }
    *rows = sorted;
}

/// A table already in the order of `column` is its own stable sort.
pub proof fn lemma_sorted_is_own_stable_sort(
    rows: Seq<RowView>,
    column: ProcessSorting,
    descending: bool,
)
    requires
        forall|i: int, j: int|
            0 <= i < j < rows.len() ==> !row_before(
                #[trigger] rows[j],
                #[trigger] rows[i],
                column,
                descending,
            ),
    ensures
        is_stable_sort(rows, rows, column, descending),
{
    let perm = Seq::new(rows.len(), |i: int| i);
    assert(is_stable_sort_by(rows, rows, perm, column, descending));
}

/// Sorts a process table for display: by name first, ascending and ignoring
/// case, then by the column and direction, so that name order decides
/// between rows that the column does not separate. A column without meaning
/// in the table's mode leaves the name order as it is.
pub fn sort_rows(
    to_sort_vec: &mut Vec<ProcessRow>,
    column: ProcessSorting,
    descending: bool,
    is_grouped: bool,
)
    ensures
        is_process_sort(
            rows_view(old(to_sort_vec)@),
            rows_view(final(to_sort_vec)@),
            column,
            descending,
            is_grouped,
        ),
{
    stable_sort_rows(to_sort_vec, ProcessSorting::ProcessName, false);
    let ghost by_name = rows_view(to_sort_vec@);
    let applies = match column {
        ProcessSorting::Pid => !is_grouped,
        ProcessSorting::Count => is_grouped,
        _ => true,
    };
    let redundant = match column {
        ProcessSorting::ProcessName => !descending,
        _ => false,
    };
    if applies && !redundant {
        stable_sort_rows(to_sort_vec, column, descending);
    }
    proof {
        if redundant {
            lemma_sorted_is_own_stable_sort(by_name, column, descending);
        }
        assert(is_process_sort_via(
            rows_view(old(to_sort_vec)@),
            by_name,
            rows_view(final(to_sort_vec)@),
            column,
            descending,
            is_grouped,
        ));
    }
}

/// Rows that the column does not separate stand in name order: of two such
/// rows the later one's name never comes before the earlier one's.
pub proof fn lemma_sort_ties_keep_name_order(
    before: Seq<RowView>,
    after: Seq<RowView>,
    column: ProcessSorting,
    descending: bool,
    is_grouped: bool,
    i: int,
    j: int,
)
    requires
        is_process_sort(before, after, column, descending, is_grouped),
        0 <= i < j < after.len(),
        !row_before(after[i], after[j], column, descending),
    ensures
        !key_before(after[j], after[i], ProcessSorting::ProcessName),
{
    let by_name = choose|by_name: Seq<RowView>|
        is_process_sort_via(before, by_name, after, column, descending, is_grouped);
    if column_applies(column, is_grouped) {
        let perm = choose|perm: Seq<int>|
            is_stable_sort_by(by_name, after, perm, column, descending);
        assert(after[i] == by_name[perm[i]]);
        assert(after[j] == by_name[perm[j]]);
        assert(perm[i] < perm[j]);
        let name_perm = choose|p: Seq<int>|
            is_stable_sort_by(before, by_name, p, ProcessSorting::ProcessName, false);
        assert(!row_before(by_name[perm[j]], by_name[perm[i]], ProcessSorting::ProcessName, false));
    } else {
        let name_perm = choose|p: Seq<int>|
            is_stable_sort_by(before, by_name, p, ProcessSorting::ProcessName, false);
        assert(!row_before(after[j], after[i], ProcessSorting::ProcessName, false));
    }
}

/// `after` holds the rows of `before`, row `i` of `after` being row
/// `perm[i]` of `before`, and rows that neither the column nor the name
/// separates stand as they stood in `before`.
pub open spec fn is_stable_arrangement(
    before: Seq<RowView>,
    after: Seq<RowView>,
    perm: Seq<int>,
    column: ProcessSorting,
    descending: bool,
) -> bool {
    &&& after.len() == before.len()
    &&& is_index_permutation(perm, before.len())
    &&& forall|i: int| 0 <= i < after.len() ==> #[trigger] after[i] == before[perm[i]]
    &&& forall|i: int, j: int|
        0 <= i < j < after.len() && !row_before(after[i], after[j], column, descending)
            && !key_before(after[i], after[j], ProcessSorting::ProcessName) ==> #[trigger] perm[i]
            < #[trigger] perm[j]
}

/// Sorting for display rearranges and loses nothing: the sorted table
/// holds each row of the table once, and rows that neither the column nor
/// the name separates keep the order in which they came.
pub proof fn lemma_process_sort_is_stable(
    before: Seq<RowView>,
    after: Seq<RowView>,
    column: ProcessSorting,
    descending: bool,
    is_grouped: bool,
)
    requires
        is_process_sort(before, after, column, descending, is_grouped),
    ensures
        exists|perm: Seq<int>| is_stable_arrangement(before, after, perm, column, descending),
{
    let by_name = choose|by_name: Seq<RowView>|
        is_process_sort_via(before, by_name, after, column, descending, is_grouped);
    let first = choose|p: Seq<int>|
        is_stable_sort_by(before, by_name, p, ProcessSorting::ProcessName, false);
    if column_applies(column, is_grouped) {
        let second = choose|p: Seq<int>| is_stable_sort_by(by_name, after, p, column, descending);
        let perm = Seq::new(before.len(), |i: int| first[second[i]]);
        assert forall|i: int, j: int| 0 <= i < j < before.len() implies #[trigger] perm[i]
            != #[trigger] perm[j] by {
            assert(second[i] != second[j]);
            if second[i] < second[j] {
                assert(first[second[i]] != first[second[j]]);
            } else {
                assert(first[second[j]] != first[second[i]]);
            }
        }
        assert forall|i: int| 0 <= i < after.len() implies #[trigger] after[i]
            == before[perm[i]] by {
            assert(after[i] == by_name[second[i]]);
            assert(by_name[second[i]] == before[first[second[i]]]);
        }
        assert forall|i: int, j: int|
            0 <= i < j < after.len() && !row_before(after[i], after[j], column, descending)
                && !key_before(
                after[i],
                after[j],
                ProcessSorting::ProcessName,
            ) implies #[trigger] perm[i] < #[trigger] perm[j] by {
            assert(second[i] < second[j]);
            assert(after[i] == by_name[second[i]]);
            assert(after[j] == by_name[second[j]]);
            assert(first[second[i]] < first[second[j]]);
        }
        assert(is_stable_arrangement(before, after, perm, column, descending));
    } else {
        assert(is_stable_arrangement(before, after, first, column, descending));
    }
}

/// An index permutation leaves no index out.
pub proof fn lemma_permutation_is_onto(perm: Seq<int>, n: nat, value: int)
    requires
        is_index_permutation(perm, n),
        0 <= value < n,
    ensures
        exists|m: int| 0 <= m < n && perm[m] == value,
{
    assert(perm.no_duplicates()) by {
        assert forall|i: int, j: int|
            0 <= i < perm.len() && 0 <= j < perm.len() && i != j implies perm[i] != perm[j] by {
            if i < j {
                assert(perm[i] != perm[j]);
            } else {
                assert(perm[j] != perm[i]);
            }
        }
    }
    perm.unique_seq_to_set();
    lemma_int_range(0, n as int);
    seq_to_set_is_finite(perm);
    assert(perm.to_set().subset_of(set_int_range(0, n as int))) by {
        assert forall|v: int| perm.to_set().contains(v) implies set_int_range(
            0,
            n as int,
        ).contains(v) by {
            let at = choose|at: int| 0 <= at < perm.len() && perm[at] == v;
            assert(0 <= perm[at] < n);
        }
    }
    lemma_subset_equality(perm.to_set(), set_int_range(0, n as int));
    assert(set_int_range(0, n as int).contains(value));
    assert(perm.to_set().contains(value));
    assert(perm.contains(value));
}

proof fn lemma_sorted_permutations_agree(
    rows: Seq<RowView>,
    first: Seq<int>,
    second: Seq<int>,
    column: ProcessSorting,
    descending: bool,
    k: int,
)
    requires
        is_index_permutation(first, rows.len()),
        is_index_permutation(second, rows.len()),
        forall|i: int, j: int|
            0 <= i < j < rows.len() ==> index_before(
                rows,
                #[trigger] first[i],
                #[trigger] first[j],
                column,
                descending,
            ),
        forall|i: int, j: int|
            0 <= i < j < rows.len() ==> index_before(
                rows,
                #[trigger] second[i],
                #[trigger] second[j],
                column,
                descending,
            ),
        0 <= k < rows.len(),
    ensures
        first[k] == second[k],
    decreases k,
{
    assert forall|i: int| 0 <= i < k implies #[trigger] first[i] == second[i] by {
        lemma_sorted_permutations_agree(rows, first, second, column, descending, i);
    }
    let x = first[k];
    let y = second[k];
    if x != y {
        lemma_permutation_is_onto(second, rows.len(), x);
        lemma_permutation_is_onto(first, rows.len(), y);
        let m = choose|m: int| 0 <= m < rows.len() && second[m] == x;
        let n = choose|n: int| 0 <= n < rows.len() && first[n] == y;
        if m < k {
            assert(first[m] == second[m]);
            assert(first[m] != first[k]);
        }
        if n < k {
            assert(first[n] == second[n]);
            assert(second[n] != second[k]);
        }
        assert(index_before(rows, second[k], second[m], column, descending));
        assert(index_before(rows, first[k], first[n], column, descending));
        lemma_index_order(rows, x, y, x, column, descending);
    }
}

/// A table has one stable sort by a column: the order pins the result
/// down.
pub proof fn lemma_stable_sort_is_unique(
    before: Seq<RowView>,
    first: Seq<RowView>,
    second: Seq<RowView>,
    column: ProcessSorting,
    descending: bool,
)
    requires
        is_stable_sort(before, first, column, descending),
        is_stable_sort(before, second, column, descending),
    ensures
        first == second,
{
    let p = choose|p: Seq<int>| is_stable_sort_by(before, first, p, column, descending);
    let q = choose|q: Seq<int>| is_stable_sort_by(before, second, q, column, descending);
    assert forall|i: int, j: int| 0 <= i < j < before.len() implies index_before(
        before,
        #[trigger] p[i],
        #[trigger] p[j],
        column,
        descending,
    ) by {
        assert(first[i] == before[p[i]]);
        assert(first[j] == before[p[j]]);
        assert(!row_before(first[j], first[i], column, descending));
    }
    assert forall|i: int, j: int| 0 <= i < j < before.len() implies index_before(
        before,
        #[trigger] q[i],
        #[trigger] q[j],
        column,
        descending,
    ) by {
        assert(second[i] == before[q[i]]);
        assert(second[j] == before[q[j]]);
        assert(!row_before(second[j], second[i], column, descending));
    }
    assert forall|k: int| 0 <= k < before.len() implies first[k] == second[k] by {
        lemma_sorted_permutations_agree(before, p, q, column, descending, k);
        assert(first[k] == before[p[k]]);
        assert(second[k] == before[q[k]]);
    }
    assert(first =~= second);
}

/// A table has one sorted form for display.
pub proof fn lemma_process_sort_is_unique(
    before: Seq<RowView>,
    first: Seq<RowView>,
    second: Seq<RowView>,
    column: ProcessSorting,
    descending: bool,
    is_grouped: bool,
)
    requires
        is_process_sort(before, first, column, descending, is_grouped),
        is_process_sort(before, second, column, descending, is_grouped),
    ensures
        first == second,
{
    let a = choose|by_name: Seq<RowView>|
        is_process_sort_via(before, by_name, first, column, descending, is_grouped);
    let b = choose|by_name: Seq<RowView>|
        is_process_sort_via(before, by_name, second, column, descending, is_grouped);
    lemma_stable_sort_is_unique(before, a, b, ProcessSorting::ProcessName, false);
    if column_applies(column, is_grouped) {
        lemma_stable_sort_is_unique(a, first, second, column, descending);
    }
}

} // verus!
