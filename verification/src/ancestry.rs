//! Tree ancestry: in the forest of a table with unique pids each row stands
//! once, and after the row that it hangs below.

use vstd::prelude::*;
use crate::app::{App, first_widget};
use crate::process::{ProcessRecord, RowView, rows_of_records};
use crate::search::filtered_rows;
use crate::sorting::{
    ProcessSorting, is_process_sort, is_stable_arrangement, lemma_process_sort_is_stable,
};
use crate::tree::{
    is_tree_of,
    at_depth, children_from, forest, forest_from, has_parent_in, has_pid, is_child_of, is_root,
    is_table_row, lemma_forest_rows_are_table_rows, lemma_parent_comes_first, parent_is_earlier,
    subtree,
};

verus! {

/// No two rows of the table share a pid.
pub open spec fn has_unique_pids(rows: Seq<RowView>) -> bool {
    forall|a: int, b: int|
        0 <= a < b < rows.len() ==> (#[trigger] rows[a]).pid != (#[trigger] rows[b]).pid
}

/// No two rows share a pid, at whatever indices they stand.
pub open spec fn has_distinct_pids(rows: Seq<RowView>) -> bool {
    forall|a: int, b: int|
        0 <= a < rows.len() && 0 <= b < rows.len() && a != b ==> (#[trigger] rows[a]).pid != (
        #[trigger] rows[b]).pid
}

/// The index of a row with this pid.
pub open spec fn index_of_pid(rows: Seq<RowView>, pid: int) -> int {
    choose|x: int| 0 <= x < rows.len() && (#[trigger] rows[x]).pid == pid
}

/// The index of the row that row `j` hangs below; -1 where it hangs below
/// none.
pub open spec fn parent_index(rows: Seq<RowView>, j: int) -> int {
    if exists|i: int| 0 <= i < rows.len() && #[trigger] is_child_of(rows, j, i) {
        choose|i: int| 0 <= i < rows.len() && #[trigger] is_child_of(rows, j, i)
    } else {
        -1
    }
}

/// The index of the row that stands `steps` levels above row `x`; -1 where
/// the tree ends before.
pub open spec fn ancestor(rows: Seq<RowView>, x: int, steps: nat) -> int
    decreases steps,
{
    if steps == 0 || x < 0 {
        x
    } else {
        ancestor(rows, parent_index(rows, x), (steps - 1) as nat)
    }
}

/// Row `x` lies `depth` levels below a row that hangs below none.
pub open spec fn is_rooted(rows: Seq<RowView>, x: int, depth: nat) -> bool {
    &&& 0 <= ancestor(rows, x, depth) < rows.len()
    &&& parent_index(rows, ancestor(rows, x, depth)) == -1
}

/// `row` is a row of the table, at the depth that it carries.
pub open spec fn is_shown_row(rows: Seq<RowView>, row: RowView) -> bool {
    &&& 0 <= index_of_pid(rows, row.pid) < rows.len()
    &&& row == at_depth(rows[index_of_pid(rows, row.pid)], row.depth)
}

/// `row` stands in the subtree of row `i`, which lies at depth `depth` and
/// reaches `levels` levels down.
pub open spec fn hangs_below(rows: Seq<RowView>, row: RowView, i: int, depth: nat, levels: nat)
    -> bool {
    &&& is_shown_row(rows, row)
    &&& depth <= row.depth <= depth + levels
    &&& ancestor(rows, index_of_pid(rows, row.pid), (row.depth - depth) as nat) == i
}

/// `row` stands in the subtree of a child of row `i`; the child lies at
/// depth `depth` and at an index from `from` on.
pub open spec fn hangs_below_child(
    rows: Seq<RowView>,
    row: RowView,
    i: int,
    from: int,
    depth: nat,
    levels: nat,
) -> bool {
    let child = ancestor(rows, index_of_pid(rows, row.pid), (row.depth - depth) as nat);
    &&& is_shown_row(rows, row)
    &&& depth <= row.depth <= depth + levels
    &&& from <= child < rows.len()
    &&& is_child_of(rows, child, i)
}

/// `row` stands in the tree of a root at an index from `from` on.
pub open spec fn hangs_below_root(rows: Seq<RowView>, row: RowView, from: int) -> bool {
    let root = ancestor(rows, index_of_pid(rows, row.pid), row.depth);
    &&& is_shown_row(rows, row)
    &&& from <= root < rows.len()
    &&& is_root(rows, root)
}

proof fn lemma_index_of_pid(rows: Seq<RowView>, x: int)
    requires
        has_unique_pids(rows),
        0 <= x < rows.len(),
    ensures
        index_of_pid(rows, rows[x].pid) == x,
{
    let found = index_of_pid(rows, rows[x].pid);
    assert(0 <= found < rows.len() && rows[found].pid == rows[x].pid);
    if found < x {
        assert(rows[found].pid != rows[x].pid);
    } else if x < found {
        assert(rows[x].pid != rows[found].pid);
    }
}

proof fn lemma_parent_index(rows: Seq<RowView>, j: int, i: int)
    requires
        has_unique_pids(rows),
        0 <= i < rows.len(),
        is_child_of(rows, j, i),
    ensures
        parent_index(rows, j) == i,
{
    let found = parent_index(rows, j);
    assert(0 <= found < rows.len() && is_child_of(rows, j, found));
    assert(rows[found].pid == rows[i].pid);
    if found < i {
        assert(rows[found].pid != rows[i].pid);
    } else if i < found {
        assert(rows[i].pid != rows[found].pid);
    }
}

proof fn lemma_root_has_no_parent(rows: Seq<RowView>, j: int)
    requires
        0 <= j < rows.len(),
        is_root(rows, j),
    ensures
        parent_index(rows, j) == -1,
{
    assert forall|i: int| 0 <= i < rows.len() implies !#[trigger] is_child_of(rows, j, i) by {
        if is_child_of(rows, j, i) {
            assert(has_pid(rows, rows[i].pid));
        }
    }
}

proof fn lemma_ancestor_adds(rows: Seq<RowView>, x: int, first: nat, then: nat)
    ensures
        ancestor(rows, x, first + then) == ancestor(rows, ancestor(rows, x, first), then),
    decreases first,
{
    if first > 0 && x >= 0 {
        lemma_ancestor_adds(rows, parent_index(rows, x), (first - 1) as nat, then);
        assert(ancestor(rows, x, first + then) == ancestor(
            rows,
            parent_index(rows, x),
            (first + then - 1) as nat,
        ));
    } else if x < 0 {
        assert(ancestor(rows, x, then) == x) by {
            reveal_with_fuel(ancestor, 1);
        }
    }
}

proof fn lemma_ancestor_of_child(rows: Seq<RowView>, child: int, i: int, steps: nat)
    requires
        has_unique_pids(rows),
        0 <= i < rows.len(),
        0 <= child,
        is_child_of(rows, child, i),
    ensures
        ancestor(rows, child, steps + 1) == ancestor(rows, i, steps),
{
    lemma_parent_index(rows, child, i);
}

/// A row lies at one depth only below a row that hangs below none.
pub proof fn lemma_depth_is_determined(rows: Seq<RowView>, x: int, one: nat, other: nat)
    requires
        is_rooted(rows, x, one),
        is_rooted(rows, x, other),
    ensures
        one == other,
{
    if one < other {
        lemma_ancestor_adds(rows, x, one, (other - one) as nat);
        let root = ancestor(rows, x, one);
        assert(ancestor(rows, root, (other - one) as nat) == ancestor(
            rows,
            -1,
            (other - one - 1) as nat,
        ));
        assert(ancestor(rows, -1, (other - one - 1) as nat) == -1);
    } else if other < one {
        lemma_ancestor_adds(rows, x, other, (one - other) as nat);
        let root = ancestor(rows, x, other);
        assert(ancestor(rows, root, (one - other) as nat) == ancestor(
            rows,
            -1,
            (one - other - 1) as nat,
        ));
        assert(ancestor(rows, -1, (one - other - 1) as nat) == -1);
    }
}

proof fn lemma_subtree_members(rows: Seq<RowView>, i: int, depth: nat, levels: nat)
    requires
        has_unique_pids(rows),
        0 <= i < rows.len(),
    ensures
        forall|k: int|
            0 <= k < subtree(rows, i, depth, levels).len() ==> hangs_below(
                rows,
                #[trigger] subtree(rows, i, depth, levels)[k],
                i,
                depth,
                levels,
            ),
        forall|k: int|
            1 <= k < subtree(rows, i, depth, levels).len() ==> (#[trigger] subtree(
                rows,
                i,
                depth,
                levels,
            )[k]).depth > depth,
    decreases levels, 0nat,
{
    let whole = subtree(rows, i, depth, levels);
    let head = at_depth(rows[i], depth);
    lemma_index_of_pid(rows, i);
    assert(hangs_below(rows, head, i, depth, levels));
    if levels > 0 {
        let below = children_from(rows, i, 0, depth + 1, (levels - 1) as nat);
        lemma_children_members(rows, i, 0, depth + 1, (levels - 1) as nat);
        assert forall|k: int| 1 <= k < whole.len() implies hangs_below(
            rows,
            #[trigger] whole[k],
            i,
            depth,
            levels,
        ) && whole[k].depth > depth by {
            let row = below[k - 1];
            assert(whole[k] == row);
            assert(hangs_below_child(rows, row, i, 0, depth + 1, (levels - 1) as nat));
            let x = index_of_pid(rows, row.pid);
            let up = (row.depth - depth - 1) as nat;
            let child = ancestor(rows, x, up);
            lemma_ancestor_adds(rows, x, up, 1);
            lemma_ancestor_of_child(rows, child, i, 0);
        }
    }
}

proof fn lemma_children_members(rows: Seq<RowView>, i: int, j: int, depth: nat, levels: nat)
    requires
        has_unique_pids(rows),
        0 <= i < rows.len(),
        0 <= j,
    ensures
        forall|k: int|
            0 <= k < children_from(rows, i, j, depth, levels).len() ==> hangs_below_child(
                rows,
                #[trigger] children_from(rows, i, j, depth, levels)[k],
                i,
                j,
                depth,
                levels,
            ),
    decreases levels, 1 + rows.len() - j,
{
    let whole = children_from(rows, i, j, depth, levels);
    if j < rows.len() {
        let rest = children_from(rows, i, j + 1, depth, levels);
        lemma_children_members(rows, i, j + 1, depth, levels);
        if is_child_of(rows, j, i) {
            let first = subtree(rows, j, depth, levels);
            lemma_subtree_members(rows, j, depth, levels);
            assert forall|k: int| 0 <= k < whole.len() implies hangs_below_child(
                rows,
                #[trigger] whole[k],
                i,
                j,
                depth,
                levels,
            ) by {
                if k < first.len() {
                    assert(whole[k] == first[k]);
                    assert(hangs_below(rows, first[k], j, depth, levels));
                } else {
                    assert(whole[k] == rest[k - first.len()]);
                    assert(hangs_below_child(
                        rows,
                        rest[k - first.len()],
                        i,
                        j + 1,
                        depth,
                        levels,
                    ));
                }
            }
        } else {
            assert forall|k: int| 0 <= k < whole.len() implies hangs_below_child(
                rows,
                #[trigger] whole[k],
                i,
                j,
                depth,
                levels,
            ) by {
                assert(hangs_below_child(rows, rest[k], i, j + 1, depth, levels));
            }
        }
    }
}

proof fn lemma_forest_members(rows: Seq<RowView>, j: int)
    requires
        has_unique_pids(rows),
        0 <= j,
    ensures
        forall|k: int|
            0 <= k < forest_from(rows, j).len() ==> hangs_below_root(
                rows,
                #[trigger] forest_from(rows, j)[k],
                j,
            ),
    decreases rows.len() - j,
{
    let whole = forest_from(rows, j);
    if j < rows.len() {
        let rest = forest_from(rows, j + 1);
        lemma_forest_members(rows, j + 1);
        if is_root(rows, j) {
            let first = subtree(rows, j, 0, rows.len());
            lemma_subtree_members(rows, j, 0, rows.len());
            assert forall|k: int| 0 <= k < whole.len() implies hangs_below_root(
                rows,
                #[trigger] whole[k],
                j,
            ) by {
                if k < first.len() {
                    assert(whole[k] == first[k]);
                    assert(hangs_below(rows, first[k], j, 0, rows.len()));
                } else {
                    assert(whole[k] == rest[k - first.len()]);
                    assert(hangs_below_root(rows, rest[k - first.len()], j + 1));
                }
            }
        } else {
            assert forall|k: int| 0 <= k < whole.len() implies hangs_below_root(
                rows,
                #[trigger] whole[k],
                j,
            ) by {
                assert(hangs_below_root(rows, rest[k], j + 1));
            }
        }
    }
}

proof fn lemma_rooted_through(rows: Seq<RowView>, x: int, up: nat, i: int, depth: nat)
    requires
        ancestor(rows, x, up) == i,
        is_rooted(rows, i, depth),
    ensures
        is_rooted(rows, x, up + depth),
{
    lemma_ancestor_adds(rows, x, up, depth);
}

proof fn lemma_concat_distinct(first: Seq<RowView>, rest: Seq<RowView>)
    requires
        has_distinct_pids(first),
        has_distinct_pids(rest),
        forall|a: int, b: int|
            0 <= a < first.len() && 0 <= b < rest.len() ==> (#[trigger] first[a]).pid != (
            #[trigger] rest[b]).pid,
    ensures
        has_distinct_pids(first + rest),
{
    let whole = first + rest;
    assert forall|a: int, b: int|
        0 <= a < whole.len() && 0 <= b < whole.len() && a != b implies (#[trigger] whole[a]).pid
        != (#[trigger] whole[b]).pid by {
        if a < first.len() {
            assert(whole[a] == first[a]);
        } else {
            assert(whole[a] == rest[a - first.len()]);
        }
        if b < first.len() {
            assert(whole[b] == first[b]);
        } else {
            assert(whole[b] == rest[b - first.len()]);
        }
    }
}

proof fn lemma_subtree_is_distinct(rows: Seq<RowView>, i: int, depth: nat, levels: nat)
    requires
        has_unique_pids(rows),
        0 <= i < rows.len(),
        is_rooted(rows, i, depth),
    ensures
        has_distinct_pids(subtree(rows, i, depth, levels)),
    decreases levels, 0nat,
{
    let whole = subtree(rows, i, depth, levels);
    if levels > 0 {
        let head = seq![at_depth(rows[i], depth)];
        let below = children_from(rows, i, 0, depth + 1, (levels - 1) as nat);
        lemma_children_are_distinct(rows, i, 0, depth + 1, (levels - 1) as nat);
        lemma_subtree_members(rows, i, depth, levels);
        lemma_index_of_pid(rows, i);
        assert forall|a: int, b: int|
            0 <= a < head.len() && 0 <= b < below.len() implies (#[trigger] head[a]).pid != (
        #[trigger] below[b]).pid by {
            let row = below[b];
            assert(whole[b + 1] == row);
            assert(hangs_below(rows, whole[b + 1], i, depth, levels));
            assert(whole[b + 1].depth > depth);
            if row.pid == rows[i].pid {
                let up = (row.depth - depth) as nat;
                lemma_rooted_through(rows, i, up, i, depth);
                lemma_depth_is_determined(rows, i, depth, up + depth);
            }
        }
        lemma_concat_distinct(head, below);
    }
}

proof fn lemma_children_are_distinct(
    rows: Seq<RowView>,
    i: int,
    j: int,
    depth: nat,
    levels: nat,
)
    requires
        has_unique_pids(rows),
        0 <= i < rows.len(),
        0 <= j,
        depth >= 1,
        is_rooted(rows, i, (depth - 1) as nat),
    ensures
        has_distinct_pids(children_from(rows, i, j, depth, levels)),
    decreases levels, 1 + rows.len() - j,
{
    if j < rows.len() {
        let rest = children_from(rows, i, j + 1, depth, levels);
        lemma_children_are_distinct(rows, i, j + 1, depth, levels);
        if is_child_of(rows, j, i) {
            let first = subtree(rows, j, depth, levels);
            lemma_ancestor_of_child(rows, j, i, (depth - 1) as nat);
            assert(is_rooted(rows, j, depth));
            lemma_subtree_is_distinct(rows, j, depth, levels);
            lemma_subtree_members(rows, j, depth, levels);
            lemma_children_members(rows, i, j + 1, depth, levels);
            assert forall|a: int, b: int|
                0 <= a < first.len() && 0 <= b < rest.len() implies (#[trigger] first[a]).pid != (
            #[trigger] rest[b]).pid by {
                let one = first[a];
                let other = rest[b];
                assert(hangs_below(rows, one, j, depth, levels));
                assert(hangs_below_child(rows, other, i, j + 1, depth, levels));
                if one.pid == other.pid {
                    let x = index_of_pid(rows, one.pid);
                    let up_one = (one.depth - depth) as nat;
                    let up_other = (other.depth - depth) as nat;
                    let child = ancestor(rows, x, up_other);
                    lemma_rooted_through(rows, x, up_one, j, depth);
                    lemma_ancestor_of_child(rows, child, i, (depth - 1) as nat);
                    assert(is_rooted(rows, child, depth));
                    lemma_rooted_through(rows, x, up_other, child, depth);
                    lemma_depth_is_determined(rows, x, up_one + depth, up_other + depth);
                }
            }
            lemma_concat_distinct(first, rest);
        }
    }
}

proof fn lemma_forest_is_distinct(rows: Seq<RowView>, j: int)
    requires
        has_unique_pids(rows),
        0 <= j,
    ensures
        has_distinct_pids(forest_from(rows, j)),
    decreases rows.len() - j,
{
    if j < rows.len() {
        let rest = forest_from(rows, j + 1);
        lemma_forest_is_distinct(rows, j + 1);
        if is_root(rows, j) {
            let first = subtree(rows, j, 0, rows.len());
            lemma_root_has_no_parent(rows, j);
            assert(is_rooted(rows, j, 0));
            lemma_subtree_is_distinct(rows, j, 0, rows.len());
            lemma_subtree_members(rows, j, 0, rows.len());
            lemma_forest_members(rows, j + 1);
            assert forall|a: int, b: int|
                0 <= a < first.len() && 0 <= b < rest.len() implies (#[trigger] first[a]).pid != (
            #[trigger] rest[b]).pid by {
                let one = first[a];
                let other = rest[b];
                assert(hangs_below(rows, one, j, 0, rows.len()));
                assert(hangs_below_root(rows, other, j + 1));
                if one.pid == other.pid {
                    let x = index_of_pid(rows, one.pid);
                    let root = ancestor(rows, x, other.depth);
                    lemma_root_has_no_parent(rows, root);
                    lemma_depth_is_determined(rows, x, one.depth, other.depth);
                }
            }
            lemma_concat_distinct(first, rest);
        }
    }
}

/// In the forest of a table with unique pids no pid stands twice.
pub proof fn lemma_forest_has_distinct_pids(rows: Seq<RowView>)
    requires
        has_unique_pids(rows),
    ensures
        has_distinct_pids(forest(rows)),
{
    lemma_forest_is_distinct(rows, 0);
}

/// Tree ancestry: in the forest of a table with unique pids, a row that
/// names another row's pid as its parent stands after that row, wherever
/// the two stand.
pub proof fn lemma_parent_stands_before_child(rows: Seq<RowView>, child: int, parent: int)
    requires
        has_unique_pids(rows),
        0 <= child < forest(rows).len(),
        0 <= parent < forest(rows).len(),
        forest(rows)[child].parent_pid == Some(forest(rows)[parent].pid),
        forest(rows)[child].pid != forest(rows)[parent].pid,
    ensures
        parent < child,
{
    let shown = forest(rows);
    lemma_forest_has_distinct_pids(rows);
    lemma_forest_rows_are_table_rows(rows, parent);
    assert(is_table_row(rows, shown[parent]));
    let at = choose|i: int|
        0 <= i < rows.len() && shown[parent] == at_depth(#[trigger] rows[i], shown[parent].depth);
    assert(rows[at].pid == shown[parent].pid);
    assert(has_pid(rows, shown[parent].pid));
    assert(has_parent_in(rows, shown[child]));
    lemma_parent_comes_first(rows, child);
    assert(parent_is_earlier(shown, child));
    let earlier = choose|m: int|
        0 <= m < child && Some((#[trigger] shown[m]).pid) == shown[child].parent_pid;
    if earlier != parent {
        assert(shown[earlier].pid != shown[parent].pid);
    }
}

/// Sorting for display leaves the pids unique.
pub proof fn lemma_sort_keeps_unique_pids(
    before: Seq<RowView>,
    after: Seq<RowView>,
    column: ProcessSorting,
    descending: bool,
    is_grouped: bool,
)
    requires
        is_process_sort(before, after, column, descending, is_grouped),
        has_unique_pids(before),
    ensures
        has_unique_pids(after),
{
    lemma_process_sort_is_stable(before, after, column, descending, is_grouped);
    let perm = choose|perm: Seq<int>|
        is_stable_arrangement(before, after, perm, column, descending);
    assert forall|a: int, b: int| 0 <= a < b < after.len() implies (#[trigger] after[a]).pid != (
    #[trigger] after[b]).pid by {
        assert(after[a] == before[perm[a]]);
        assert(after[b] == before[perm[b]]);
        assert(perm[a] != perm[b]);
        if perm[a] < perm[b] {
            assert(before[perm[a]].pid != before[perm[b]].pid);
        } else {
            assert(before[perm[b]].pid != before[perm[a]].pid);
        }
    }
}

/// The filter step of a tree leaves the pids unique: it keeps every row.
pub proof fn lemma_tree_filter_keeps_unique_pids(
    rows: Seq<RowView>,
    matcher: Option<spec_fn(Seq<char>) -> bool>,
    is_using_command: bool,
)
    requires
        has_unique_pids(rows),
    ensures
        has_unique_pids(filtered_rows(rows, matcher, is_using_command, true)),
{
    let kept = filtered_rows(rows, matcher, is_using_command, true);
    assert forall|a: int, b: int| 0 <= a < b < kept.len() implies (#[trigger] kept[a]).pid != (
    #[trigger] kept[b]).pid by {
        assert(kept[a].pid == rows[a].pid);
        assert(kept[b].pid == rows[b].pid);
    }
}

/// Tree ancestry of a tree of a table: where the pids of the table are
/// unique, each row of the tree stands after the row whose pid it names as
/// its parent.
pub proof fn lemma_tree_puts_parents_first(
    rows: Seq<RowView>,
    shown: Seq<RowView>,
    column: ProcessSorting,
    descending: bool,
    child: int,
    parent: int,
)
    requires
        has_unique_pids(rows),
        is_tree_of(rows, shown, column, descending),
        0 <= child < shown.len(),
        0 <= parent < shown.len(),
        shown[child].parent_pid == Some(shown[parent].pid),
        shown[child].pid != shown[parent].pid,
    ensures
        parent < child,
{
    let sorted = choose|sorted: Seq<RowView>|
        is_process_sort(rows, sorted, column, descending, false) && shown == forest(sorted);
    lemma_sort_keeps_unique_pids(rows, sorted, column, descending, false);
    lemma_parent_stands_before_child(sorted, child, parent);
}

/// No two records share a pid.
pub open spec fn has_unique_record_pids(records: Seq<ProcessRecord>) -> bool {
    forall|a: int, b: int|
        0 <= a < b < records.len() ==> (#[trigger] records[a]).pid != (#[trigger] records[b]).pid
}

/// The rows of records with unique pids have unique pids.
pub proof fn lemma_rows_of_unique_records(records: Seq<ProcessRecord>)
    requires
        has_unique_record_pids(records),
    ensures
        has_unique_pids(rows_of_records(records)),
{
    let rows = rows_of_records(records);
    assert forall|a: int, b: int| 0 <= a < b < rows.len() implies (#[trigger] rows[a]).pid != (
    #[trigger] rows[b]).pid by {
        assert(rows[a].pid == records[a].pid);
        assert(rows[b].pid == records[b].pid);
    }
}

/// Tree ancestry of a recomputed list: after the list of a widget in tree
/// mode has been recomputed from rows with unique pids, each of its rows
/// stands after the row whose pid it names as its parent.
pub proof fn lemma_update_puts_parents_first(
    app: App,
    after: App,
    widget_id: u64,
    at: int,
    child: int,
    parent: int,
)
    requires
        app.is_single_update(after, widget_id),
        first_widget(app.widgets(), widget_id) == Some(at),
        0 <= at < app.widgets().len(),
        app.widgets()[at].is_tree_mode,
        has_unique_pids(app.current_rows()),
        0 <= child < after.widgets()[at].shown().len(),
        0 <= parent < after.widgets()[at].shown().len(),
        after.widgets()[at].shown()[child].parent_pid == Some(
            after.widgets()[at].shown()[parent].pid,
        ),
        after.widgets()[at].shown()[child].pid != after.widgets()[at].shown()[parent].pid,
    ensures
        parent < child,
{
    let widget = app.widgets()[at];
    let shown = after.widgets()[at].shown();
    let matcher = widget.process_search_state.active_matcher();
    lemma_tree_filter_keeps_unique_pids(app.current_rows(), matcher, widget.is_using_command);
    lemma_tree_puts_parents_first(
        filtered_rows(app.current_rows(), matcher, widget.is_using_command, true),
        shown,
        widget.process_sorting_type,
        widget.is_process_sort_descending,
        child,
        parent,
    );
}

} // verus!
