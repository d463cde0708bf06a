//! Tree mode: the rows laid out as a forest along their parent links.

use vstd::prelude::*;
use crate::process::{ProcessRow, RowView, rows_view, copy_rows};
use crate::sorting::{ProcessSorting, is_process_sort, lemma_process_sort_is_unique, sort_rows};

verus! {

/// Some row of the table has this pid.
pub open spec fn has_pid(rows: Seq<RowView>, pid: int) -> bool {
    exists|k: int| 0 <= k < rows.len() && (#[trigger] rows[k]).pid == pid
}

/// Row `i` starts a tree: it names no parent, or itself, or a process that
/// the table does not hold.
pub open spec fn is_root(rows: Seq<RowView>, i: int) -> bool {
    match rows[i].parent_pid {
        None => true,
        Some(parent) => parent == rows[i].pid || !has_pid(rows, parent),
    }
}

/// No earlier row has the pid of row `i`.
pub open spec fn is_first_with_pid(rows: Seq<RowView>, i: int) -> bool {
    forall|k: int| 0 <= k < i ==> (#[trigger] rows[k]).pid != rows[i].pid
}

/// Row `j` hangs below row `i`: it names the pid of `i` as its parent, and
/// `i` is the first row with that pid.
pub open spec fn is_child_of(rows: Seq<RowView>, j: int, i: int) -> bool {
    &&& rows[j].parent_pid == Some(rows[i].pid)
    &&& rows[j].pid != rows[i].pid
    &&& is_first_with_pid(rows, i)
}

/// `row` at the given depth.
pub open spec fn at_depth(row: RowView, depth: nat) -> RowView {
    RowView { depth: depth, ..row }
}

/// Row `i` followed by the rows below it, children in table order, each
/// child directly followed by its own subtree. `levels` bounds how far below
/// `i` the layout reaches.
pub open spec fn subtree(rows: Seq<RowView>, i: int, depth: nat, levels: nat) -> Seq<RowView>
    decreases levels, 0nat,
{
    if levels == 0 {
        seq![at_depth(rows[i], depth)]
    } else {
        seq![at_depth(rows[i], depth)] + children_from(
            rows,
            i,
            0,
            depth + 1,
            (levels - 1) as nat,
        )
    }
}

/// The subtrees of the children of row `i` among the rows from `j` on.
pub open spec fn children_from(rows: Seq<RowView>, i: int, j: int, depth: nat, levels: nat) -> Seq<
    RowView,
>
    decreases levels, 1 + rows.len() - j,
{
    if j < 0 || j >= rows.len() {
        Seq::empty()
    } else if is_child_of(rows, j, i) {
        subtree(rows, j, depth, levels) + children_from(rows, i, j + 1, depth, levels)
    } else {
        children_from(rows, i, j + 1, depth, levels)
    }
}

/// The trees of the roots among the rows from `j` on.
pub open spec fn forest_from(rows: Seq<RowView>, j: int) -> Seq<RowView>
    decreases rows.len() - j,
{
    if j < 0 || j >= rows.len() {
        Seq::empty()
    } else if is_root(rows, j) {
        subtree(rows, j, 0, rows.len()) + forest_from(rows, j + 1)
    } else {
        forest_from(rows, j + 1)
    }
}

/// The table laid out as a forest: each root in table order, directly
/// followed by its subtree, every row carrying its depth. Rows on a cycle of
/// parent links hang below no root and are left out.
pub open spec fn forest(rows: Seq<RowView>) -> Seq<RowView> {
    forest_from(rows, 0)
}

/// `shown` is the tree of `rows`: the table sorted for display by `column`,
/// then laid out as a forest, so that the siblings of each group stand in
/// the sorted order.
pub open spec fn is_tree_of(
    rows: Seq<RowView>,
    shown: Seq<RowView>,
    column: ProcessSorting,
    descending: bool,
) -> bool {
    exists|sorted: Seq<RowView>|
        is_process_sort(rows, sorted, column, descending, false) && shown == forest(sorted)
}

/// Row `k` of `shown` names as its parent the pid of a row before it.
pub open spec fn parent_is_earlier(shown: Seq<RowView>, k: int) -> bool {
    exists|m: int| 0 <= m < k && Some((#[trigger] shown[m]).pid) == shown[k].parent_pid
}

/// `row` names a parent other than itself that the table holds.
pub open spec fn has_parent_in(rows: Seq<RowView>, row: RowView) -> bool {
    match row.parent_pid {
        None => false,
        Some(parent) => parent != row.pid && has_pid(rows, parent),
    }
}

proof fn lemma_earlier_after(head: Seq<RowView>, tail: Seq<RowView>, k: int)
    requires
        0 <= k < tail.len(),
        parent_is_earlier(tail, k),
    ensures
        parent_is_earlier(head + tail, head.len() + k),
{
    let m = choose|m: int| 0 <= m < k && Some((#[trigger] tail[m]).pid) == tail[k].parent_pid;
    let whole = head + tail;
    assert(whole[head.len() + m] == tail[m]);
    assert(whole[head.len() + k] == tail[k]);
}

proof fn lemma_earlier_before(head: Seq<RowView>, tail: Seq<RowView>, k: int)
    requires
        0 <= k < head.len(),
        parent_is_earlier(head, k),
    ensures
        parent_is_earlier(head + tail, k),
{
    let m = choose|m: int| 0 <= m < k && Some((#[trigger] head[m]).pid) == head[k].parent_pid;
    let whole = head + tail;
    assert(whole[m] == head[m]);
    assert(whole[k] == head[k]);
}

proof fn lemma_subtree_links(rows: Seq<RowView>, i: int, depth: nat, levels: nat)
    requires
        0 <= i < rows.len(),
    ensures
        subtree(rows, i, depth, levels).len() >= 1,
        subtree(rows, i, depth, levels)[0] == at_depth(rows[i], depth),
        forall|k: int|
            1 <= k < subtree(rows, i, depth, levels).len() ==> #[trigger] parent_is_earlier(
                subtree(rows, i, depth, levels),
                k,
            ),
    decreases levels, 0nat,
{
    let whole = subtree(rows, i, depth, levels);
    if levels > 0 {
        let head = seq![at_depth(rows[i], depth)];
        let below = children_from(rows, i, 0, depth + 1, (levels - 1) as nat);
        lemma_children_links(rows, i, 0, depth + 1, (levels - 1) as nat);
        assert(whole == head + below);
        assert forall|k: int| 1 <= k < whole.len() implies #[trigger] parent_is_earlier(
            whole,
            k,
        ) by {
            assert(whole[k] == below[k - 1]);
            if below[k - 1].parent_pid == Some(rows[i].pid) {
                assert(whole[0].pid == rows[i].pid);
            } else {
                lemma_earlier_after(head, below, k - 1);
            }
        }
    }
}

proof fn lemma_children_links(rows: Seq<RowView>, i: int, j: int, depth: nat, levels: nat)
    requires
        0 <= i < rows.len(),
        0 <= j,
    ensures
        forall|k: int|
            0 <= k < children_from(rows, i, j, depth, levels).len() ==> (#[trigger] children_from(
                rows,
                i,
                j,
                depth,
                levels,
            )[k]).parent_pid == Some(rows[i].pid) || parent_is_earlier(
                children_from(rows, i, j, depth, levels),
                k,
            ),
    decreases levels, 1 + rows.len() - j,
{
    let whole = children_from(rows, i, j, depth, levels);
    if j < rows.len() {
        let rest = children_from(rows, i, j + 1, depth, levels);
        lemma_children_links(rows, i, j + 1, depth, levels);
        if is_child_of(rows, j, i) {
            let first = subtree(rows, j, depth, levels);
            lemma_subtree_links(rows, j, depth, levels);
            assert(whole == first + rest);
            assert forall|k: int| 0 <= k < whole.len() implies (#[trigger] whole[k]).parent_pid
                == Some(rows[i].pid) || parent_is_earlier(whole, k) by {
                if k == 0 {
                    assert(whole[0] == first[0]);
                } else if k < first.len() {
                    assert(parent_is_earlier(first, k));
                    lemma_earlier_before(first, rest, k);
                } else {
                    let at = k - first.len();
                    assert(whole[k] == rest[at]);
                    if rest[at].parent_pid != Some(rows[i].pid) {
                        lemma_earlier_after(first, rest, at);
                    }
                }
            }
        }
    }
}

proof fn lemma_forest_links(rows: Seq<RowView>, j: int)
    requires
        0 <= j,
    ensures
        forall|k: int|
            0 <= k < forest_from(rows, j).len() && has_parent_in(
                rows,
                #[trigger] forest_from(rows, j)[k],
            ) ==> parent_is_earlier(forest_from(rows, j), k),
    decreases rows.len() - j,
{
    let whole = forest_from(rows, j);
    if j < rows.len() {
        let rest = forest_from(rows, j + 1);
        lemma_forest_links(rows, j + 1);
        if is_root(rows, j) {
            let first = subtree(rows, j, 0, rows.len());
            lemma_subtree_links(rows, j, 0, rows.len());
            assert(whole == first + rest);
            assert forall|k: int| 0 <= k < whole.len() && has_parent_in(
                rows,
                #[trigger] whole[k],
            ) implies parent_is_earlier(whole, k) by {
                if k == 0 {
                    assert(whole[0] == first[0]);
                    assert(!has_parent_in(rows, at_depth(rows[j], 0)));
                } else if k < first.len() {
                    assert(parent_is_earlier(first, k));
                    lemma_earlier_before(first, rest, k);
                } else {
                    let at = k - first.len();
                    assert(whole[k] == rest[at]);
                    lemma_earlier_after(first, rest, at);
                }
            }
        }
    }
}

/// Tree ancestry: a row of the forest whose parent is in the table stands
/// after a row with the parent's pid.
pub proof fn lemma_parent_comes_first(rows: Seq<RowView>, k: int)
    requires
        0 <= k < forest(rows).len(),
        has_parent_in(rows, forest(rows)[k]),
    ensures
        parent_is_earlier(forest(rows), k),
{
    lemma_forest_links(rows, 0);
}

/// `row` is a row of the table, at some depth.
pub open spec fn is_table_row(rows: Seq<RowView>, row: RowView) -> bool {
    exists|i: int| 0 <= i < rows.len() && row == at_depth(#[trigger] rows[i], row.depth)
}

proof fn lemma_subtree_rows(rows: Seq<RowView>, i: int, depth: nat, levels: nat)
    requires
        0 <= i < rows.len(),
    ensures
        forall|k: int|
            0 <= k < subtree(rows, i, depth, levels).len() ==> is_table_row(
                rows,
                #[trigger] subtree(rows, i, depth, levels)[k],
            ),
    decreases levels, 0nat,
{
    let whole = subtree(rows, i, depth, levels);
    let head = seq![at_depth(rows[i], depth)];
    assert(is_table_row(rows, at_depth(rows[i], depth))) by {
        assert(at_depth(rows[i], depth) == at_depth(rows[i], at_depth(rows[i], depth).depth));
    }
    if levels > 0 {
        let below = children_from(rows, i, 0, depth + 1, (levels - 1) as nat);
        lemma_children_rows(rows, i, 0, depth + 1, (levels - 1) as nat);
        assert forall|k: int| 0 <= k < whole.len() implies is_table_row(
            rows,
            #[trigger] whole[k],
        ) by {
            if k > 0 {
                assert(whole[k] == below[k - 1]);
            }
        }
    }
}

proof fn lemma_children_rows(rows: Seq<RowView>, i: int, j: int, depth: nat, levels: nat)
    requires
        0 <= j,
    ensures
        forall|k: int|
            0 <= k < children_from(rows, i, j, depth, levels).len() ==> is_table_row(
                rows,
                #[trigger] children_from(rows, i, j, depth, levels)[k],
            ),
    decreases levels, 1 + rows.len() - j,
{
    let whole = children_from(rows, i, j, depth, levels);
    if j < rows.len() {
        let rest = children_from(rows, i, j + 1, depth, levels);
        lemma_children_rows(rows, i, j + 1, depth, levels);
        if is_child_of(rows, j, i) {
            let first = subtree(rows, j, depth, levels);
            lemma_subtree_rows(rows, j, depth, levels);
            assert forall|k: int| 0 <= k < whole.len() implies is_table_row(
                rows,
                #[trigger] whole[k],
            ) by {
                if k < first.len() {
                    assert(whole[k] == first[k]);
                } else {
                    assert(whole[k] == rest[k - first.len()]);
                }
            }
        }
    }
}

proof fn lemma_forest_rows(rows: Seq<RowView>, j: int)
    requires
        0 <= j,
    ensures
        forall|k: int|
            0 <= k < forest_from(rows, j).len() ==> is_table_row(
                rows,
                #[trigger] forest_from(rows, j)[k],
            ),
    decreases rows.len() - j,
{
    let whole = forest_from(rows, j);
    if j < rows.len() {
        let rest = forest_from(rows, j + 1);
        lemma_forest_rows(rows, j + 1);
        if is_root(rows, j) {
            let first = subtree(rows, j, 0, rows.len());
            lemma_subtree_rows(rows, j, 0, rows.len());
            assert forall|k: int| 0 <= k < whole.len() implies is_table_row(
                rows,
                #[trigger] whole[k],
            ) by {
                if k < first.len() {
                    assert(whole[k] == first[k]);
                } else {
                    assert(whole[k] == rest[k - first.len()]);
                }
            }
        }
    }
}

/// The forest invents nothing: each of its rows is a row of the table,
/// changed in its depth alone.
pub proof fn lemma_forest_rows_are_table_rows(rows: Seq<RowView>, k: int)
    requires
        0 <= k < forest(rows).len(),
    ensures
        is_table_row(rows, forest(rows)[k]),
{
    lemma_forest_rows(rows, 0);
}

/// `path` leads from a root down the tree: it starts at a root, and each
/// of its rows hangs below the one before.
pub open spec fn is_path_from_root(rows: Seq<RowView>, path: Seq<int>) -> bool {
    &&& path.len() > 0
    &&& forall|k: int| 0 <= k < path.len() ==> 0 <= #[trigger] path[k] < rows.len()
    &&& is_root(rows, path[0])
    &&& forall|k: int| 1 <= k < path.len() ==> is_child_of(rows, #[trigger] path[k], path[k - 1])
}

proof fn lemma_contains_in_concat(head: Seq<RowView>, tail: Seq<RowView>, row: RowView)
    requires
        head.contains(row) || tail.contains(row),
    ensures
        (head + tail).contains(row),
{
    let whole = head + tail;
    if head.contains(row) {
        let k = choose|k: int| 0 <= k < head.len() && head[k] == row;
        assert(whole[k] == row);
    } else {
        let k = choose|k: int| 0 <= k < tail.len() && tail[k] == row;
        assert(whole[head.len() + k] == row);
    }
}

proof fn lemma_children_hold_subtree(
    rows: Seq<RowView>,
    i: int,
    from: int,
    j: int,
    depth: nat,
    levels: nat,
    row: RowView,
)
    requires
        0 <= from <= j < rows.len(),
        is_child_of(rows, j, i),
        subtree(rows, j, depth, levels).contains(row),
    ensures
        children_from(rows, i, from, depth, levels).contains(row),
    decreases j - from,
{
    let rest = children_from(rows, i, from + 1, depth, levels);
    if from == j {
        lemma_contains_in_concat(subtree(rows, j, depth, levels), rest, row);
    } else {
        lemma_children_hold_subtree(rows, i, from + 1, j, depth, levels, row);
        if is_child_of(rows, from, i) {
            lemma_contains_in_concat(subtree(rows, from, depth, levels), rest, row);
        }
    }
}

proof fn lemma_forest_holds_tree(rows: Seq<RowView>, from: int, j: int, row: RowView)
    requires
        0 <= from <= j < rows.len(),
        is_root(rows, j),
        subtree(rows, j, 0, rows.len()).contains(row),
    ensures
        forest_from(rows, from).contains(row),
    decreases j - from,
{
    let rest = forest_from(rows, from + 1);
    if from == j {
        lemma_contains_in_concat(subtree(rows, j, 0, rows.len()), rest, row);
    } else {
        lemma_forest_holds_tree(rows, from + 1, j, row);
        if is_root(rows, from) {
            lemma_contains_in_concat(subtree(rows, from, 0, rows.len()), rest, row);
        }
    }
}

proof fn lemma_subtree_is_shown(rows: Seq<RowView>, path: Seq<int>, row: RowView)
    requires
        is_path_from_root(rows, path),
        path.len() <= rows.len() + 1,
        subtree(
            rows,
            path.last(),
            (path.len() - 1) as nat,
            (rows.len() + 1 - path.len()) as nat,
        ).contains(row),
    ensures
        forest(rows).contains(row),
    decreases path.len(),
{
    let j = path.last();
    if path.len() == 1 {
        lemma_forest_holds_tree(rows, 0, j, row);
    } else {
        let above = path.drop_last();
        let i = above.last();
        let depth = (path.len() - 1) as nat;
        let levels = (rows.len() + 1 - path.len()) as nat;
        assert(is_child_of(rows, path[path.len() - 1], path[path.len() - 2]));
        assert(is_path_from_root(rows, above)) by {
            assert forall|k: int| 1 <= k < above.len() implies is_child_of(
                rows,
                #[trigger] above[k],
                above[k - 1],
            ) by {
                assert(is_child_of(rows, path[k], path[k - 1]));
            }
        }
        lemma_children_hold_subtree(rows, i, 0, j, depth, levels, row);
        lemma_contains_in_concat(
            seq![at_depth(rows[i], (depth - 1) as nat)],
            children_from(rows, i, 0, depth, levels),
            row,
        );
        lemma_subtree_is_shown(rows, above, row);
    }
}

/// The forest leaves out no row that hangs in a tree: the row at the end
/// of a path from a root stands in the forest, at the depth of the path.
pub proof fn lemma_row_below_a_root_is_shown(rows: Seq<RowView>, path: Seq<int>)
    requires
        is_path_from_root(rows, path),
        path.len() <= rows.len() + 1,
    ensures
        forest(rows).contains(at_depth(rows[path.last()], (path.len() - 1) as nat)),
{
    let own = subtree(
        rows,
        path.last(),
        (path.len() - 1) as nat,
        (rows.len() + 1 - path.len()) as nat,
    );
    assert(own[0] == at_depth(rows[path.last()], (path.len() - 1) as nat));
    lemma_subtree_is_shown(rows, path, at_depth(rows[path.last()], (path.len() - 1) as nat));
}

/// A table has one tree.
pub proof fn lemma_tree_is_unique(
    rows: Seq<RowView>,
    first: Seq<RowView>,
    second: Seq<RowView>,
    column: ProcessSorting,
    descending: bool,
)
    requires
        is_tree_of(rows, first, column, descending),
        is_tree_of(rows, second, column, descending),
    ensures
        first == second,
{
    let a = choose|sorted: Seq<RowView>|
        is_process_sort(rows, sorted, column, descending, false) && first == forest(sorted);
    let b = choose|sorted: Seq<RowView>|
        is_process_sort(rows, sorted, column, descending, false) && second == forest(sorted);
    lemma_process_sort_is_unique(rows, a, b, column, descending, false);
}

fn holds_pid(rows: &Vec<ProcessRow>, pid: i32) -> (found: bool)
    ensures
        found == has_pid(rows_view(rows@), pid as int),
{
    let mut k: usize = 0;
    while k < rows.len()
        invariant
            k <= rows.len(),
            forall|m: int| 0 <= m < k ==> (#[trigger] rows_view(rows@)[m]).pid != pid as int,
        decreases rows.len() - k,
    {
        if rows[k].pid == pid {
            assert(rows_view(rows@)[k as int].pid == pid as int);
            return true;
        }
        k = k + 1;
    }
    false
}

fn starts_tree(rows: &Vec<ProcessRow>, i: usize) -> (root: bool)
    requires
        i < rows.len(),
    ensures
        root == is_root(rows_view(rows@), i as int),
{
    match rows[i].parent_pid {
        None => true,
        Some(parent) => parent == rows[i].pid || !holds_pid(rows, parent),
    }
}

fn first_with_pid(rows: &Vec<ProcessRow>, i: usize) -> (first: bool)
    requires
        i < rows.len(),
    ensures
        first == is_first_with_pid(rows_view(rows@), i as int),
{
    let mut k: usize = 0;
    while k < i
        invariant
            k <= i,
            i < rows.len(),
            forall|m: int| 0 <= m < k ==> (#[trigger] rows_view(rows@)[m]).pid != rows_view(
                rows@,
            )[i as int].pid,
        decreases i - k,
    {
        if rows[k].pid == rows[i].pid {
            assert(rows_view(rows@)[k as int].pid == rows_view(rows@)[i as int].pid);
            return false;
        }
        k = k + 1;
    }
    true
}

fn push_subtree(
    rows: &Vec<ProcessRow>,
    i: usize,
    depth: usize,
    levels: usize,
    shown: &mut Vec<ProcessRow>,
)
    requires
        i < rows.len(),
        depth + levels <= usize::MAX,
    ensures
        rows_view(final(shown)@) == rows_view(old(shown)@) + subtree(
            rows_view(rows@),
            i as int,
            depth as nat,
            levels as nat,
        ),
    decreases levels,
{
    let ghost all = rows_view(rows@);
    let ghost start = rows_view(shown@);
    let mut head = rows[i].duplicate();
    head.depth = depth;
    proof {
        assert(head@ == at_depth(all[i as int], depth as nat));
    }
    shown.push(head);
    proof {
        assert(rows_view(shown@) =~= start + seq![at_depth(all[i as int], depth as nat)]);
    }
    if levels > 0 {
        let first = first_with_pid(rows, i);
        let mut j: usize = 0;
        let ghost below = children_from(all, i as int, 0, (depth + 1) as nat, (levels - 1) as nat);
        while j < rows.len()
            invariant
                j <= rows.len(),
                i < rows.len(),
                levels > 0,
                depth + levels <= usize::MAX,
                all == rows_view(rows@),
                first == is_first_with_pid(all, i as int),
                below == children_from(all, i as int, 0, (depth + 1) as nat, (levels - 1) as nat),
                rows_view(shown@) + children_from(
                    all,
                    i as int,
                    j as int,
                    (depth + 1) as nat,
                    (levels - 1) as nat,
                ) == start + seq![at_depth(all[i as int], depth as nat)] + below,
            decreases rows.len() - j,
        {
            let ghost so_far = rows_view(shown@);
            let ghost rest = children_from(
                all,
                i as int,
                j as int + 1,
                (depth + 1) as nat,
                (levels - 1) as nat,
            );
            let hangs = first && rows[j].pid != rows[i].pid && match rows[j].parent_pid {
                Some(parent) => parent == rows[i].pid,
                None => false,
            };
            assert(hangs == is_child_of(all, j as int, i as int));
            if hangs {
                push_subtree(rows, j, depth + 1, levels - 1, shown);
                proof {
                    let piece = subtree(all, j as int, (depth + 1) as nat, (levels - 1) as nat);
                    assert((so_far + piece) + rest =~= so_far + (piece + rest));
                }
            }
            j = j + 1;
        }
        proof {
            assert(rows_view(shown@) + Seq::<RowView>::empty() =~= rows_view(shown@));
            assert(rows_view(shown@) =~= start + (seq![at_depth(all[i as int], depth as nat)]
                + below));
        }
    }
}

/// Lays the table out as a forest.
pub fn build_forest(rows: &Vec<ProcessRow>) -> (shown: Vec<ProcessRow>)
    ensures
        rows_view(shown@) == forest(rows_view(rows@)),
{
    let ghost all = rows_view(rows@);
    let mut shown: Vec<ProcessRow> = Vec::new();
    let mut j: usize = 0;
    proof {
        assert(rows_view(shown@) =~= Seq::<RowView>::empty());
        assert(rows_view(shown@) + forest_from(all, 0) =~= forest(all));
    }
    while j < rows.len()
        invariant
            j <= rows.len(),
            all == rows_view(rows@),
            rows_view(shown@) + forest_from(all, j as int) == forest(all),
        decreases rows.len() - j,
    {
        let ghost so_far = rows_view(shown@);
        let ghost rest = forest_from(all, j as int + 1);
        if starts_tree(rows, j) {
            push_subtree(rows, j, 0, rows.len(), &mut shown);
            proof {
                let piece = subtree(all, j as int, 0, all.len());
                assert((so_far + piece) + rest =~= so_far + (piece + rest));
            }
        }
        j = j + 1;
    }
    proof {
        assert(rows_view(shown@) + Seq::<RowView>::empty() =~= rows_view(shown@));
    }
    shown
}

/// The tree of a filtered table: the rows sorted for display by the widget's
/// column, then laid out as a forest with each row at its depth.
pub fn tree_process_data(rows: &Vec<ProcessRow>, column: ProcessSorting, descending: bool) -> (shown:
    Vec<ProcessRow>)
    ensures
        is_tree_of(rows_view(rows@), rows_view(shown@), column, descending),
{
    let mut sorted = copy_rows(rows);
    sort_rows(&mut sorted, column, descending, false);
    build_forest(&sorted)
}

} // verus!
