//! Grouping: the rows that share a name become one aggregate row.

use vstd::prelude::*;
use crate::process::{Pid, ProcessRow, RowView, rows_view, pids_view, copy_pids};

verus! {

/// The sum of two usage figures, held at the largest value a row can store.
pub open spec fn capped_sum(a: nat, b: nat) -> nat {
    if a + b > u64::MAX {
        u64::MAX as nat
    } else {
        a + b
    }
}

/// The text by which rows are grouped: the command line where the widget
/// shows commands, the name otherwise.
pub open spec fn group_key(row: RowView, is_using_command: bool) -> Seq<char> {
    if is_using_command {
        row.command
    } else {
        row.name
    }
}

/// The index of the first group named `key`, or the number of groups where
/// there is none.
pub open spec fn position_of_name(groups: Seq<RowView>, key: Seq<char>) -> int
    decreases groups.len(),
{
    if groups.len() == 0 {
        0
    } else if groups[0].name == key {
        0
    } else {
        1 + position_of_name(groups.skip(1), key)
    }
}

/// The group that a single row starts: it is named by the row's key, keeps
/// the row's figures and pids, and has no parent, state or depth.
pub open spec fn group_of(row: RowView, key: Seq<char>) -> RowView {
    RowView {
        pid: row.pid,
        parent_pid: None,
        name: key,
        command: key,
        cpu_usage: row.cpu_usage,
        mem_usage: row.mem_usage,
        mem_bytes: row.mem_bytes,
        read_bytes_per_sec: row.read_bytes_per_sec,
        write_bytes_per_sec: row.write_bytes_per_sec,
        total_read_bytes: row.total_read_bytes,
        total_write_bytes: row.total_write_bytes,
        process_state: Seq::empty(),
        group_pids: row.group_pids,
        is_disabled_entry: false,
        depth: 0,
    }
}

/// The group `group` after `row` has joined it: the figures are summed and
/// the row's pids follow the group's.
pub open spec fn group_with(group: RowView, row: RowView) -> RowView {
    RowView {
        pid: group.pid,
        parent_pid: group.parent_pid,
        name: group.name,
        command: group.command,
        cpu_usage: capped_sum(group.cpu_usage, row.cpu_usage),
        mem_usage: capped_sum(group.mem_usage, row.mem_usage),
        mem_bytes: capped_sum(group.mem_bytes, row.mem_bytes),
        read_bytes_per_sec: capped_sum(group.read_bytes_per_sec, row.read_bytes_per_sec),
        write_bytes_per_sec: capped_sum(group.write_bytes_per_sec, row.write_bytes_per_sec),
        total_read_bytes: capped_sum(group.total_read_bytes, row.total_read_bytes),
        total_write_bytes: capped_sum(group.total_write_bytes, row.total_write_bytes),
        process_state: group.process_state,
        group_pids: group.group_pids + row.group_pids,
        is_disabled_entry: group.is_disabled_entry,
        depth: group.depth,
    }
}

/// The groups after one more row: the row joins the group of its key, or
/// starts a new last group.
pub open spec fn absorb(groups: Seq<RowView>, row: RowView, is_using_command: bool) -> Seq<
    RowView,
> {
    let key = group_key(row, is_using_command);
    let at = position_of_name(groups, key);
    if 0 <= at < groups.len() {
        groups.update(at, group_with(groups[at], row))
    } else {
        groups.push(group_of(row, key))
    }
}

/// The rows grouped by key: one group per key, in the order in which the
/// keys first occur, each the aggregate of the rows with that key.
pub open spec fn grouped(rows: Seq<RowView>, is_using_command: bool) -> Seq<RowView>
    decreases rows.len(),
{
    if rows.len() == 0 {
        Seq::empty()
    } else {
        absorb(grouped(rows.drop_last(), is_using_command), rows.last(), is_using_command)
    }
}

/// What [`position_of_name`] finds: no earlier group has the name, and the
/// group at the position, if there is one, has it.
pub proof fn lemma_position_of_name(groups: Seq<RowView>, key: Seq<char>)
    ensures
        0 <= position_of_name(groups, key) <= groups.len(),
        position_of_name(groups, key) < groups.len() ==> groups[position_of_name(
            groups,
            key,
        )].name == key,
        forall|j: int| 0 <= j < position_of_name(groups, key) ==> (#[trigger] groups[j]).name != key,
    decreases groups.len(),
{
    if groups.len() > 0 && groups[0].name != key {
        let rest = groups.skip(1);
        lemma_position_of_name(rest, key);
        let at = position_of_name(rest, key);
        assert forall|j: int| 0 <= j < at + 1 implies (#[trigger] groups[j]).name != key by {
            if j > 0 {
                assert(rest[j - 1] == groups[j]);
            }
        }
        if at < rest.len() {
            assert(rest[at] == groups[at + 1]);
        }
    }
}

/// The first index that holds the name is the position of the name.
pub proof fn lemma_position_is_first(groups: Seq<RowView>, key: Seq<char>, at: int)
    requires
        0 <= at <= groups.len(),
        forall|j: int| 0 <= j < at ==> (#[trigger] groups[j]).name != key,
        at < groups.len() ==> groups[at].name == key,
    ensures
        position_of_name(groups, key) == at,
{
    lemma_position_of_name(groups, key);
    let found = position_of_name(groups, key);
    if found < at {
        assert(groups[found].name != key);
    } else if found > at {
        assert(groups[at].name != key);
    }
}

/// A group as grouping leaves it: without parent, state or depth, enabled,
/// and with its name as its command.
pub open spec fn is_plain_group(group: RowView) -> bool {
    &&& group.parent_pid is None
    &&& group.command == group.name
    &&& group.process_state == Seq::<char>::empty()
    &&& !group.is_disabled_entry
    &&& group.depth == 0
}

/// Every row is a plain group and no two rows share a name.
pub open spec fn is_grouped_table(groups: Seq<RowView>) -> bool {
    &&& forall|i: int| 0 <= i < groups.len() ==> is_plain_group(#[trigger] groups[i])
    &&& forall|i: int, j: int|
        0 <= i < j < groups.len() ==> (#[trigger] groups[i]).name != (#[trigger] groups[j]).name
}

/// Grouping yields plain groups with distinct names.
pub proof fn lemma_grouped_is_grouped_table(rows: Seq<RowView>, is_using_command: bool)
    ensures
        is_grouped_table(grouped(rows, is_using_command)),
    decreases rows.len(),
{
    if rows.len() > 0 {
        let earlier = grouped(rows.drop_last(), is_using_command);
        lemma_grouped_is_grouped_table(rows.drop_last(), is_using_command);
        let key = group_key(rows.last(), is_using_command);
        lemma_position_of_name(earlier, key);
        let at = position_of_name(earlier, key);
        let now = absorb(earlier, rows.last(), is_using_command);
        assert forall|i: int| 0 <= i < now.len() implies is_plain_group(#[trigger] now[i]) by {
            if i < earlier.len() {
                assert(is_plain_group(earlier[i]));
            }
        }
        assert forall|i: int, j: int| 0 <= i < j < now.len() implies (#[trigger] now[i]).name != (
        #[trigger] now[j]).name by {
            if j < earlier.len() {
                assert(earlier[i].name != earlier[j].name);
            } else {
                assert(earlier[i].name != key);
            }
        }
    }
}

/// A table of plain groups with distinct names is its own grouping.
pub proof fn lemma_grouped_table_is_fixed(groups: Seq<RowView>, is_using_command: bool)
    requires
        is_grouped_table(groups),
    ensures
        grouped(groups, is_using_command) == groups,
    decreases groups.len(),
{
    if groups.len() == 0 {
        assert(grouped(groups, is_using_command) =~= groups);
    } else {
        let earlier = groups.drop_last();
        let last = groups.last();
        assert(is_grouped_table(earlier)) by {
            assert forall|i: int| 0 <= i < earlier.len() implies is_plain_group(
                #[trigger] earlier[i],
            ) by {
                assert(earlier[i] == groups[i]);
            }
            assert forall|i: int, j: int| 0 <= i < j < earlier.len() implies (
            #[trigger] earlier[i]).name != (#[trigger] earlier[j]).name by {
                assert(earlier[i] == groups[i]);
                assert(earlier[j] == groups[j]);
            }
        }
        lemma_grouped_table_is_fixed(earlier, is_using_command);
        assert(is_plain_group(last));
        let key = group_key(last, is_using_command);
        assert(key == last.name);
        assert forall|j: int| 0 <= j < earlier.len() implies (#[trigger] earlier[j]).name != key by {
            assert(earlier[j] == groups[j]);
            assert(groups[j].name != groups[groups.len() - 1].name);
        }
        lemma_position_is_first(earlier, key, earlier.len() as int);
        assert(group_of(last, key) == last);
        assert(earlier.push(last) =~= groups);
    }
}

/// Grouping is idempotent: grouping a grouped table again, by name or by
/// command, gives the same groups.
pub proof fn lemma_grouping_is_idempotent(
    rows: Seq<RowView>,
    is_using_command: bool,
    again_using_command: bool,
)
    ensures
        grouped(grouped(rows, is_using_command), again_using_command) == grouped(
            rows,
            is_using_command,
        ),
{
    lemma_grouped_is_grouped_table(rows, is_using_command);
    lemma_grouped_table_is_fixed(grouped(rows, is_using_command), again_using_command);
}

fn add_capped(a: u64, b: u64) -> (sum: u64)
    ensures
        sum as nat == capped_sum(a as nat, b as nat),
{
    if a > u64::MAX - b {
        u64::MAX
    } else {
        a + b
    }
}

fn start_group(row: &ProcessRow, is_using_command: bool) -> (group: ProcessRow)
    ensures
        group@ == group_of(row@, group_key(row@, is_using_command)),
{
    let key = if is_using_command {
        &row.command
    } else {
        &row.name
    };
    ProcessRow {
        pid: row.pid,
        parent_pid: None,
        name: key.clone(),
        command: key.clone(),
        cpu_usage: row.cpu_usage,
        mem_usage: row.mem_usage,
        mem_bytes: row.mem_bytes,
        read_bytes_per_sec: row.read_bytes_per_sec,
        write_bytes_per_sec: row.write_bytes_per_sec,
        total_read_bytes: row.total_read_bytes,
        total_write_bytes: row.total_write_bytes,
        process_state: String::new(),
        group_pids: copy_pids(&row.group_pids),
        is_disabled_entry: false,
        depth: 0,
    }
}

fn join_group(group: &ProcessRow, row: &ProcessRow) -> (joined: ProcessRow)
    ensures
        joined@ == group_with(group@, row@),
{
    let mut pids: Vec<Pid> = copy_pids(&group.group_pids);
    let mut i: usize = 0;
    while i < row.group_pids.len()
        invariant
            i <= row.group_pids.len(),
            pids@ == group.group_pids@ + row.group_pids@.take(i as int),
        decreases row.group_pids.len() - i,
    {
        pids.push(row.group_pids[i]);
        proof {
            assert(row.group_pids@.take(i as int + 1) =~= row.group_pids@.take(i as int).push(
                row.group_pids@[i as int],
            ));
            assert(pids@ =~= group.group_pids@ + row.group_pids@.take(i as int + 1));
        }
        i = i + 1;
    }
    proof {
        assert(row.group_pids@.take(row.group_pids.len() as int) =~= row.group_pids@);
        assert(pids_view(group.group_pids@ + row.group_pids@) =~= pids_view(group.group_pids@)
            + pids_view(row.group_pids@));
    }
    ProcessRow {
        pid: group.pid,
        parent_pid: group.parent_pid,
        name: group.name.clone(),
        command: group.command.clone(),
        cpu_usage: add_capped(group.cpu_usage, row.cpu_usage),
        mem_usage: add_capped(group.mem_usage, row.mem_usage),
        mem_bytes: add_capped(group.mem_bytes, row.mem_bytes),
        read_bytes_per_sec: add_capped(group.read_bytes_per_sec, row.read_bytes_per_sec),
        write_bytes_per_sec: add_capped(group.write_bytes_per_sec, row.write_bytes_per_sec),
        total_read_bytes: add_capped(group.total_read_bytes, row.total_read_bytes),
        total_write_bytes: add_capped(group.total_write_bytes, row.total_write_bytes),
        process_state: group.process_state.clone(),
        group_pids: pids,
        is_disabled_entry: group.is_disabled_entry,
        depth: group.depth,
    }
}

fn find_group(groups: &Vec<ProcessRow>, key: &String) -> (at: usize)
    ensures
        at as int == position_of_name(rows_view(groups@), key@),
{
    let mut at: usize = 0;
    while at < groups.len() && groups[at].name != *key
        invariant
            at <= groups.len(),
            forall|j: int| 0 <= j < at ==> (#[trigger] rows_view(groups@)[j]).name != key@,
        decreases groups.len() - at,
    {
        at = at + 1;
    }
    proof {
        lemma_position_is_first(rows_view(groups@), key@, at as int);
    }
    at
}

/// Merges the rows that share a name (or a command line, where the widget
/// shows commands) into one row each: the usage figures are summed, the pids
/// are collected, and the groups stand in the order in which their names
/// first occur.
pub fn group_process_data(rows: &Vec<ProcessRow>, is_using_command: bool) -> (groups: Vec<
    ProcessRow,
>)
    ensures
        rows_view(groups@) == grouped(rows_view(rows@), is_using_command),
{
    let mut groups: Vec<ProcessRow> = Vec::new();
    let mut i: usize = 0;
    proof {
        assert(rows_view(rows@).take(0) =~= Seq::<RowView>::empty());
        assert(rows_view(groups@) =~= Seq::<RowView>::empty());
    }
    while i < rows.len()
        invariant
            i <= rows.len(),
            rows_view(groups@) == grouped(rows_view(rows@).take(i as int), is_using_command),
        decreases rows.len() - i,
    {
        let row = &rows[i];
        let ghost before = rows_view(groups@);
        proof {
            let upto = rows_view(rows@).take(i as int + 1);
            assert(upto.drop_last() =~= rows_view(rows@).take(i as int));
            assert(upto.last() == row@);
        }
        let key = if is_using_command {
            &row.command
        } else {
            &row.name
        };
        let at = find_group(&groups, key);
        if at < groups.len() {
            let joined = join_group(&groups[at], row);
            groups.set(at, joined);
            proof {
                assert(rows_view(groups@) =~= before.update(at as int, joined@));
            }
        } else {
            let started = start_group(row, is_using_command);
            groups.push(started);
            proof {
                assert(rows_view(groups@) =~= before.push(started@));
            }
        }
        i = i + 1;
    }
    proof {
        assert(rows_view(rows@).take(rows.len() as int) =~= rows_view(rows@));
    }
    groups
}

} // verus!
