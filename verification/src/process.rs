//! Process rows: what the harvester reports about one process, and the row
//! that a process table shows for it.

use vstd::prelude::*;

verus! {

/// Identifier of a process as the operating system reports it.
pub type Pid = i32;

/// One process as a harvest reports it. The usage figures are fixed-point
/// integers: percentages in thousandths of a percent, rates in bytes per
/// second, totals in bytes.
#[derive(Clone, Debug, PartialEq, Eq)]
pub struct ProcessRecord {
    pub pid: Pid,
    pub parent_pid: Option<Pid>,
    pub name: String,
    pub command: String,
    pub cpu_usage: u64,
    pub mem_usage: u64,
    pub mem_bytes: u64,
    pub read_bytes_per_sec: u64,
    pub write_bytes_per_sec: u64,
    pub total_read_bytes: u64,
    pub total_write_bytes: u64,
    pub process_state: String,
}

/// One row of a process table: a single process, or the aggregate of the
/// processes that share a name.
#[derive(Clone, Debug, PartialEq, Eq)]
pub struct ProcessRow {
    pub pid: Pid,
    pub parent_pid: Option<Pid>,
    pub name: String,
    pub command: String,
    pub cpu_usage: u64,
    pub mem_usage: u64,
    pub mem_bytes: u64,
    pub read_bytes_per_sec: u64,
    pub write_bytes_per_sec: u64,
    pub total_read_bytes: u64,
    pub total_write_bytes: u64,
    pub process_state: String,
    /// The processes that this row stands for.
    pub group_pids: Vec<Pid>,
    /// Set in tree mode on a row that the search does not match.
    pub is_disabled_entry: bool,
    /// Distance from the root of the row's tree; 0 outside tree mode.
    pub depth: usize,
}

/// The mathematical value of a [`ProcessRow`].
pub ghost struct RowView {
    pub pid: int,
    pub parent_pid: Option<int>,
    pub name: Seq<char>,
    pub command: Seq<char>,
    pub cpu_usage: nat,
    pub mem_usage: nat,
    pub mem_bytes: nat,
    pub read_bytes_per_sec: nat,
    pub write_bytes_per_sec: nat,
    pub total_read_bytes: nat,
    pub total_write_bytes: nat,
    pub process_state: Seq<char>,
    pub group_pids: Seq<int>,
    pub is_disabled_entry: bool,
    pub depth: nat,
}

pub open spec fn pid_view(p: Option<Pid>) -> Option<int> {
    match p {
        Some(v) => Some(v as int),
        None => None,
    }
}

pub open spec fn pids_view(pids: Seq<Pid>) -> Seq<int> {
    pids.map_values(|p: Pid| p as int)
}

/// The row that a table shows for `record` before any shaping: it stands for
/// that one process, is enabled, and sits at depth 0.
pub open spec fn row_of_record(record: ProcessRecord) -> RowView {
    RowView {
        pid: record.pid as int,
        parent_pid: pid_view(record.parent_pid),
        name: record.name@,
        command: record.command@,
        cpu_usage: record.cpu_usage as nat,
        mem_usage: record.mem_usage as nat,
        mem_bytes: record.mem_bytes as nat,
        read_bytes_per_sec: record.read_bytes_per_sec as nat,
        write_bytes_per_sec: record.write_bytes_per_sec as nat,
        total_read_bytes: record.total_read_bytes as nat,
        total_write_bytes: record.total_write_bytes as nat,
        process_state: record.process_state@,
        group_pids: seq![record.pid as int],
        is_disabled_entry: false,
        depth: 0,
    }
}

/// The rows of a whole harvest, in the harvest's order.
pub open spec fn rows_of_records(records: Seq<ProcessRecord>) -> Seq<RowView> {
    records.map_values(|r: ProcessRecord| row_of_record(r))
}

impl View for ProcessRow {
    type V = RowView;

    open spec fn view(&self) -> RowView {
        RowView {
            pid: self.pid as int,
            parent_pid: pid_view(self.parent_pid),
            name: self.name@,
            command: self.command@,
            cpu_usage: self.cpu_usage as nat,
            mem_usage: self.mem_usage as nat,
            mem_bytes: self.mem_bytes as nat,
            read_bytes_per_sec: self.read_bytes_per_sec as nat,
            write_bytes_per_sec: self.write_bytes_per_sec as nat,
            total_read_bytes: self.total_read_bytes as nat,
            total_write_bytes: self.total_write_bytes as nat,
            process_state: self.process_state@,
            group_pids: pids_view(self.group_pids@),
            is_disabled_entry: self.is_disabled_entry,
            depth: self.depth as nat,
        }
    }
}

impl DeepView for ProcessRow {
    type V = RowView;

    open spec fn deep_view(&self) -> RowView {
        self@
    }
}

/// Copies a list of pids.
pub fn copy_pids(pids: &Vec<Pid>) -> (copy: Vec<Pid>)
    ensures
        copy@ == pids@,
{
    let mut copy: Vec<Pid> = Vec::new();
    let mut i: usize = 0;
    while i < pids.len()
        invariant
            i <= pids.len(),
            copy@ == pids@.take(i as int),
        decreases pids.len() - i,
    {
        copy.push(pids[i]);
        i = i + 1;
    }
    copy
}

impl ProcessRow {
    /// The row that a table shows for `record` before any shaping.
    pub fn from_record(record: &ProcessRecord) -> (row: ProcessRow)
        ensures
            row@ == row_of_record(*record),
    {
        let mut group_pids: Vec<Pid> = Vec::new();
        group_pids.push(record.pid);
        let row = ProcessRow {
            pid: record.pid,
            parent_pid: record.parent_pid,
            name: record.name.clone(),
            command: record.command.clone(),
            cpu_usage: record.cpu_usage,
            mem_usage: record.mem_usage,
            mem_bytes: record.mem_bytes,
            read_bytes_per_sec: record.read_bytes_per_sec,
            write_bytes_per_sec: record.write_bytes_per_sec,
            total_read_bytes: record.total_read_bytes,
            total_write_bytes: record.total_write_bytes,
            process_state: record.process_state.clone(),
            group_pids,
            is_disabled_entry: false,
            depth: 0,
        };
        assert(row@.group_pids =~= seq![record.pid as int]);
        row
    }

    /// A copy of the row with the same value.
    pub fn duplicate(&self) -> (row: ProcessRow)
        ensures
            row@ == self@,
    {
        ProcessRow {
            pid: self.pid,
            parent_pid: self.parent_pid,
            name: self.name.clone(),
            command: self.command.clone(),
            cpu_usage: self.cpu_usage,
            mem_usage: self.mem_usage,
            mem_bytes: self.mem_bytes,
            read_bytes_per_sec: self.read_bytes_per_sec,
            write_bytes_per_sec: self.write_bytes_per_sec,
            total_read_bytes: self.total_read_bytes,
            total_write_bytes: self.total_write_bytes,
            process_state: self.process_state.clone(),
            group_pids: copy_pids(&self.group_pids),
            is_disabled_entry: self.is_disabled_entry,
            depth: self.depth,
        }
    }
}

/// The values of a list of rows, in order.
pub open spec fn rows_view(rows: Seq<ProcessRow>) -> Seq<RowView> {
    rows.map_values(|r: ProcessRow| r@)
}

/// Converts a harvest's process records into table rows, one row per record
/// and in the same order.
pub fn convert_process_data(records: &Vec<ProcessRecord>) -> (rows: Vec<ProcessRow>)
    ensures
        rows_view(rows@) == rows_of_records(records@),
{
    let mut rows: Vec<ProcessRow> = Vec::new();
    let mut i: usize = 0;
    while i < records.len()
        invariant
            i <= records.len(),
            rows_view(rows@) == rows_of_records(records@.take(i as int)),
        decreases records.len() - i,
    {
        let row = ProcessRow::from_record(&records[i]);
        proof {
            assert(records@.take(i as int + 1) =~= records@.take(i as int).push(records@[i as int]));
            assert(rows_view(rows@.push(row)) =~= rows_view(rows@).push(row@));
            assert(rows_of_records(records@.take(i as int).push(records@[i as int]))
                =~= rows_of_records(records@.take(i as int)).push(row_of_record(records@[i as int])));
        }
        rows.push(row);
        i = i + 1;
    }
    proof {
        assert(records@.take(records.len() as int) =~= records@);
    }
    rows
}

/// Copies a list of rows.
pub fn copy_rows(rows: &Vec<ProcessRow>) -> (copy: Vec<ProcessRow>)
    ensures
        rows_view(copy@) == rows_view(rows@),
{
    let mut copy: Vec<ProcessRow> = Vec::new();
    let mut i: usize = 0;
    while i < rows.len()
        invariant
            i <= rows.len(),
            rows_view(copy@) == rows_view(rows@.take(i as int)),
        decreases rows.len() - i,
    {
        let row = rows[i].duplicate();
        proof {
            assert(rows@.take(i as int + 1) =~= rows@.take(i as int).push(rows@[i as int]));
            assert(rows_view(copy@.push(row)) =~= rows_view(copy@).push(row@));
            assert(rows_view(rows@.take(i as int).push(rows@[i as int]))
                =~= rows_view(rows@.take(i as int)).push(rows@[i as int]@));
        }
        copy.push(row);
        i = i + 1;
    }
    proof {
        assert(rows@.take(rows.len() as int) =~= rows@);
    }
    copy
}

} // verus!
