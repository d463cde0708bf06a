use bottom::grouping::group_process_data;
use bottom::process::{convert_process_data, copy_rows, ProcessRecord, ProcessRow};
use bottom::search::{
    check, filter_process_data, ProcessSearchState, SearchEdit, SearchPatternError,
};
use bottom::text::{chars_before, chars_of, less_ignoring_case, text_of};
use bottom::sorting::{row_less, sort_rows, stable_sort_rows, ProcessSorting};
use bottom::tree::{build_forest, tree_process_data};
use bottom::widget::{
    sort_process_data, ProcWidgetState, ScrollDirection, ScrollState, WidgetCommand,
};

fn record(pid: i32, parent: Option<i32>, name: &str, cpu: u64) -> ProcessRecord {
    ProcessRecord {
        pid,
        parent_pid: parent,
        name: name.to_string(),
        command: format!("/usr/bin/{}", name),
        cpu_usage: cpu,
        mem_usage: 0,
        mem_bytes: 0,
        read_bytes_per_sec: 0,
        write_bytes_per_sec: 0,
        total_read_bytes: 0,
        total_write_bytes: 0,
        process_state: "R".to_string(),
    }
}

fn row(pid: i32, parent: Option<i32>, name: &str, cpu: u64) -> ProcessRow {
    ProcessRow::from_record(&record(pid, parent, name, cpu))
}

fn names(rows: &Vec<ProcessRow>) -> Vec<String> {
    rows.iter().map(|r| r.name.clone()).collect()
}

fn pids(rows: &Vec<ProcessRow>) -> Vec<i32> {
    rows.iter().map(|r| r.pid).collect()
}

fn search(query: &str, ignore_case: bool, whole_word: bool, regex: bool) -> ProcessSearchState {
    let mut s = ProcessSearchState::new(ignore_case, whole_word, regex);
    s.current_search_query = chars_of(query);
    s
}

#[test]
fn row_of_a_record_stands_for_that_process() {
    let r = row(7, Some(1), "init", 12);
    assert_eq!(r.pid, 7);
    assert_eq!(r.parent_pid, Some(1));
    assert_eq!(r.name, "init");
    assert_eq!(r.command, "/usr/bin/init");
    assert_eq!(r.cpu_usage, 12);
    assert_eq!(r.group_pids, vec![7]);
    assert!(!r.is_disabled_entry);
    assert_eq!(r.depth, 0);
}

#[test]
fn conversion_keeps_order_and_count() {
    let records = vec![record(3, None, "c", 1), record(1, None, "a", 2), record(2, None, "b", 3)];
    let rows = convert_process_data(&records);
    assert_eq!(pids(&rows), vec![3, 1, 2]);
    assert_eq!(copy_rows(&rows), rows);
}

#[test]
fn grouped_rows_sum_cpu_and_collect_pids() {
    let rows = vec![row(1, None, "a", 10), row(2, None, "a", 5)];
    let mut groups = group_process_data(&rows, false);
    sort_rows(&mut groups, ProcessSorting::CpuPercent, true, true);
    assert_eq!(groups.len(), 1);
    assert_eq!(groups[0].name, "a");
    assert_eq!(groups[0].cpu_usage, 15);
    assert_eq!(groups[0].group_pids, vec![1, 2]);
}

#[test]
fn groups_stand_in_order_of_first_occurrence() {
    let rows = vec![
        row(1, Some(9), "b", 1),
        row(2, None, "a", 2),
        row(3, None, "b", 4),
        row(4, None, "c", 8),
        row(5, None, "a", 16),
    ];
    let groups = group_process_data(&rows, false);
    assert_eq!(names(&groups), vec!["b", "a", "c"]);
    assert_eq!(groups[0].cpu_usage, 5);
    assert_eq!(groups[0].group_pids, vec![1, 3]);
    assert_eq!(groups[0].pid, 1);
    assert_eq!(groups[0].parent_pid, None);
    assert_eq!(groups[0].command, "b");
    assert_eq!(groups[0].process_state, "");
    assert_eq!(groups[1].cpu_usage, 18);
    assert_eq!(groups[1].group_pids, vec![2, 5]);
    assert_eq!(groups[2].cpu_usage, 8);
}

#[test]
fn grouping_by_command_names_the_group_by_the_command() {
    let rows = vec![row(1, None, "a", 1), row(2, None, "a", 2)];
    let groups = group_process_data(&rows, true);
    assert_eq!(groups.len(), 1);
    assert_eq!(groups[0].name, "/usr/bin/a");
    assert_eq!(groups[0].command, "/usr/bin/a");
}

#[test]
fn grouping_twice_is_grouping_once() {
    let rows = vec![
        row(1, None, "b", 1),
        row(2, None, "a", 2),
        row(3, None, "b", 4),
        row(4, None, "A", 8),
    ];
    let once = group_process_data(&rows, false);
    let twice = group_process_data(&once, false);
    assert_eq!(once, twice);
    let by_command = group_process_data(&once, true);
    assert_eq!(once, by_command);
}

#[test]
fn group_sums_stop_at_the_largest_value() {
    let rows = vec![row(1, None, "a", u64::MAX - 1), row(2, None, "a", 5)];
    let groups = group_process_data(&rows, false);
    assert_eq!(groups[0].cpu_usage, u64::MAX);
}

#[test]
fn grouping_nothing_gives_nothing() {
    let groups = group_process_data(&Vec::new(), false);
    assert!(groups.is_empty());
}

#[test]
fn name_sort_ignores_case() {
    let mut rows = vec![row(1, None, "c", 0), row(2, None, "a", 0), row(3, None, "B", 0)];
    sort_rows(&mut rows, ProcessSorting::ProcessName, false, false);
    assert_eq!(names(&rows), vec!["a", "B", "c"]);
    sort_rows(&mut rows, ProcessSorting::ProcessName, true, false);
    assert_eq!(names(&rows), vec!["c", "B", "a"]);
}

#[test]
fn equal_keys_keep_name_order() {
    let mut rows = vec![
        row(1, None, "delta", 5),
        row(2, None, "alpha", 5),
        row(3, None, "Charlie", 9),
        row(4, None, "bravo", 5),
    ];
    sort_rows(&mut rows, ProcessSorting::CpuPercent, true, false);
    assert_eq!(names(&rows), vec!["Charlie", "alpha", "bravo", "delta"]);
    sort_rows(&mut rows, ProcessSorting::CpuPercent, false, false);
    assert_eq!(names(&rows), vec!["alpha", "bravo", "delta", "Charlie"]);
}

#[test]
fn equal_names_keep_their_first_order() {
    let mut rows = vec![row(5, None, "a", 0), row(3, None, "A", 0), row(4, None, "a", 0)];
    sort_rows(&mut rows, ProcessSorting::ProcessName, false, false);
    assert_eq!(pids(&rows), vec![5, 3, 4]);
}

#[test]
fn pid_sort_means_nothing_in_a_grouped_table() {
    let mut rows = vec![row(3, None, "a", 0), row(1, None, "c", 0), row(2, None, "b", 0)];
    sort_rows(&mut rows, ProcessSorting::Pid, false, true);
    assert_eq!(pids(&rows), vec![3, 2, 1]);
    sort_rows(&mut rows, ProcessSorting::Pid, false, false);
    assert_eq!(pids(&rows), vec![1, 2, 3]);
}

#[test]
fn count_sort_means_nothing_in_a_plain_table() {
    let rows = vec![
        row(1, None, "b", 0),
        row(2, None, "a", 0),
        row(3, None, "b", 0),
        row(4, None, "b", 0),
        row(5, None, "c", 0),
        row(6, None, "c", 0),
    ];
    let mut groups = group_process_data(&rows, false);
    sort_rows(&mut groups, ProcessSorting::Count, true, true);
    assert_eq!(names(&groups), vec!["b", "c", "a"]);
    sort_rows(&mut groups, ProcessSorting::Count, true, false);
    assert_eq!(names(&groups), vec!["a", "b", "c"]);
}

#[test]
fn every_column_orders_by_its_own_key() {
    let mut a = row(1, None, "a", 1);
    let mut b = row(2, None, "b", 2);
    a.mem_bytes = 10;
    b.mem_bytes = 5;
    a.mem_usage = 3;
    b.mem_usage = 4;
    a.read_bytes_per_sec = 9;
    b.read_bytes_per_sec = 8;
    a.write_bytes_per_sec = 1;
    b.write_bytes_per_sec = 2;
    a.total_read_bytes = 7;
    b.total_read_bytes = 6;
    a.total_write_bytes = 1;
    b.total_write_bytes = 3;
    a.process_state = "S".to_string();
    b.process_state = "r".to_string();
    assert!(row_less(&a, &b, ProcessSorting::CpuPercent));
    assert!(row_less(&b, &a, ProcessSorting::Mem));
    assert!(row_less(&a, &b, ProcessSorting::MemPercent));
    assert!(row_less(&a, &b, ProcessSorting::Pid));
    assert!(row_less(&a, &b, ProcessSorting::ProcessName));
    assert!(row_less(&a, &b, ProcessSorting::Command));
    assert!(row_less(&b, &a, ProcessSorting::ReadPerSecond));
    assert!(row_less(&a, &b, ProcessSorting::WritePerSecond));
    assert!(row_less(&b, &a, ProcessSorting::TotalRead));
    assert!(row_less(&a, &b, ProcessSorting::TotalWrite));
    assert!(row_less(&b, &a, ProcessSorting::State));
    assert!(!row_less(&a, &b, ProcessSorting::Count));
    assert!(!row_less(&b, &a, ProcessSorting::Count));
}

#[test]
fn one_pass_sorts_and_keeps_ties_in_place() {
    let mut rows = vec![
        row(1, None, "d", 3),
        row(2, None, "c", 1),
        row(3, None, "b", 3),
        row(4, None, "a", 1),
        row(5, None, "e", 2),
    ];
    stable_sort_rows(&mut rows, ProcessSorting::CpuPercent, false);
    assert_eq!(pids(&rows), vec![2, 4, 5, 1, 3]);
    stable_sort_rows(&mut rows, ProcessSorting::CpuPercent, true);
    assert_eq!(pids(&rows), vec![1, 3, 5, 2, 4]);
    let mut none: Vec<ProcessRow> = Vec::new();
    stable_sort_rows(&mut none, ProcessSorting::Pid, false);
    assert!(none.is_empty());
    let mut one = vec![row(9, None, "z", 0)];
    stable_sort_rows(&mut one, ProcessSorting::Pid, true);
    assert_eq!(pids(&one), vec![9]);
}

#[test]
fn a_long_table_is_sorted() {
    let mut rows: Vec<ProcessRow> = (0..500)
        .map(|k: i32| row(k, None, &format!("p{}", (k * 7919) % 500), ((k * 31) % 17) as u64))
        .collect();
    let before = rows.clone();
    sort_rows(&mut rows, ProcessSorting::CpuPercent, true, false);
    assert_eq!(rows.len(), 500);
    for pair in rows.windows(2) {
        assert!(pair[0].cpu_usage >= pair[1].cpu_usage);
        if pair[0].cpu_usage == pair[1].cpu_usage {
            assert!(pair[0].name.to_lowercase() <= pair[1].name.to_lowercase());
        }
    }
    let mut seen: Vec<i32> = pids(&rows);
    seen.sort();
    assert_eq!(seen, pids(&before));
}

#[test]
fn blank_search_lets_every_row_pass() {
    let rows = vec![row(1, None, "a", 0), row(2, None, "b", 0)];
    let s = search("", false, false, false);
    assert_eq!(s.compile().err(), Some(SearchPatternError::Blank));
    assert!(s.is_invalid_or_blank_search());
    let kept = filter_process_data(&rows, &None, false, false);
    assert_eq!(kept, rows);
    let kept_tree = filter_process_data(&rows, &None, false, true);
    assert_eq!(kept_tree, rows);
}

#[test]
fn invalid_pattern_is_reported() {
    let s = search("(", false, false, true);
    assert_eq!(s.compile().err(), Some(SearchPatternError::Invalid));
    assert!(s.is_invalid_or_blank_search());
    let literal = search("(", false, false, false);
    assert!(literal.compile().is_ok());
    assert!(!literal.is_invalid_or_blank_search());
}

#[test]
fn pattern_text_follows_the_settings() {
    assert_eq!(search("a.b", false, false, false).pattern_text(), "a\\.b");
    assert_eq!(search("a.b", false, false, true).pattern_text(), "a.b");
    assert_eq!(search("a.b", true, false, true).pattern_text(), "(?i)a.b");
    assert_eq!(search("a.b", false, true, true).pattern_text(), "^a.b$");
    assert_eq!(search("a+b", true, true, false).pattern_text(), "^(?i)a\\+b$");
}

#[test]
fn characters_and_text_convert_both_ways() {
    let chars = chars_of("héllo");
    assert_eq!(chars, vec!['h', 'é', 'l', 'l', 'o']);
    assert_eq!(text_of(&chars), "héllo");
    assert_eq!(text_of(&Vec::new()), "");
}

#[test]
fn plain_filter_removes_rows_that_do_not_match() {
    let rows = vec![row(1, None, "firefox", 0), row(2, None, "bash", 0), row(3, None, "Fire", 0)];
    let re = search("fire", false, false, false).compile().ok();
    assert_eq!(pids(&filter_process_data(&rows, &re, false, false)), vec![1]);
    let re = search("fire", true, false, false).compile().ok();
    assert_eq!(pids(&filter_process_data(&rows, &re, false, false)), vec![1, 3]);
    let re = search("fire", true, true, false).compile().ok();
    assert_eq!(pids(&filter_process_data(&rows, &re, false, false)), vec![3]);
    let re = search("^b.*h$", false, false, true).compile().ok();
    assert_eq!(pids(&filter_process_data(&rows, &re, false, false)), vec![2]);
    let re = search("b.*h", false, false, false).compile().ok();
    assert!(filter_process_data(&rows, &re, false, false).is_empty());
}

#[test]
fn filter_can_match_the_command_line() {
    let rows = vec![row(1, None, "firefox", 0), row(2, None, "bash", 0)];
    let re = search("/usr/bin/b", false, false, false).compile().ok();
    assert!(filter_process_data(&rows, &re, false, false).is_empty());
    assert_eq!(pids(&filter_process_data(&rows, &re, true, false)), vec![2]);
    let compiled = re.unwrap();
    assert!(check(&compiled, &rows[1], true));
    assert!(!check(&compiled, &rows[1], false));
}

#[test]
fn tree_filter_disables_rows_and_keeps_them() {
    let rows = vec![row(1, None, "firefox", 0), row(2, None, "bash", 0)];
    let re = search("bash", false, false, false).compile().ok();
    let kept = filter_process_data(&rows, &re, false, true);
    assert_eq!(pids(&kept), vec![1, 2]);
    assert!(kept[0].is_disabled_entry);
    assert!(!kept[1].is_disabled_entry);
}

#[test]
fn forest_puts_children_below_their_parents() {
    let rows = vec![
        row(5, Some(2), "e", 0),
        row(2, Some(1), "b", 0),
        row(1, None, "a", 0),
        row(3, Some(1), "c", 0),
        row(4, Some(9), "d", 0),
    ];
    let shown = build_forest(&rows);
    assert_eq!(pids(&shown), vec![1, 2, 5, 3, 4]);
    let depths: Vec<usize> = shown.iter().map(|r| r.depth).collect();
    assert_eq!(depths, vec![0, 1, 2, 1, 0]);
}

#[test]
fn every_parent_stands_before_its_children() {
    let rows = vec![
        row(8, Some(4), "h", 3),
        row(4, Some(2), "d", 9),
        row(2, Some(1), "b", 1),
        row(1, None, "a", 5),
        row(3, Some(1), "c", 7),
        row(6, Some(3), "f", 2),
    ];
    let shown = tree_process_data(&rows, ProcessSorting::CpuPercent, true);
    assert_eq!(shown.len(), rows.len());
    for (k, r) in shown.iter().enumerate() {
        if let Some(parent) = r.parent_pid {
            assert!(shown[..k].iter().any(|earlier| earlier.pid == parent));
        }
    }
}

#[test]
fn tree_sorts_each_group_of_siblings() {
    let rows = vec![
        row(1, None, "root", 0),
        row(2, Some(1), "x", 1),
        row(3, Some(1), "y", 9),
        row(4, Some(2), "p", 100),
        row(5, Some(3), "q", 50),
        row(6, None, "other", 200),
    ];
    let shown = tree_process_data(&rows, ProcessSorting::CpuPercent, true);
    assert_eq!(pids(&shown), vec![6, 1, 3, 5, 2, 4]);
    let shown = tree_process_data(&rows, ProcessSorting::ProcessName, false);
    assert_eq!(pids(&shown), vec![6, 1, 2, 4, 3, 5]);
}

#[test]
fn a_process_that_names_itself_as_parent_is_a_root() {
    let rows = vec![row(0, Some(0), "idle", 0), row(1, Some(0), "init", 0)];
    let shown = build_forest(&rows);
    assert_eq!(pids(&shown), vec![0, 1]);
    assert_eq!(shown[1].depth, 1);
}

#[test]
fn rows_on_a_cycle_of_parents_are_left_out() {
    let rows = vec![row(1, Some(2), "a", 0), row(2, Some(1), "b", 0), row(3, None, "c", 0)];
    let shown = build_forest(&rows);
    assert_eq!(pids(&shown), vec![3]);
}

#[test]
fn children_hang_below_the_first_row_of_a_repeated_pid() {
    let rows = vec![row(1, None, "a", 0), row(1, None, "a2", 0), row(2, Some(1), "b", 0)];
    let shown = build_forest(&rows);
    assert_eq!(names(&shown), vec!["a", "b", "a2"]);
}

#[test]
fn clamp_keeps_a_position_on_the_list() {
    let mut scroll = ScrollState {
        current_scroll_position: 3,
        previous_scroll_position: 2,
        scroll_direction: ScrollDirection::Up,
    };
    scroll.clamp(10);
    assert_eq!(scroll.current_scroll_position, 3);
    assert_eq!(scroll.previous_scroll_position, 2);
    assert_eq!(scroll.scroll_direction, ScrollDirection::Up);
}

#[test]
fn clamp_moves_a_position_past_the_end_to_the_last_row() {
    let mut scroll = ScrollState {
        current_scroll_position: 10,
        previous_scroll_position: 7,
        scroll_direction: ScrollDirection::Up,
    };
    scroll.clamp(4);
    assert_eq!(scroll.current_scroll_position, 3);
    assert_eq!(scroll.previous_scroll_position, 0);
    assert_eq!(scroll.scroll_direction, ScrollDirection::Down);
    scroll.clamp(0);
    assert_eq!(scroll.current_scroll_position, 0);
    let mut at_end = ScrollState::new();
    at_end.current_scroll_position = 4;
    at_end.clamp(4);
    assert_eq!(at_end.current_scroll_position, 3);
}

#[test]
fn widget_list_is_filtered_grouped_and_sorted() {
    let rows = vec![
        row(1, None, "a", 10),
        row(2, None, "a", 5),
        row(3, None, "b", 20),
        row(4, None, "zeta", 1),
    ];
    let mut widget = ProcWidgetState::new(1, false, true);
    widget.scroll_state.current_scroll_position = 9;
    widget.update_finalized(&rows);
    assert_eq!(names(&widget.finalized_process_data), vec!["b", "a", "zeta"]);
    assert_eq!(widget.finalized_process_data[1].cpu_usage, 15);
    assert_eq!(widget.scroll_state.current_scroll_position, 2);
    assert_eq!(widget.scroll_state.scroll_direction, ScrollDirection::Down);

    widget.process_search_state.current_search_query = chars_of("a");
    widget.update_finalized(&rows);
    assert_eq!(names(&widget.finalized_process_data), vec!["a", "zeta"]);
    assert_eq!(widget.scroll_state.current_scroll_position, 1);

    widget.process_search_state.current_search_query = chars_of("(");
    widget.process_search_state.is_searching_with_regex = true;
    widget.update_finalized(&rows);
    assert_eq!(widget.finalized_process_data.len(), 3);
}

#[test]
fn widget_in_tree_mode_keeps_and_disables() {
    let rows = vec![row(1, None, "a", 10), row(2, Some(1), "b", 5), row(3, Some(1), "c", 7)];
    let mut widget = ProcWidgetState::new(1, false, true);
    widget.is_tree_mode = true;
    widget.process_search_state.current_search_query = chars_of("c");
    widget.update_finalized(&rows);
    assert_eq!(pids(&widget.finalized_process_data), vec![1, 3, 2]);
    let disabled: Vec<bool> =
        widget.finalized_process_data.iter().map(|r| r.is_disabled_entry).collect();
    assert_eq!(disabled, vec![true, false, true]);
}

#[test]
fn search_box_edits_at_the_cursor() {
    let mut s = search("", false, false, false);
    s.edit(SearchEdit::Insert('a'));
    s.edit(SearchEdit::Insert('c'));
    s.edit(SearchEdit::CursorLeft);
    s.edit(SearchEdit::Insert('b'));
    assert_eq!(text_of(&s.current_search_query), "abc");
    assert_eq!(s.cursor_position, 2);
    s.edit(SearchEdit::Delete);
    assert_eq!(text_of(&s.current_search_query), "ab");
    assert_eq!(s.cursor_position, 2);
    s.edit(SearchEdit::Delete);
    assert_eq!(text_of(&s.current_search_query), "ab");
    s.edit(SearchEdit::Backspace);
    assert_eq!(text_of(&s.current_search_query), "a");
    assert_eq!(s.cursor_position, 1);
    s.edit(SearchEdit::CursorStart);
    assert_eq!(s.cursor_position, 0);
    s.edit(SearchEdit::Backspace);
    s.edit(SearchEdit::CursorLeft);
    assert_eq!(text_of(&s.current_search_query), "a");
    assert_eq!(s.cursor_position, 0);
    s.edit(SearchEdit::CursorEnd);
    assert_eq!(s.cursor_position, 1);
    s.edit(SearchEdit::CursorRight);
    assert_eq!(s.cursor_position, 1);
    s.edit(SearchEdit::Clear);
    assert!(s.current_search_query.is_empty());
    assert_eq!(s.cursor_position, 0);
}

#[test]
fn a_cursor_past_the_text_counts_as_at_its_end() {
    let mut s = search("ab", false, false, false);
    s.cursor_position = 40;
    s.edit(SearchEdit::Insert('c'));
    assert_eq!(text_of(&s.current_search_query), "abc");
    assert_eq!(s.cursor_position, 3);
}

#[test]
fn widget_commands_change_one_setting_each() {
    let mut w = ProcWidgetState::new(1, false, false);
    w.finalized_process_data = vec![row(1, None, "a", 0), row(2, None, "b", 0), row(3, None, "c", 0)];
    w.apply(WidgetCommand::ScrollUp);
    assert_eq!(w.scroll_state.current_scroll_position, 0);
    w.apply(WidgetCommand::ScrollDown);
    w.apply(WidgetCommand::ScrollDown);
    w.apply(WidgetCommand::ScrollDown);
    assert_eq!(w.scroll_state.current_scroll_position, 2);
    assert_eq!(w.scroll_state.scroll_direction, ScrollDirection::Down);
    w.apply(WidgetCommand::ScrollUp);
    assert_eq!(w.scroll_state.current_scroll_position, 1);
    assert_eq!(w.scroll_state.scroll_direction, ScrollDirection::Up);
    w.apply(WidgetCommand::SkipToLast);
    assert_eq!(w.scroll_state.current_scroll_position, 2);
    w.apply(WidgetCommand::SkipToFirst);
    assert_eq!(w.scroll_state.current_scroll_position, 0);
    w.apply(WidgetCommand::SelectRow(2));
    assert_eq!(w.scroll_state.current_scroll_position, 2);
    w.apply(WidgetCommand::SelectRow(3));
    assert_eq!(w.scroll_state.current_scroll_position, 2);

    w.apply(WidgetCommand::SortBy(ProcessSorting::CpuPercent));
    assert_eq!(w.process_sorting_type, ProcessSorting::CpuPercent);
    assert!(!w.is_process_sort_descending);
    w.apply(WidgetCommand::SortBy(ProcessSorting::Pid));
    assert_eq!(w.process_sorting_type, ProcessSorting::Pid);
    assert!(!w.is_process_sort_descending);
    w.apply(WidgetCommand::SortBy(ProcessSorting::Mem));
    assert!(w.is_process_sort_descending);
    w.apply(WidgetCommand::ToggleSort);
    assert!(!w.is_process_sort_descending);

    w.apply(WidgetCommand::SortBy(ProcessSorting::Pid));
    w.apply(WidgetCommand::ToggleGrouping);
    assert!(w.is_grouped);
    assert_eq!(w.process_sorting_type, ProcessSorting::CpuPercent);
    assert!(w.is_process_sort_descending);
    w.apply(WidgetCommand::ToggleGrouping);
    assert!(!w.is_grouped);
    assert_eq!(w.process_sorting_type, ProcessSorting::CpuPercent);

    w.apply(WidgetCommand::ToggleTreeMode);
    assert!(w.is_tree_mode);
    w.apply(WidgetCommand::ToggleCommand);
    assert!(w.is_using_command);
    w.apply(WidgetCommand::ToggleIgnoreCase);
    assert!(w.process_search_state.is_ignoring_case);
    w.apply(WidgetCommand::ToggleSearchWholeWord);
    assert!(w.process_search_state.is_searching_whole_word);
    w.apply(WidgetCommand::ToggleSearchRegex);
    assert!(w.process_search_state.is_searching_with_regex);
    w.apply(WidgetCommand::OpenSearch);
    assert!(w.process_search_state.is_enabled);
    w.apply(WidgetCommand::CloseSearch);
    assert!(!w.process_search_state.is_enabled);
}

#[test]
fn a_table_is_sorted_under_the_settings_of_its_widget() {
    let mut widget = ProcWidgetState::new(1, false, false);
    let mut rows = vec![row(2, None, "b", 5), row(3, None, "a", 5), row(1, None, "c", 9)];
    sort_process_data(&mut rows, &widget);
    assert_eq!(names(&rows), vec!["c", "a", "b"]);
    widget.process_sorting_type = ProcessSorting::Pid;
    widget.is_process_sort_descending = false;
    sort_process_data(&mut rows, &widget);
    assert_eq!(pids(&rows), vec![1, 2, 3]);
    widget.is_grouped = true;
    sort_process_data(&mut rows, &widget);
    assert_eq!(names(&rows), vec!["a", "b", "c"]);
}

#[test]
fn texts_are_ordered_by_their_characters() {
    let before = |a: &str, b: &str| chars_before(&chars_of(a), &chars_of(b));
    assert!(before("", "a"));
    assert!(!before("", ""));
    assert!(!before("a", ""));
    assert!(before("a", "b"));
    assert!(!before("b", "a"));
    assert!(before("ab", "abc"));
    assert!(!before("abc", "ab"));
    assert!(!before("abc", "abc"));
    assert!(before("abc", "abd"));
    assert!(before("B", "a"));
    assert!(before("z", "é"));
    assert!(before("é", "日"));
    for (a, b) in [("x", "y"), ("", "q"), ("zz", "z"), ("é", "e"), ("Ab", "aB")] {
        assert_eq!(before(a, b), a < b);
        assert_eq!(before(b, a), b < a);
    }
}

#[test]
fn case_is_ignored_where_asked() {
    assert!(less_ignoring_case("a", "B"));
    assert!(!less_ignoring_case("B", "a"));
    assert!(!less_ignoring_case("abc", "ABC"));
    assert!(!less_ignoring_case("ABC", "abc"));
    assert!(less_ignoring_case("ÄB", "äc"));
}

#[test]
fn text_columns_sort_in_both_directions() {
    let mut rows = vec![row(1, None, "b", 0), row(2, None, "A", 0), row(3, None, "c", 0)];
    rows[0].process_state = "s".to_string();
    rows[1].process_state = "R".to_string();
    rows[2].process_state = "r".to_string();
    stable_sort_rows(&mut rows, ProcessSorting::State, false);
    assert_eq!(pids(&rows), vec![2, 3, 1]);
    stable_sort_rows(&mut rows, ProcessSorting::State, true);
    assert_eq!(pids(&rows), vec![1, 2, 3]);
    stable_sort_rows(&mut rows, ProcessSorting::Command, true);
    assert_eq!(names(&rows), vec!["c", "b", "A"]);
    stable_sort_rows(&mut rows, ProcessSorting::Command, false);
    assert_eq!(names(&rows), vec!["A", "b", "c"]);
}

#[test]
fn the_filter_goes_by_the_expression_it_is_given() {
    let rows = vec![row(1, None, "firefox", 0), row(2, None, "bash", 0), row(3, None, "Fire", 0)];
    let plain = regex::Regex::new("fire").ok();
    let any_case = regex::RegexBuilder::new("fire").case_insensitive(true).build().ok();
    assert_eq!(pids(&filter_process_data(&rows, &plain, false, false)), vec![1]);
    assert_eq!(pids(&filter_process_data(&rows, &any_case, false, false)), vec![1, 3]);
    let marked = filter_process_data(&rows, &any_case, false, true);
    let disabled: Vec<bool> = marked.iter().map(|r| r.is_disabled_entry).collect();
    assert_eq!(disabled, vec![false, true, false]);
    assert!(check(any_case.as_ref().unwrap(), &rows[2], false));
    assert!(!check(plain.as_ref().unwrap(), &rows[2], false));
}

#[test]
fn no_pid_stands_twice_and_parents_stand_first() {
    let mut rows = Vec::new();
    for k in 1..60 {
        let parent = if k % 7 == 1 { None } else { Some((k * 5) % k.max(2) + 1).filter(|p| *p < k) };
        rows.push(row(k, parent, &format!("p{}", (k * 13) % 11), ((k * 17) % 5) as u64));
    }
    rows.push(row(100, Some(101), "x", 0));
    rows.push(row(101, Some(100), "y", 0));
    rows.push(row(0, Some(0), "idle", 0));
    for column in [ProcessSorting::CpuPercent, ProcessSorting::ProcessName, ProcessSorting::Pid] {
        let shown = tree_process_data(&rows, column, true);
        for i in 0..shown.len() {
            for j in 0..shown.len() {
                if i != j {
                    assert_ne!(shown[i].pid, shown[j].pid);
                }
                if shown[i].parent_pid == Some(shown[j].pid) && shown[i].pid != shown[j].pid {
                    assert!(j < i);
                    assert_eq!(shown[i].depth, shown[j].depth + 1);
                }
            }
        }
        assert!(shown.iter().all(|r| r.pid != 100 && r.pid != 101));
        assert!(shown.iter().any(|r| r.pid == 0 && r.depth == 0));
    }
}
