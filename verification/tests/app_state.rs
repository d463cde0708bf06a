use bottom::app::{find_widget_in, insert_widget, App, AppConfigFields, TemperatureType};
use bottom::commands::LoopAction;
use bottom::events::{handle_event, STALE_MAX_MILLISECONDS};
use bottom::{
    handle_force_redraws, handle_key_event_or_break, handle_mouse_event,
    update_all_process_lists, update_final_process_list, BottomEvent, ResetEvent,
};
use bottom::history::{Data, NetworkHarvest, Point};
use bottom::input::{Command, KeyCode, KeyEvent, KeyModifiers, MouseButton, MouseEvent, WidgetDirection};
use bottom::layout::WidgetLayout;
use bottom::process::{ProcessRecord, ProcessRow};
use bottom::text::text_of;
use bottom::sorting::ProcessSorting;
use bottom::widget::{ProcWidgetState, ScrollDirection};

fn record(pid: i32, name: &str, cpu: u64) -> ProcessRecord {
    ProcessRecord {
        pid,
        parent_pid: None,
        name: name.to_string(),
        command: name.to_string(),
        cpu_usage: cpu,
        mem_usage: 0,
        mem_bytes: 0,
        read_bytes_per_sec: 0,
        write_bytes_per_sec: 0,
        total_read_bytes: 0,
        total_write_bytes: 0,
        process_state: "R".to_string(),
    }
}

fn snapshot(time: u64, processes: Vec<ProcessRecord>) -> Data {
    Data {
        collection_time: time,
        cpu: vec![time],
        memory: time,
        swap: 0,
        network: NetworkHarvest { total_rx: time * 10, total_tx: time * 20 },
        list_of_processes: processes,
        disks: Vec::new(),
        temperature_sensors: Vec::new(),
        battery: Vec::new(),
    }
}

fn layout(id: u64, x: u16, left: Option<u64>, right: Option<u64>) -> WidgetLayout {
    WidgetLayout {
        widget_id: id,
        left_neighbour: left,
        right_neighbour: right,
        up_neighbour: None,
        down_neighbour: None,
        top_left_x: x,
        top_left_y: 0,
        bottom_right_x: x + 20,
        bottom_right_y: 20,
    }
}

fn fields(disable_click: bool) -> AppConfigFields {
    AppConfigFields {
        update_rate_in_milliseconds: 1000,
        temperature_type: TemperatureType::Celsius,
        use_current_cpu_total: false,
        show_average_cpu: false,
        disable_click,
    }
}

fn app() -> App {
    let widgets = vec![ProcWidgetState::new(1, false, false), ProcWidgetState::new(2, false, true)];
    let layouts = vec![layout(1, 0, None, Some(2)), layout(2, 20, Some(1), Some(3)), layout(3, 40, Some(2), None)];
    App::new(fields(false), widgets, layouts, 1)
}

fn names(rows: &Vec<ProcessRow>) -> Vec<String> {
    rows.iter().map(|r| r.name.clone()).collect()
}

fn plain(code: KeyCode) -> KeyEvent {
    KeyEvent { code, modifiers: KeyModifiers { shift: false, control: false, alt: false } }
}

fn control(code: KeyCode) -> KeyEvent {
    KeyEvent { code, modifiers: KeyModifiers { shift: false, control: true, alt: false } }
}

fn processes() -> Vec<ProcessRecord> {
    vec![record(1, "a", 10), record(2, "a", 5), record(3, "b", 12), record(4, "c", 1)]
}

#[test]
fn a_new_app_holds_nothing() {
    let a = app();
    assert!(!a.is_frozen);
    assert_eq!(a.current_widget_id, 1);
    assert_eq!(a.proc_state.widget_states.len(), 2);
    assert_eq!(a.proc_state.force_update, None);
    assert!(!a.proc_state.force_update_all);
    assert!(a.canvas_data.single_process_data.is_empty());
    assert!(a.data_collection.timed_data_vec.is_empty());
    assert_eq!(a.find_widget(2), Some(1));
    assert_eq!(a.find_widget(3), None);
    assert!(!a.is_in_search_widget());
}

#[test]
fn an_update_recomputes_every_widget() {
    let mut a = app();
    a.handle_update(snapshot(1000, processes()));
    assert_eq!(a.canvas_data.single_process_data.len(), 4);
    assert_eq!(names(&a.proc_state.widget_states[0].finalized_process_data), vec!["b", "a", "a", "c"]);
    let grouped = &a.proc_state.widget_states[1].finalized_process_data;
    assert_eq!(names(grouped), vec!["a", "b", "c"]);
    assert_eq!(grouped[0].cpu_usage, 15);
    assert_eq!(grouped[0].group_pids, vec![1, 2]);
    assert_eq!(a.canvas_data.mem_data, vec![Point { age: 0, value: 1000 }]);
    assert_eq!(a.canvas_data.cpu_data, vec![vec![Point { age: 0, value: 1000 }]]);
    assert_eq!(a.canvas_data.network_data_rx, vec![Point { age: 0, value: 0 }]);
    a.handle_update(snapshot(2000, processes()));
    assert_eq!(
        a.canvas_data.network_data_rx,
        vec![Point { age: 1000, value: 0 }, Point { age: 0, value: 10_000 }]
    );
    assert_eq!(
        a.canvas_data.network_data_tx,
        vec![Point { age: 1000, value: 0 }, Point { age: 0, value: 20_000 }]
    );
}

#[test]
fn updates_change_nothing_while_frozen() {
    let mut a = app();
    a.handle_update(snapshot(1000, processes()));
    a.toggle_freeze();
    assert!(a.is_frozen);
    assert_eq!(a.data_collection.frozen_instant, Some(1000));
    let frozen = a.clone();
    a.handle_update(snapshot(2000, vec![record(9, "z", 1)]));
    assert_eq!(a, frozen);
    a.handle_update(snapshot(3000, Vec::new()));
    assert_eq!(a, frozen);
    update_all_process_lists(&mut a);
    assert_eq!(a, frozen);
    a.toggle_freeze();
    assert!(!a.is_frozen);
    a.handle_update(snapshot(4000, vec![record(9, "z", 1)]));
    assert_eq!(names(&a.proc_state.widget_states[0].finalized_process_data), vec!["z"]);
}

#[test]
fn a_single_update_touches_one_widget() {
    let mut a = app();
    a.data_collection.process_harvest = processes();
    update_final_process_list(&mut a, 2);
    assert!(a.proc_state.widget_states[0].finalized_process_data.is_empty());
    assert_eq!(names(&a.proc_state.widget_states[1].finalized_process_data), vec!["a", "b", "c"]);
    assert_eq!(a.canvas_data.single_process_data.len(), 4);
    let before = a.clone();
    update_final_process_list(&mut a, 77);
    assert_eq!(a, before);
}

#[test]
fn a_single_update_while_frozen_uses_the_rows_on_display() {
    let mut a = app();
    a.handle_update(snapshot(1000, processes()));
    a.toggle_freeze();
    a.data_collection.process_harvest = vec![record(9, "z", 1)];
    a.proc_state.widget_states[0].process_sorting_type = ProcessSorting::ProcessName;
    a.proc_state.widget_states[0].is_process_sort_descending = true;
    update_final_process_list(&mut a, 1);
    assert_eq!(names(&a.proc_state.widget_states[0].finalized_process_data), vec!["c", "b", "a", "a"]);
    assert_eq!(a.canvas_data.single_process_data.len(), 4);
}

#[test]
fn a_recompute_clamps_the_scroll_position() {
    let mut a = app();
    a.handle_update(snapshot(1000, processes()));
    a.proc_state.widget_states[0].scroll_state.current_scroll_position = 3;
    a.proc_state.widget_states[0].scroll_state.scroll_direction = ScrollDirection::Up;
    a.handle_update(snapshot(2000, vec![record(1, "a", 1), record(2, "b", 1)]));
    let scroll = a.proc_state.widget_states[0].scroll_state;
    assert_eq!(scroll.current_scroll_position, 1);
    assert_eq!(scroll.scroll_direction, ScrollDirection::Down);
    a.handle_update(snapshot(3000, Vec::new()));
    assert_eq!(a.proc_state.widget_states[0].scroll_state.current_scroll_position, 0);
}

#[test]
fn forced_update_of_all_goes_before_a_single_one() {
    let mut a = app();
    a.data_collection.process_harvest = processes();
    a.proc_state.force_update_all = true;
    a.proc_state.force_update = Some(2);
    handle_force_redraws(&mut a);
    assert!(!a.proc_state.force_update_all);
    assert_eq!(a.proc_state.force_update, Some(2));
    assert_eq!(a.proc_state.widget_states[0].finalized_process_data.len(), 4);
    assert_eq!(a.proc_state.widget_states[1].finalized_process_data.len(), 3);
    a.data_collection.process_harvest = vec![record(9, "z", 1)];
    handle_force_redraws(&mut a);
    assert_eq!(a.proc_state.force_update, None);
    assert_eq!(a.proc_state.widget_states[0].finalized_process_data.len(), 4);
    assert_eq!(a.proc_state.widget_states[1].finalized_process_data.len(), 1);
    let before = a.clone();
    handle_force_redraws(&mut a);
    assert_eq!(a, before);
}

#[test]
fn forced_redraws_of_graphs_read_the_history() {
    let mut a = app();
    a.handle_update(snapshot(1000, Vec::new()));
    a.canvas_data.mem_data = Vec::new();
    a.canvas_data.cpu_data = Vec::new();
    a.canvas_data.network_data_rx = Vec::new();
    a.mem_state.force_update = Some(5);
    handle_force_redraws(&mut a);
    assert_eq!(a.mem_state.force_update, None);
    assert_eq!(a.canvas_data.mem_data, vec![Point { age: 0, value: 1000 }]);
    assert_eq!(a.canvas_data.swap_data, vec![Point { age: 0, value: 0 }]);
    assert!(a.canvas_data.cpu_data.is_empty());
    assert!(a.canvas_data.network_data_rx.is_empty());
    a.cpu_state.force_update = Some(6);
    a.net_state.force_update = Some(7);
    handle_force_redraws(&mut a);
    assert_eq!(a.cpu_state.force_update, None);
    assert_eq!(a.net_state.force_update, None);
    assert_eq!(a.canvas_data.cpu_data, vec![vec![Point { age: 0, value: 1000 }]]);
    assert_eq!(a.canvas_data.network_data_rx, vec![Point { age: 0, value: 0 }]);
}

#[test]
fn clean_prunes_the_history_only() {
    let mut a = app();
    a.handle_update(snapshot(1000, processes()));
    a.handle_update(snapshot(50_000, processes()));
    let before = a.clone();
    a.handle_clean(1000 + STALE_MAX_MILLISECONDS);
    assert_eq!(a, before);
    a.handle_clean(1001 + STALE_MAX_MILLISECONDS);
    assert_eq!(a.data_collection.timed_data_vec.len(), 1);
    assert_eq!(a.data_collection.timed_data_vec[0].time, 50_000);
    assert_eq!(a.proc_state, before.proc_state);
    assert_eq!(a.canvas_data, before.canvas_data);
    assert_eq!(a.data_collection.process_harvest, before.data_collection.process_harvest);
}

#[test]
fn reset_clears_what_was_retained() {
    let mut a = app();
    a.handle_update(snapshot(1000, processes()));
    a.handle_update(snapshot(2000, processes()));
    a.toggle_freeze();
    a.proc_state.force_update = Some(1);
    a.reset();
    assert!(!a.is_frozen);
    assert!(a.data_collection.timed_data_vec.is_empty());
    assert!(a.data_collection.network_baseline.is_none());
    assert!(a.canvas_data.single_process_data.is_empty());
    assert!(a.canvas_data.mem_data.is_empty());
    assert!(a.proc_state.widget_states[0].finalized_process_data.is_empty());
    assert!(a.proc_state.widget_states[1].finalized_process_data.is_empty());
    assert_eq!(a.proc_state.force_update, None);
    a.handle_update(snapshot(90_000, processes()));
    assert_eq!(a.data_collection.timed_data_vec.len(), 1);
    assert_eq!(a.data_collection.timed_data_vec[0].rx_rate, 0);
    assert_eq!(a.data_collection.timed_data_vec[0].tx_rate, 0);
}

#[test]
fn keys_reach_the_focused_widget() {
    let mut a = app();
    a.handle_update(snapshot(1000, processes()));
    assert_eq!(handle_key_event_or_break(plain(KeyCode::Down), &mut a), LoopAction::Continue);
    assert_eq!(a.proc_state.widget_states[0].scroll_state.current_scroll_position, 1);
    assert_eq!(a.proc_state.widget_states[1].scroll_state.current_scroll_position, 0);
    assert_eq!(a.proc_state.force_update, None);
    handle_key_event_or_break(plain(KeyCode::End), &mut a);
    assert_eq!(a.proc_state.widget_states[0].scroll_state.current_scroll_position, 3);
    handle_key_event_or_break(plain(KeyCode::Home), &mut a);
    assert_eq!(a.proc_state.widget_states[0].scroll_state.current_scroll_position, 0);
    handle_key_event_or_break(plain(KeyCode::Char('n')), &mut a);
    assert_eq!(a.proc_state.widget_states[0].process_sorting_type, ProcessSorting::ProcessName);
    assert_eq!(a.proc_state.force_update, Some(1));
    handle_force_redraws(&mut a);
    assert_eq!(names(&a.proc_state.widget_states[0].finalized_process_data), vec!["a", "a", "b", "c"]);
    handle_key_event_or_break(plain(KeyCode::Tab), &mut a);
    assert!(a.proc_state.widget_states[0].is_grouped);
    handle_key_event_or_break(plain(KeyCode::F(5)), &mut a);
    assert!(a.proc_state.widget_states[0].is_tree_mode);
}

#[test]
fn typing_in_a_search_box_filters_the_list() {
    let mut a = app();
    a.handle_update(snapshot(1000, processes()));
    handle_key_event_or_break(plain(KeyCode::Char('/')), &mut a);
    assert!(a.is_in_search_widget());
    assert_eq!(handle_key_event_or_break(plain(KeyCode::Char('q')), &mut a), LoopAction::Continue);
    handle_key_event_or_break(plain(KeyCode::Backspace), &mut a);
    handle_key_event_or_break(plain(KeyCode::Char('b')), &mut a);
    assert_eq!(text_of(&a.proc_state.widget_states[0].process_search_state.current_search_query), "b");
    assert_eq!(a.proc_state.force_update, Some(1));
    handle_force_redraws(&mut a);
    assert_eq!(names(&a.proc_state.widget_states[0].finalized_process_data), vec!["b"]);
    assert_eq!(a.proc_state.widget_states[1].finalized_process_data.len(), 3);
    handle_key_event_or_break(plain(KeyCode::Down), &mut a);
    assert_eq!(a.proc_state.widget_states[0].scroll_state.current_scroll_position, 0);
    handle_key_event_or_break(control(KeyCode::Char('u')), &mut a);
    assert!(a.proc_state.widget_states[0].process_search_state.current_search_query.is_empty());
    handle_key_event_or_break(plain(KeyCode::Esc), &mut a);
    assert!(!a.is_in_search_widget());
    assert_eq!(handle_key_event_or_break(plain(KeyCode::Char('q')), &mut a), LoopAction::Quit);
}

#[test]
fn quit_and_reset_are_left_to_the_loop() {
    let mut a = app();
    a.handle_update(snapshot(1000, processes()));
    let before = a.clone();
    assert_eq!(handle_key_event_or_break(control(KeyCode::Char('c')), &mut a), LoopAction::Quit);
    assert_eq!(handle_key_event_or_break(control(KeyCode::Char('r')), &mut a), LoopAction::SendReset);
    assert_eq!(handle_key_event_or_break(plain(KeyCode::Enter), &mut a), LoopAction::Continue);
    assert_eq!(handle_key_event_or_break(plain(KeyCode::PageDown), &mut a), LoopAction::Continue);
    assert_eq!(a, before);
    a.apply_command(Command::Quit);
    a.apply_command(Command::Reset);
    a.apply_command(Command::NoOp);
    assert_eq!(a, before);
}

#[test]
fn the_freeze_key_freezes_outside_a_search_box() {
    let mut a = app();
    a.handle_update(snapshot(1000, processes()));
    handle_key_event_or_break(plain(KeyCode::Char('f')), &mut a);
    assert!(a.is_frozen);
    assert_eq!(a.data_collection.frozen_instant, Some(1000));
    handle_key_event_or_break(plain(KeyCode::Char('f')), &mut a);
    assert!(!a.is_frozen);
    handle_key_event_or_break(plain(KeyCode::Char('/')), &mut a);
    handle_key_event_or_break(plain(KeyCode::Char('f')), &mut a);
    assert!(!a.is_frozen);
    assert_eq!(text_of(&a.proc_state.widget_states[0].process_search_state.current_search_query), "f");
}

#[test]
fn control_arrows_move_the_focus() {
    let mut a = app();
    handle_key_event_or_break(control(KeyCode::Right), &mut a);
    assert_eq!(a.current_widget_id, 2);
    handle_key_event_or_break(control(KeyCode::Right), &mut a);
    assert_eq!(a.current_widget_id, 3);
    handle_key_event_or_break(control(KeyCode::Right), &mut a);
    assert_eq!(a.current_widget_id, 3);
    let before = a.clone();
    handle_key_event_or_break(plain(KeyCode::Down), &mut a);
    assert_eq!(a, before);
    a.move_widget_selection(WidgetDirection::Left);
    assert_eq!(a.current_widget_id, 2);
    a.move_widget_selection(WidgetDirection::Up);
    assert_eq!(a.current_widget_id, 2);
}

#[test]
fn the_wheel_scrolls_the_focused_list() {
    let mut a = app();
    a.handle_update(snapshot(1000, processes()));
    handle_mouse_event(MouseEvent::ScrollDown(0, 0), &mut a);
    handle_mouse_event(MouseEvent::ScrollDown(0, 0), &mut a);
    assert_eq!(a.proc_state.widget_states[0].scroll_state.current_scroll_position, 2);
    handle_mouse_event(MouseEvent::ScrollUp(0, 0), &mut a);
    assert_eq!(a.proc_state.widget_states[0].scroll_state.current_scroll_position, 1);
    assert_eq!(a.proc_state.widget_states[0].scroll_state.scroll_direction, ScrollDirection::Up);
}

#[test]
fn a_left_click_moves_focus_and_selection() {
    let mut a = app();
    a.handle_update(snapshot(1000, processes()));
    handle_mouse_event(MouseEvent::Down(MouseButton::Left, 25, 4), &mut a);
    assert_eq!(a.current_widget_id, 2);
    assert_eq!(a.proc_state.widget_states[1].scroll_state.current_scroll_position, 2);
    handle_mouse_event(MouseEvent::Down(MouseButton::Left, 25, 1), &mut a);
    assert_eq!(a.proc_state.widget_states[1].scroll_state.current_scroll_position, 2);
    handle_mouse_event(MouseEvent::Down(MouseButton::Left, 25, 9), &mut a);
    assert_eq!(a.proc_state.widget_states[1].scroll_state.current_scroll_position, 2);
    handle_mouse_event(MouseEvent::Down(MouseButton::Left, 45, 4), &mut a);
    assert_eq!(a.current_widget_id, 3);
    let before = a.clone();
    handle_mouse_event(MouseEvent::Down(MouseButton::Left, 70, 4), &mut a);
    handle_mouse_event(MouseEvent::Down(MouseButton::Right, 5, 4), &mut a);
    handle_mouse_event(MouseEvent::Down(MouseButton::Middle, 5, 4), &mut a);
    handle_mouse_event(MouseEvent::Up(MouseButton::Left, 5, 4), &mut a);
    handle_mouse_event(MouseEvent::Drag(MouseButton::Left, 5, 4), &mut a);
    assert_eq!(a, before);
    a.left_mouse_click_movement(5, 2);
    assert_eq!(a.current_widget_id, 1);
    assert_eq!(a.proc_state.widget_states[0].scroll_state.current_scroll_position, 0);
}

#[test]
fn no_mouse_event_counts_with_clicks_disabled() {
    let widgets = vec![ProcWidgetState::new(1, false, false)];
    let mut a = App::new(fields(true), widgets, vec![layout(1, 0, None, None), layout(2, 20, None, None)], 1);
    a.handle_update(snapshot(1000, processes()));
    let before = a.clone();
    handle_mouse_event(MouseEvent::ScrollDown(0, 0), &mut a);
    handle_mouse_event(MouseEvent::ScrollUp(0, 0), &mut a);
    handle_mouse_event(MouseEvent::Down(MouseButton::Left, 25, 4), &mut a);
    assert_eq!(a, before);
}

#[test]
fn the_event_loop_step_dispatches_by_event() {
    let mut a = app();
    let update: BottomEvent<KeyEvent, MouseEvent> =
        BottomEvent::Update(Box::new(snapshot(1000, processes())));
    assert_eq!(handle_event(&mut a, update, 1000), LoopAction::Continue);
    assert_eq!(a.proc_state.widget_states[0].finalized_process_data.len(), 4);
    assert_eq!(
        handle_event(&mut a, BottomEvent::MouseInput(MouseEvent::ScrollDown(0, 0)), 1100),
        LoopAction::Continue
    );
    assert_eq!(a.proc_state.widget_states[0].scroll_state.current_scroll_position, 1);
    assert_eq!(
        handle_event(&mut a, BottomEvent::Clean, 1001 + STALE_MAX_MILLISECONDS),
        LoopAction::Continue
    );
    assert!(a.data_collection.timed_data_vec.is_empty());
    assert_eq!(
        handle_event(&mut a, BottomEvent::KeyInput(control(KeyCode::Char('r'))), 1200),
        LoopAction::SendReset
    );
    assert_eq!(
        handle_event(&mut a, BottomEvent::KeyInput(plain(KeyCode::Char('q'))), 1300),
        LoopAction::Quit
    );
    assert_eq!(ResetEvent::Reset, ResetEvent::Reset);
}

#[test]
fn widgets_are_keyed_by_their_ids() {
    let mut second = ProcWidgetState::new(1, true, true);
    second.is_tree_mode = true;
    let widgets = vec![
        ProcWidgetState::new(1, false, false),
        ProcWidgetState::new(2, false, false),
        second.clone(),
        ProcWidgetState::new(3, false, true),
    ];
    let a = App::new(fields(false), widgets, Vec::new(), 1);
    let ids: Vec<u64> = a.proc_state.widget_states.iter().map(|w| w.widget_id).collect();
    assert_eq!(ids, vec![1, 2, 3]);
    assert_eq!(a.proc_state.widget_states[0], second);
    assert!(a.proc_state.widget_states[2].is_grouped);
}

#[test]
fn a_widget_takes_the_place_of_the_one_with_its_id() {
    let mut widgets = vec![ProcWidgetState::new(5, false, false), ProcWidgetState::new(7, false, false)];
    assert_eq!(find_widget_in(&widgets, 7), Some(1));
    assert_eq!(find_widget_in(&widgets, 6), None);
    insert_widget(&mut widgets, ProcWidgetState::new(7, true, true));
    assert_eq!(widgets.len(), 2);
    assert!(widgets[1].is_grouped);
    assert!(!widgets[0].is_grouped);
    insert_widget(&mut widgets, ProcWidgetState::new(6, false, true));
    let ids: Vec<u64> = widgets.iter().map(|w| w.widget_id).collect();
    assert_eq!(ids, vec![5, 7, 6]);
}

#[test]
fn no_event_changes_the_ids_of_the_widgets() {
    let mut a = app();
    let ids = |a: &App| a.proc_state.widget_states.iter().map(|w| w.widget_id).collect::<Vec<u64>>();
    a.handle_update(snapshot(1000, processes()));
    handle_key_event_or_break(plain(KeyCode::Char('n')), &mut a);
    handle_force_redraws(&mut a);
    handle_mouse_event(MouseEvent::Down(MouseButton::Left, 25, 4), &mut a);
    a.handle_clean(5_000_000);
    a.reset();
    assert_eq!(ids(&a), vec![1, 2]);
}
