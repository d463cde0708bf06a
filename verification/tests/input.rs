use bottom::commands::{action_for, WidgetAction};
use bottom::input::{
    command_for_key, Command, InputThrottle, KeyCode, KeyEvent, KeyModifiers, WidgetDirection,
    INPUT_THROTTLE_IN_MILLISECONDS,
};
use bottom::layout::{find_layout, find_layout_at, move_focus, row_of_click, WidgetLayout};
use bottom::scheduler::{harvest_step, HarvestAction, HarvestEvent};
use bottom::search::SearchEdit;
use bottom::sorting::ProcessSorting;
use bottom::widget::{ScrollState, WidgetCommand};

const NONE: KeyModifiers = KeyModifiers { shift: false, control: false, alt: false };
const ALT: KeyModifiers = KeyModifiers { shift: false, control: false, alt: true };
const CONTROL: KeyModifiers = KeyModifiers { shift: false, control: true, alt: false };
const SHIFT: KeyModifiers = KeyModifiers { shift: true, control: false, alt: false };

fn key(code: KeyCode, modifiers: KeyModifiers) -> KeyEvent {
    KeyEvent { code, modifiers }
}

fn layout(id: u64, x: u16, y: u16, right: Option<u64>, left: Option<u64>) -> WidgetLayout {
    WidgetLayout {
        widget_id: id,
        left_neighbour: left,
        right_neighbour: right,
        up_neighbour: None,
        down_neighbour: None,
        top_left_x: x,
        top_left_y: y,
        bottom_right_x: x + 10,
        bottom_right_y: y + 10,
    }
}

#[test]
fn q_quits_outside_a_search_box_only() {
    assert_eq!(command_for_key(key(KeyCode::Char('q'), NONE), false), Command::Quit);
    assert_eq!(command_for_key(key(KeyCode::Char('q'), NONE), true), Command::CharKey('q'));
    assert_eq!(command_for_key(key(KeyCode::Char('q'), SHIFT), false), Command::CharKey('q'));
    assert_eq!(command_for_key(key(KeyCode::Char('Q'), NONE), false), Command::CharKey('Q'));
}

#[test]
fn plain_keys_have_direct_bindings() {
    assert_eq!(command_for_key(key(KeyCode::End, NONE), false), Command::SkipToLast);
    assert_eq!(command_for_key(key(KeyCode::Home, NONE), false), Command::SkipToFirst);
    assert_eq!(command_for_key(key(KeyCode::Up, NONE), false), Command::UpKey);
    assert_eq!(command_for_key(key(KeyCode::Down, NONE), false), Command::DownKey);
    assert_eq!(command_for_key(key(KeyCode::Left, NONE), false), Command::LeftKey);
    assert_eq!(command_for_key(key(KeyCode::Right, NONE), false), Command::RightKey);
    assert_eq!(command_for_key(key(KeyCode::Esc, NONE), false), Command::Esc);
    assert_eq!(command_for_key(key(KeyCode::Enter, NONE), false), Command::Enter);
    assert_eq!(command_for_key(key(KeyCode::Tab, NONE), false), Command::Tab);
    assert_eq!(command_for_key(key(KeyCode::Backspace, NONE), false), Command::Backspace);
    assert_eq!(command_for_key(key(KeyCode::Delete, NONE), false), Command::Delete);
    assert_eq!(command_for_key(key(KeyCode::F(1), NONE), false), Command::ToggleIgnoreCase);
    assert_eq!(command_for_key(key(KeyCode::F(2), NONE), false), Command::ToggleSearchWholeWord);
    assert_eq!(command_for_key(key(KeyCode::F(3), NONE), false), Command::ToggleSearchRegex);
    assert_eq!(command_for_key(key(KeyCode::F(5), NONE), false), Command::ToggleTreeMode);
    assert_eq!(command_for_key(key(KeyCode::F(6), NONE), false), Command::ToggleSort);
    assert_eq!(command_for_key(key(KeyCode::F(4), NONE), false), Command::NoOp);
    assert_eq!(command_for_key(key(KeyCode::PageUp, NONE), false), Command::NoOp);
    assert_eq!(command_for_key(key(KeyCode::Insert, NONE), false), Command::NoOp);
}

#[test]
fn alt_has_its_own_table() {
    assert_eq!(command_for_key(key(KeyCode::Char('c'), ALT), false), Command::ToggleIgnoreCase);
    assert_eq!(command_for_key(key(KeyCode::Char('C'), ALT), false), Command::ToggleIgnoreCase);
    assert_eq!(command_for_key(key(KeyCode::Char('w'), ALT), false), Command::ToggleSearchWholeWord);
    assert_eq!(command_for_key(key(KeyCode::Char('W'), ALT), false), Command::ToggleSearchWholeWord);
    assert_eq!(command_for_key(key(KeyCode::Char('r'), ALT), false), Command::ToggleSearchRegex);
    assert_eq!(command_for_key(key(KeyCode::Char('R'), ALT), false), Command::ToggleSearchRegex);
    assert_eq!(command_for_key(key(KeyCode::Char('h'), ALT), false), Command::LeftKey);
    assert_eq!(command_for_key(key(KeyCode::Char('l'), ALT), false), Command::RightKey);
    assert_eq!(command_for_key(key(KeyCode::Char('H'), ALT), false), Command::NoOp);
    assert_eq!(command_for_key(key(KeyCode::Left, ALT), false), Command::NoOp);
}

#[test]
fn control_has_its_own_table() {
    assert_eq!(command_for_key(key(KeyCode::Char('c'), CONTROL), true), Command::Quit);
    assert_eq!(command_for_key(key(KeyCode::Char('f'), CONTROL), false), Command::OpenSearch);
    assert_eq!(command_for_key(key(KeyCode::Char('r'), CONTROL), false), Command::Reset);
    assert_eq!(
        command_for_key(key(KeyCode::Char('a'), CONTROL), false),
        Command::SkipCursorBeginning
    );
    assert_eq!(command_for_key(key(KeyCode::Char('e'), CONTROL), false), Command::SkipCursorEnd);
    assert_eq!(command_for_key(key(KeyCode::Char('u'), CONTROL), false), Command::ClearSearch);
    assert_eq!(command_for_key(key(KeyCode::Char('x'), CONTROL), false), Command::NoOp);
    assert_eq!(
        command_for_key(key(KeyCode::Left, CONTROL), false),
        Command::MoveWidgetSelection(WidgetDirection::Left)
    );
    assert_eq!(
        command_for_key(key(KeyCode::Right, CONTROL), false),
        Command::MoveWidgetSelection(WidgetDirection::Right)
    );
    assert_eq!(
        command_for_key(key(KeyCode::Up, CONTROL), false),
        Command::MoveWidgetSelection(WidgetDirection::Up)
    );
    assert_eq!(
        command_for_key(key(KeyCode::Down, CONTROL), false),
        Command::MoveWidgetSelection(WidgetDirection::Down)
    );
    assert_eq!(command_for_key(key(KeyCode::Enter, CONTROL), false), Command::NoOp);
}

#[test]
fn shift_has_its_own_table() {
    assert_eq!(command_for_key(key(KeyCode::Char('A'), SHIFT), true), Command::CharKey('A'));
    assert_eq!(
        command_for_key(key(KeyCode::Up, SHIFT), false),
        Command::MoveWidgetSelection(WidgetDirection::Up)
    );
    assert_eq!(command_for_key(key(KeyCode::Tab, SHIFT), false), Command::NoOp);
}

#[test]
fn other_modifier_sets_have_no_binding() {
    let both = KeyModifiers { shift: true, control: true, alt: false };
    assert_eq!(command_for_key(key(KeyCode::Char('c'), both), false), Command::NoOp);
    let all = KeyModifiers { shift: true, control: true, alt: true };
    assert_eq!(command_for_key(key(KeyCode::Left, all), false), Command::NoOp);
    let alt_control = KeyModifiers { shift: false, control: true, alt: true };
    assert_eq!(command_for_key(key(KeyCode::Char('r'), alt_control), false), Command::NoOp);
}

#[test]
fn a_search_box_takes_characters_and_editing_keys() {
    assert_eq!(
        action_for(Command::CharKey('c'), true),
        Some(WidgetAction::Edit(SearchEdit::Insert('c')))
    );
    assert_eq!(
        action_for(Command::CharKey('c'), false),
        Some(WidgetAction::Plain(WidgetCommand::SortBy(ProcessSorting::CpuPercent)))
    );
    assert_eq!(
        action_for(Command::CharKey('m'), false),
        Some(WidgetAction::Plain(WidgetCommand::SortBy(ProcessSorting::MemPercent)))
    );
    assert_eq!(
        action_for(Command::CharKey('p'), false),
        Some(WidgetAction::Plain(WidgetCommand::SortBy(ProcessSorting::Pid)))
    );
    assert_eq!(
        action_for(Command::CharKey('n'), false),
        Some(WidgetAction::Plain(WidgetCommand::SortBy(ProcessSorting::ProcessName)))
    );
    assert_eq!(
        action_for(Command::CharKey('/'), false),
        Some(WidgetAction::Plain(WidgetCommand::OpenSearch))
    );
    assert_eq!(
        action_for(Command::CharKey('k'), false),
        Some(WidgetAction::Plain(WidgetCommand::ScrollUp))
    );
    assert_eq!(
        action_for(Command::CharKey('j'), false),
        Some(WidgetAction::Plain(WidgetCommand::ScrollDown))
    );
    assert_eq!(
        action_for(Command::CharKey('G'), false),
        Some(WidgetAction::Plain(WidgetCommand::SkipToLast))
    );
    assert_eq!(action_for(Command::CharKey('z'), false), None);
    assert_eq!(action_for(Command::UpKey, true), None);
    assert_eq!(action_for(Command::UpKey, false), Some(WidgetAction::Plain(WidgetCommand::ScrollUp)));
    assert_eq!(action_for(Command::LeftKey, false), None);
    assert_eq!(action_for(Command::LeftKey, true), Some(WidgetAction::Edit(SearchEdit::CursorLeft)));
    assert_eq!(action_for(Command::Backspace, false), None);
    assert_eq!(action_for(Command::Backspace, true), Some(WidgetAction::Edit(SearchEdit::Backspace)));
    assert_eq!(action_for(Command::Esc, false), None);
    assert_eq!(
        action_for(Command::Esc, true),
        Some(WidgetAction::Plain(WidgetCommand::CloseSearch))
    );
    assert_eq!(
        action_for(Command::Tab, true),
        Some(WidgetAction::Plain(WidgetCommand::ToggleCommand))
    );
    assert_eq!(
        action_for(Command::Tab, false),
        Some(WidgetAction::Plain(WidgetCommand::ToggleGrouping))
    );
    assert_eq!(action_for(Command::ClearSearch, true), Some(WidgetAction::Edit(SearchEdit::Clear)));
    assert_eq!(action_for(Command::ClearSearch, false), None);
    assert_eq!(action_for(Command::Enter, true), None);
    assert_eq!(action_for(Command::Quit, false), None);
}

#[test]
fn throttle_forwards_one_event_per_interval() {
    assert_eq!(INPUT_THROTTLE_IN_MILLISECONDS, 20);
    let mut throttle = InputThrottle::new(100);
    assert!(!throttle.should_forward(100));
    assert!(!throttle.should_forward(119));
    assert_eq!(throttle.last_forwarded, 100);
    assert!(throttle.should_forward(120));
    assert_eq!(throttle.last_forwarded, 120);
    assert!(!throttle.should_forward(125));
    assert!(!throttle.should_forward(139));
    assert!(throttle.should_forward(500));
    assert!(!throttle.should_forward(10));
    assert_eq!(throttle.last_forwarded, 500);
}

#[test]
fn focus_follows_the_navigation_graph() {
    let layouts = vec![layout(1, 0, 0, Some(2), None), layout(2, 10, 0, None, Some(1))];
    assert_eq!(move_focus(&layouts, 1, WidgetDirection::Right), 2);
    assert_eq!(move_focus(&layouts, 2, WidgetDirection::Left), 1);
    assert_eq!(move_focus(&layouts, 1, WidgetDirection::Left), 1);
    assert_eq!(move_focus(&layouts, 1, WidgetDirection::Up), 1);
    assert_eq!(move_focus(&layouts, 1, WidgetDirection::Down), 1);
    assert_eq!(move_focus(&layouts, 7, WidgetDirection::Right), 7);
    assert_eq!(find_layout(&layouts, 2), Some(layouts[1]));
    assert_eq!(find_layout(&layouts, 3), None);
}

#[test]
fn a_point_is_in_the_first_widget_that_holds_it() {
    let layouts = vec![layout(1, 0, 0, None, None), layout(2, 5, 5, None, None)];
    assert_eq!(find_layout_at(&layouts, 0, 0).map(|l| l.widget_id), Some(1));
    assert_eq!(find_layout_at(&layouts, 9, 9).map(|l| l.widget_id), Some(1));
    assert_eq!(find_layout_at(&layouts, 10, 9).map(|l| l.widget_id), Some(2));
    assert_eq!(find_layout_at(&layouts, 14, 14).map(|l| l.widget_id), Some(2));
    assert_eq!(find_layout_at(&layouts, 15, 14), None);
    assert_eq!(find_layout_at(&layouts, 0, 12), None);
}

#[test]
fn a_click_points_at_a_row_below_the_header() {
    let l = layout(1, 0, 10, None, None);
    let mut scroll = ScrollState::new();
    scroll.previous_scroll_position = 4;
    assert_eq!(row_of_click(l, scroll, 9), None);
    assert_eq!(row_of_click(l, scroll, 10), None);
    assert_eq!(row_of_click(l, scroll, 11), None);
    assert_eq!(row_of_click(l, scroll, 12), Some(4));
    assert_eq!(row_of_click(l, scroll, 15), Some(7));
    scroll.previous_scroll_position = usize::MAX;
    assert_eq!(row_of_click(l, scroll, 12), Some(usize::MAX));
    assert_eq!(row_of_click(l, scroll, 13), None);
}

#[test]
fn harvest_loop_polls_collects_sends_and_sleeps() {
    assert_eq!(harvest_step(HarvestEvent::Started, 1000), HarvestAction::PollReset);
    assert_eq!(
        harvest_step(HarvestEvent::Polled { reset_requested: false }, 1000),
        HarvestAction::Collect
    );
    assert_eq!(
        harvest_step(HarvestEvent::Polled { reset_requested: true }, 1000),
        HarvestAction::ClearBaseline
    );
    assert_eq!(harvest_step(HarvestEvent::BaselineCleared, 1000), HarvestAction::Collect);
    assert_eq!(harvest_step(HarvestEvent::Collected, 1000), HarvestAction::Send);
    assert_eq!(
        harvest_step(HarvestEvent::Sent { delivered: true }, 1000),
        HarvestAction::Sleep(1000)
    );
    assert_eq!(harvest_step(HarvestEvent::Sent { delivered: false }, 1000), HarvestAction::Exit);
    assert_eq!(harvest_step(HarvestEvent::Slept, 250), HarvestAction::PollReset);
}
