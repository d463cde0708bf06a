//! Commands on the application state: what a key or a mouse event does to
//! the widget that has the focus.

use vstd::prelude::*;
use crate::app::{App, ProcState, first_widget, lemma_one_widget_changed};
use crate::history::DataCollection;
use crate::input::{
    Command, KeyEvent, MouseButton, MouseEvent, WidgetDirection, command_for_key, key_binding,
};
use crate::layout::{
    clicked_row, find_layout_at, focus_after_move, layout_at, move_focus, row_of_click,
};
use crate::search::{SearchEdit, edit_changes_text};
use crate::sorting::ProcessSorting;
use crate::widget::{ProcWidgetState, WidgetCommand, command_changes_list};

verus! {

/// What a command does to a process widget.
#[derive(Clone, Copy, Debug, PartialEq, Eq, Structural)]
pub enum WidgetAction {
    /// A change of the settings or of the scroll position.
    Plain(WidgetCommand),
    /// An edit of the search box.
    Edit(SearchEdit),
}

/// What the event loop does after a key.
#[derive(Clone, Copy, Debug, PartialEq, Eq, Structural)]
pub enum LoopAction {
    /// Go on with the next event.
    Continue,
    /// Leave the loop.
    Quit,
    /// Send a reset to the harvest thread; where that succeeds, reset the
    /// application state.
    SendReset,
}

/// The command that a character stands for outside a search box.
pub open spec fn shortcut(c: char) -> Option<WidgetCommand> {
    if c == '/' {
        Some(WidgetCommand::OpenSearch)
    } else if c == 'c' {
        Some(WidgetCommand::SortBy(ProcessSorting::CpuPercent))
    } else if c == 'm' {
        Some(WidgetCommand::SortBy(ProcessSorting::MemPercent))
    } else if c == 'p' {
        Some(WidgetCommand::SortBy(ProcessSorting::Pid))
    } else if c == 'n' {
        Some(WidgetCommand::SortBy(ProcessSorting::ProcessName))
    } else if c == 'k' {
        Some(WidgetCommand::ScrollUp)
    } else if c == 'j' {
        Some(WidgetCommand::ScrollDown)
    } else if c == 'G' {
        Some(WidgetCommand::SkipToLast)
    } else {
        None
    }
}

/// What a command does to the process widget that has the focus, with its
/// search box open (`in_search`) or closed. An open search box takes the
/// characters and the editing keys; outside it characters are shortcuts and
/// the arrows scroll.
pub open spec fn widget_action(command: Command, in_search: bool) -> Option<WidgetAction> {
    match command {
        Command::SkipToFirst => Some(WidgetAction::Plain(WidgetCommand::SkipToFirst)),
        Command::SkipToLast => Some(WidgetAction::Plain(WidgetCommand::SkipToLast)),
        Command::UpKey => if in_search {
            None
        } else {
            Some(WidgetAction::Plain(WidgetCommand::ScrollUp))
        },
        Command::DownKey => if in_search {
            None
        } else {
            Some(WidgetAction::Plain(WidgetCommand::ScrollDown))
        },
        Command::LeftKey => if in_search {
            Some(WidgetAction::Edit(SearchEdit::CursorLeft))
        } else {
            None
        },
        Command::RightKey => if in_search {
            Some(WidgetAction::Edit(SearchEdit::CursorRight))
        } else {
            None
        },
        Command::CharKey(c) => if in_search {
            Some(WidgetAction::Edit(SearchEdit::Insert(c)))
        } else {
            match shortcut(c) {
                Some(plain) => Some(WidgetAction::Plain(plain)),
                None => None,
            }
        },
        Command::Esc => if in_search {
            Some(WidgetAction::Plain(WidgetCommand::CloseSearch))
        } else {
            None
        },
        Command::Tab => if in_search {
            Some(WidgetAction::Plain(WidgetCommand::ToggleCommand))
        } else {
            Some(WidgetAction::Plain(WidgetCommand::ToggleGrouping))
        },
        Command::Backspace => if in_search {
            Some(WidgetAction::Edit(SearchEdit::Backspace))
        } else {
            None
        },
        Command::Delete => if in_search {
            Some(WidgetAction::Edit(SearchEdit::Delete))
        } else {
            None
        },
        Command::ToggleIgnoreCase => Some(WidgetAction::Plain(WidgetCommand::ToggleIgnoreCase)),
        Command::ToggleSearchWholeWord => Some(
            WidgetAction::Plain(WidgetCommand::ToggleSearchWholeWord),
        ),
        Command::ToggleSearchRegex => Some(WidgetAction::Plain(WidgetCommand::ToggleSearchRegex)),
        Command::ToggleTreeMode => Some(WidgetAction::Plain(WidgetCommand::ToggleTreeMode)),
        Command::ToggleSort => Some(WidgetAction::Plain(WidgetCommand::ToggleSort)),
        Command::OpenSearch => Some(WidgetAction::Plain(WidgetCommand::OpenSearch)),
        Command::SkipCursorBeginning => if in_search {
            Some(WidgetAction::Edit(SearchEdit::CursorStart))
        } else {
            None
        },
        Command::SkipCursorEnd => if in_search {
            Some(WidgetAction::Edit(SearchEdit::CursorEnd))
        } else {
            None
        },
        Command::ClearSearch => if in_search {
            Some(WidgetAction::Edit(SearchEdit::Clear))
        } else {
            None
        },
        _ => None,
    }
}

/// Whether an action can change the rows of the widget's list or their
/// order, so that the list has to be recomputed.
pub open spec fn action_changes_list(action: WidgetAction) -> bool {
    match action {
        WidgetAction::Plain(command) => command_changes_list(command),
        WidgetAction::Edit(edit) => edit_changes_text(edit),
    }
}

/// The key that freezes and unfreezes the display, outside a search box.
pub open spec fn is_freeze_key(command: Command, in_search: bool) -> bool {
    command == Command::CharKey('f') && !in_search
}

/// What the event loop does after a command.
pub open spec fn loop_action(command: Command) -> LoopAction {
    match command {
        Command::Quit => LoopAction::Quit,
        Command::Reset => LoopAction::SendReset,
        _ => LoopAction::Continue,
    }
}

impl App {
    /// The index of the process widget that has the focus.
    pub open spec fn focused(&self) -> Option<int> {
        first_widget(self.widgets(), self.current_widget_id)
    }

    /// The focus is on a process widget whose search box is open.
    pub open spec fn in_search(&self) -> bool {
        match self.focused() {
            Some(at) => self.widgets()[at].process_search_state.is_enabled,
            None => false,
        }
    }

    /// `after` is `self` with the display frozen, at the time of the last
    /// snapshot, or unfrozen.
    pub open spec fn is_freeze_toggled(&self, after: App) -> bool {
        after == (App {
            is_frozen: !self.is_frozen,
            data_collection: DataCollection {
                frozen_instant: if self.is_frozen {
                    self.data_collection.frozen_instant
                } else {
                    Some(self.data_collection.current_instant)
                },
                ..self.data_collection
            },
            ..*self
        })
    }

    /// `after` is `self` with an action carried out on the widget at index
    /// `at`: that widget alone changes, and where its list can change with
    /// it, the widget awaits a recomputation.
    pub open spec fn is_widget_action_applied(&self, after: App, at: int, action: WidgetAction)
        -> bool {
        let widget = self.widgets()[at];
        let changed = after.widgets()[at];
        &&& after == (App {
            proc_state: ProcState {
                widget_states: after.proc_state.widget_states,
                force_update: if action_changes_list(action) {
                    Some(widget.widget_id)
                } else {
                    self.proc_state.force_update
                },
                ..self.proc_state
            },
            ..*self
        })
        &&& after.widgets().len() == self.widgets().len()
        &&& forall|k: int|
            0 <= k < self.widgets().len() && k != at ==> #[trigger] after.widgets()[k]
                == self.widgets()[k]
        &&& match action {
            WidgetAction::Plain(command) => changed == widget.after_command(command),
            WidgetAction::Edit(edit) => {
                &&& changed == (ProcWidgetState {
                    process_search_state: changed.process_search_state,
                    ..widget
                })
                &&& widget.process_search_state.is_edited(changed.process_search_state, edit)
            },
        }
    }

    /// `after` is `self` after a command. A move of the focus follows the
    /// navigation graph; the freeze key freezes or unfreezes; every other
    /// command acts on the process widget that has the focus, and changes
    /// nothing where there is none or where the command means nothing
    /// there. Quitting and resetting are for the event loop: they change
    /// nothing here.
    pub open spec fn is_command_applied(&self, after: App, command: Command) -> bool {
        match command {
            Command::MoveWidgetSelection(direction) => after == (App {
                current_widget_id: focus_after_move(
                    self.widget_layout@,
                    self.current_widget_id,
                    direction,
                ),
                ..*self
            }),
            _ => if is_freeze_key(command, self.in_search()) {
                self.is_freeze_toggled(after)
            } else {
                match (self.focused(), widget_action(command, self.in_search())) {
                    (Some(at), Some(action)) => self.is_widget_action_applied(after, at, action),
                    _ => after == *self,
                }
            },
        }
    }

    /// `after` is `self` after a left click at column `x`, row `y`: the
    /// widget under the pointer gets the focus, and where it is a process
    /// widget and the click is on a row of its list, that row is selected.
    /// A click outside every widget changes nothing.
    pub open spec fn is_clicked(&self, after: App, x: u16, y: u16) -> bool {
        match layout_at(self.widget_layout@, x, y) {
            None => after == *self,
            Some(layout) => {
                let focused = App { current_widget_id: layout.widget_id, ..*self };
                match first_widget(self.widgets(), layout.widget_id) {
                    None => after == focused,
                    Some(at) => match clicked_row(
                        layout,
                        self.widgets()[at].scroll_state.previous_scroll_position,
                        y,
                    ) {
                        None => after == focused,
                        Some(row) => focused.is_widget_action_applied(
                            after,
                            at,
                            WidgetAction::Plain(WidgetCommand::SelectRow(row)),
                        ),
                    },
                }
            },
        }
    }

    /// `after` is `self` after a mouse event: the wheel scrolls the list of
    /// the widget that has the focus, a left click moves focus and
    /// selection, and nothing else has an effect. With clicks disabled no
    /// mouse event has one.
    pub open spec fn is_mouse_handled(&self, after: App, event: MouseEvent) -> bool {
        if self.app_config_fields.disable_click {
            after == *self
        } else {
            match event {
                MouseEvent::ScrollUp(x, y) => match self.focused() {
                    Some(at) => self.is_widget_action_applied(
                        after,
                        at,
                        WidgetAction::Plain(WidgetCommand::ScrollUp),
                    ),
                    None => after == *self,
                },
                MouseEvent::ScrollDown(x, y) => match self.focused() {
                    Some(at) => self.is_widget_action_applied(
                        after,
                        at,
                        WidgetAction::Plain(WidgetCommand::ScrollDown),
                    ),
                    None => after == *self,
                },
                MouseEvent::Down(button, x, y) => if button == MouseButton::Left {
                    self.is_clicked(after, x, y)
                } else {
                    after == *self
                },
                _ => after == *self,
            }
        }
    }

    /// Whether the focus is on a process widget whose search box is open.
    pub fn is_in_search_widget(&self) -> (open: bool)
        ensures
            open == self.in_search(),
    {
        match self.find_widget(self.current_widget_id) {
            Some(at) => self.proc_state.widget_states[at].process_search_state.is_enabled,
            None => false,
        }
    }

    /// Freezes the display at the time of the last snapshot, or unfreezes
    /// it.
    pub fn toggle_freeze(&mut self)
        ensures
            old(self).is_freeze_toggled(*final(self)),
            old(self).keeps_ids(*final(self)),
    {
        self.is_frozen = !self.is_frozen;
        if self.is_frozen {
            self.data_collection.frozen_instant = Some(self.data_collection.current_instant);
        }
    }

    /// Moves the focus to the neighbour of the current widget in a
    /// direction, where it has one.
    pub fn move_widget_selection(&mut self, direction: WidgetDirection)
        ensures
            old(self).is_command_applied(*final(self), Command::MoveWidgetSelection(direction)),
            old(self).keeps_ids(*final(self)),
    {
        self.current_widget_id = move_focus(&self.widget_layout, self.current_widget_id, direction);
    }

    /// Carries out a command.
    pub fn apply_command(&mut self, command: Command)
        ensures
            old(self).is_command_applied(*final(self), command),
            old(self).keeps_ids(*final(self)),
    {
        match command {
            Command::MoveWidgetSelection(direction) => {
                self.move_widget_selection(direction);
            },
            _ => {
                let in_search = self.is_in_search_widget();
                let freeze = match command {
                    Command::CharKey(c) => c == 'f' && !in_search,
                    _ => false,
                };
                if freeze {
                    self.toggle_freeze();
                } else {
                    match self.find_widget(self.current_widget_id) {
                        Some(at) => {
                            match action_for(command, in_search) {
                                Some(action) => {
                                    apply_widget_action(self, at, action);
                                },
                                None => {},
                            }
                        },
                        None => {},
                    }
                }
            },
        }
    }

    /// Moves focus and selection to where a left click points.
    pub fn left_mouse_click_movement(&mut self, x: u16, y: u16)
        ensures
            old(self).is_clicked(*final(self), x, y),
            old(self).keeps_ids(*final(self)),
    {
        match find_layout_at(&self.widget_layout, x, y) {
            None => {},
            Some(layout) => {
                match self.find_widget(layout.widget_id) {
                    None => {
                        self.current_widget_id = layout.widget_id;
                    },
                    Some(at) => {
                        let row = row_of_click(
                            layout,
                            self.proc_state.widget_states[at].scroll_state,
                            y,
                        );
                        self.current_widget_id = layout.widget_id;
                        match row {
                            Some(row) => {
                                apply_widget_action(
                                    self,
                                    at,
                                    WidgetAction::Plain(WidgetCommand::SelectRow(row)),
                                );
                            },
                            None => {},
                        }
                    },
                }
            },
        }
    }
}

fn shortcut_for(c: char) -> (command: Option<WidgetCommand>)
    ensures
        command == shortcut(c),
{
    match c {
        '/' => Some(WidgetCommand::OpenSearch),
        'c' => Some(WidgetCommand::SortBy(ProcessSorting::CpuPercent)),
        'm' => Some(WidgetCommand::SortBy(ProcessSorting::MemPercent)),
        'p' => Some(WidgetCommand::SortBy(ProcessSorting::Pid)),
        'n' => Some(WidgetCommand::SortBy(ProcessSorting::ProcessName)),
        'k' => Some(WidgetCommand::ScrollUp),
        'j' => Some(WidgetCommand::ScrollDown),
        'G' => Some(WidgetCommand::SkipToLast),
        _ => None,
    }
}

fn plain_in(in_search: bool, command: WidgetCommand) -> (action: Option<WidgetAction>)
    ensures
        action == if in_search {
            Some(WidgetAction::Plain(command))
        } else {
            None
        },
{
    if in_search {
        Some(WidgetAction::Plain(command))
    } else {
        None
    }
}

fn edit_in(in_search: bool, edit: SearchEdit) -> (action: Option<WidgetAction>)
    ensures
        action == if in_search {
            Some(WidgetAction::Edit(edit))
        } else {
            None
        },
{
    if in_search {
        Some(WidgetAction::Edit(edit))
    } else {
        None
    }
}

/// What a command does to the process widget that has the focus.
pub fn action_for(command: Command, in_search: bool) -> (action: Option<WidgetAction>)
    ensures
        action == widget_action(command, in_search),
{
    match command {
        Command::SkipToFirst => Some(WidgetAction::Plain(WidgetCommand::SkipToFirst)),
        Command::SkipToLast => Some(WidgetAction::Plain(WidgetCommand::SkipToLast)),
        Command::UpKey => plain_in(!in_search, WidgetCommand::ScrollUp),
        Command::DownKey => plain_in(!in_search, WidgetCommand::ScrollDown),
        Command::LeftKey => edit_in(in_search, SearchEdit::CursorLeft),
        Command::RightKey => edit_in(in_search, SearchEdit::CursorRight),
        Command::CharKey(c) => if in_search {
            Some(WidgetAction::Edit(SearchEdit::Insert(c)))
        } else {
            match shortcut_for(c) {
                Some(plain) => Some(WidgetAction::Plain(plain)),
                None => None,
            }
        },
        Command::Esc => plain_in(in_search, WidgetCommand::CloseSearch),
        Command::Tab => if in_search {
            Some(WidgetAction::Plain(WidgetCommand::ToggleCommand))
        } else {
            Some(WidgetAction::Plain(WidgetCommand::ToggleGrouping))
        },
        Command::Backspace => edit_in(in_search, SearchEdit::Backspace),
        Command::Delete => edit_in(in_search, SearchEdit::Delete),
        Command::ToggleIgnoreCase => Some(WidgetAction::Plain(WidgetCommand::ToggleIgnoreCase)),
        Command::ToggleSearchWholeWord => Some(
            WidgetAction::Plain(WidgetCommand::ToggleSearchWholeWord),
        ),
        Command::ToggleSearchRegex => Some(WidgetAction::Plain(WidgetCommand::ToggleSearchRegex)),
        Command::ToggleTreeMode => Some(WidgetAction::Plain(WidgetCommand::ToggleTreeMode)),
        Command::ToggleSort => Some(WidgetAction::Plain(WidgetCommand::ToggleSort)),
        Command::OpenSearch => Some(WidgetAction::Plain(WidgetCommand::OpenSearch)),
        Command::SkipCursorBeginning => edit_in(in_search, SearchEdit::CursorStart),
        Command::SkipCursorEnd => edit_in(in_search, SearchEdit::CursorEnd),
        Command::ClearSearch => edit_in(in_search, SearchEdit::Clear),
        _ => None,
    }
}

fn changes_list(action: WidgetAction) -> (changes: bool)
    ensures
        changes == action_changes_list(action),
{
    match action {
        WidgetAction::Plain(command) => match command {
            WidgetCommand::ScrollUp => false,
            WidgetCommand::ScrollDown => false,
            WidgetCommand::SkipToFirst => false,
            WidgetCommand::SkipToLast => false,
            WidgetCommand::SelectRow(_) => false,
            WidgetCommand::OpenSearch => false,
            WidgetCommand::CloseSearch => false,
            _ => true,
        },
        WidgetAction::Edit(edit) => match edit {
            SearchEdit::Insert(_) => true,
            SearchEdit::Backspace => true,
            SearchEdit::Delete => true,
            SearchEdit::Clear => true,
            _ => false,
        },
    }
}

fn apply_widget_action(app: &mut App, at: usize, action: WidgetAction)
    requires
        at < old(app).widgets().len(),
    ensures
        old(app).is_widget_action_applied(*final(app), at as int, action),
        old(app).keeps_ids(*final(app)),
{
    let mut widget = app.proc_state.widget_states.remove(at);
    let widget_id = widget.widget_id;
    match action {
        WidgetAction::Plain(command) => {
            widget.apply(command);
        },
        WidgetAction::Edit(edit) => {
            widget.process_search_state.edit(edit);
        },
    }
    app.proc_state.widget_states.insert(at, widget);
    if changes_list(action) {
        app.proc_state.force_update = Some(widget_id);
    }
    proof {
        lemma_one_widget_changed(old(app).widgets(), app.widgets(), at as int);
    }
}

/// Handles a key: looks its command up, carries the command out on the
/// application state, and says what the event loop is to do next.
pub fn handle_key_event_or_break(event: KeyEvent, app: &mut App) -> (action: LoopAction)
    ensures
        action == loop_action(key_binding(event, old(app).in_search())),
        old(app).is_command_applied(*final(app), key_binding(event, old(app).in_search())),
        old(app).keeps_ids(*final(app)),
{
    let command = command_for_key(event, app.is_in_search_widget());
    match command {
        Command::Quit => LoopAction::Quit,
        Command::Reset => LoopAction::SendReset,
        _ => {
            app.apply_command(command);
            LoopAction::Continue
        },
    }
}

/// Handles a mouse event: the wheel scrolls the list of the widget that has
/// the focus; a left click moves focus and selection to where it points.
/// With clicks disabled no mouse event has an effect.
pub fn handle_mouse_event(event: MouseEvent, app: &mut App)
    ensures
        old(app).is_mouse_handled(*final(app), event),
        old(app).keeps_ids(*final(app)),
{
    if app.app_config_fields.disable_click {
        return ;
    }
    match event {
        MouseEvent::ScrollUp(_, _) => {
            match app.find_widget(app.current_widget_id) {
                Some(at) => {
                    apply_widget_action(app, at, WidgetAction::Plain(WidgetCommand::ScrollUp));
                },
                None => {},
            }
        },
        MouseEvent::ScrollDown(_, _) => {
            match app.find_widget(app.current_widget_id) {
                Some(at) => {
                    apply_widget_action(app, at, WidgetAction::Plain(WidgetCommand::ScrollDown));
                },
                None => {},
            }
        },
        MouseEvent::Down(button, x, y) => {
            match button {
                MouseButton::Left => {
                    app.left_mouse_click_movement(x, y);
                },
                _ => {},
            }
        },
        _ => {},
    }
}

} // verus!
