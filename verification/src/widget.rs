//! The state of one process widget: its settings, its scroll position and
//! the list that it shows.

use vstd::prelude::*;
use crate::grouping::{grouped, group_process_data};
use crate::process::{ProcessRow, RowView, rows_view};
use crate::search::{
    ProcessSearchState, SearchPatternError, filtered_rows, filter_process_data,
    lemma_compiled_matcher,
};
use crate::sorting::{ProcessSorting, is_process_sort, lemma_process_sort_is_unique, sort_rows};
use crate::tree::{is_tree_of, lemma_tree_is_unique, tree_process_data};

verus! {

/// The direction of the last scroll.
#[derive(Clone, Copy, Debug, PartialEq, Eq, Structural)]
pub enum ScrollDirection {
    Up,
    Down,
}

/// Where a widget's list is scrolled to.
#[derive(Clone, Copy, Debug, PartialEq, Eq, Structural)]
pub struct ScrollState {
    pub current_scroll_position: usize,
    pub previous_scroll_position: usize,
    pub scroll_direction: ScrollDirection,
}

/// The scroll state over a list of `len` rows: a position on a row stays as
/// it is; a position past the end goes to the last row (to 0 in an empty
/// list), and the scroll starts over downwards.
pub open spec fn clamped_scroll(scroll: ScrollState, len: nat) -> ScrollState {
    if scroll.current_scroll_position >= len {
        ScrollState {
            current_scroll_position: if len == 0 {
                0usize
            } else {
                (len - 1) as usize
            },
            previous_scroll_position: 0,
            scroll_direction: ScrollDirection::Down,
        }
    } else {
        scroll
    }
}

impl ScrollState {
    /// The scroll state of a fresh widget: at the top, scrolling down.
    pub fn new() -> (scroll: ScrollState)
        ensures
            scroll == (ScrollState {
                current_scroll_position: 0,
                previous_scroll_position: 0,
                scroll_direction: ScrollDirection::Down,
            }),
    {
        ScrollState {
            current_scroll_position: 0,
            previous_scroll_position: 0,
            scroll_direction: ScrollDirection::Down,
        }
    }

    /// Clamps the position to a list of `len` rows.
    pub fn clamp(&mut self, len: usize)
        ensures
            *final(self) == clamped_scroll(*old(self), len as nat),
            len > 0 ==> final(self).current_scroll_position < len,
            len == 0 ==> final(self).current_scroll_position == 0,
    {
        if self.current_scroll_position >= len {
            self.current_scroll_position = if len == 0 {
                0
            } else {
                len - 1
            };
            self.previous_scroll_position = 0;
            self.scroll_direction = ScrollDirection::Down;
        }
    }
}

impl ScrollState {
    /// Carries out a command on the scroll state of a list of `len` rows.
    pub fn apply(&mut self, command: WidgetCommand, len: usize)
        ensures
            *final(self) == scroll_after(*old(self), command, len as nat),
    {
        match command {
            WidgetCommand::ScrollUp => {
                if self.current_scroll_position > 0 {
                    self.current_scroll_position = self.current_scroll_position - 1;
                    self.scroll_direction = ScrollDirection::Up;
                }
            },
            WidgetCommand::ScrollDown => {
                if self.current_scroll_position < len && self.current_scroll_position + 1 < len {
                    self.current_scroll_position = self.current_scroll_position + 1;
                    self.scroll_direction = ScrollDirection::Down;
                }
            },
            WidgetCommand::SkipToFirst => {
                self.current_scroll_position = 0;
                self.scroll_direction = ScrollDirection::Up;
            },
            WidgetCommand::SkipToLast => {
                self.current_scroll_position = if len == 0 {
                    0
                } else {
                    len - 1
                };
                self.scroll_direction = ScrollDirection::Down;
            },
            WidgetCommand::SelectRow(row) => {
                if row < len {
                    self.scroll_direction = if row < self.current_scroll_position {
                        ScrollDirection::Up
                    } else {
                        ScrollDirection::Down
                    };
                    self.current_scroll_position = row;
                }
            },
            _ => {},
        }
    }
}

/// One process widget: its search, its shape and sort settings, its scroll
/// state, and the finalized list that was last computed for it.
#[derive(Clone, Debug, PartialEq, Eq)]
pub struct ProcWidgetState {
    pub widget_id: u64,
    pub process_search_state: ProcessSearchState,
    pub is_using_command: bool,
    pub is_grouped: bool,
    pub is_tree_mode: bool,
    pub process_sorting_type: ProcessSorting,
    pub is_process_sort_descending: bool,
    pub scroll_state: ScrollState,
    pub finalized_process_data: Vec<ProcessRow>,
}

/// `shown` is the list that the widget's settings make of `rows`: the rows
/// filtered by the search; then laid out as a sorted tree in tree mode,
/// else grouped where the widget groups and sorted for display.
pub open spec fn is_finalized_list(
    rows: Seq<RowView>,
    widget: ProcWidgetState,
    shown: Seq<RowView>,
) -> bool {
    let filtered = filtered_rows(
        rows,
        widget.process_search_state.active_matcher(),
        widget.is_using_command,
        widget.is_tree_mode,
    );
    if widget.is_tree_mode {
        is_tree_of(
            filtered,
            shown,
            widget.process_sorting_type,
            widget.is_process_sort_descending,
        )
    } else if widget.is_grouped {
        is_process_sort(
            grouped(filtered, widget.is_using_command),
            shown,
            widget.process_sorting_type,
            widget.is_process_sort_descending,
            true,
        )
    } else {
        is_process_sort(
            filtered,
            shown,
            widget.process_sorting_type,
            widget.is_process_sort_descending,
            false,
        )
    }
}

/// A change of a widget's settings or scroll position.
#[derive(Clone, Copy, Debug, PartialEq, Eq, Structural)]
pub enum WidgetCommand {
    ScrollUp,
    ScrollDown,
    SkipToFirst,
    SkipToLast,
    /// Select the given row, where the list has it.
    SelectRow(usize),
    ToggleIgnoreCase,
    ToggleSearchWholeWord,
    ToggleSearchRegex,
    ToggleTreeMode,
    /// Turn the sort direction round.
    ToggleSort,
    ToggleGrouping,
    /// Switch between matching and grouping by name and by command line.
    ToggleCommand,
    OpenSearch,
    CloseSearch,
    /// Sort by this column: in its usual direction where the column is
    /// new, in the other direction where the table is sorted by it already.
    SortBy(ProcessSorting),
}

/// The direction in which a table is first sorted by a column: usage
/// figures from the largest, names and numbers from the smallest.
pub open spec fn sorts_descending_first(column: ProcessSorting) -> bool {
    match column {
        ProcessSorting::Pid => false,
        ProcessSorting::ProcessName => false,
        ProcessSorting::Command => false,
        ProcessSorting::State => false,
        _ => true,
    }
}

/// Whether a command can change the rows of the list or their order.
pub open spec fn command_changes_list(command: WidgetCommand) -> bool {
    match command {
        WidgetCommand::ScrollUp => false,
        WidgetCommand::ScrollDown => false,
        WidgetCommand::SkipToFirst => false,
        WidgetCommand::SkipToLast => false,
        WidgetCommand::SelectRow(row) => false,
        WidgetCommand::OpenSearch => false,
        WidgetCommand::CloseSearch => false,
        _ => true,
    }
}

/// The scroll state after a command, over a list of `len` rows.
pub open spec fn scroll_after(scroll: ScrollState, command: WidgetCommand, len: nat) -> ScrollState {
    match command {
        WidgetCommand::ScrollUp => if scroll.current_scroll_position > 0 {
            ScrollState {
                current_scroll_position: (scroll.current_scroll_position - 1) as usize,
                scroll_direction: ScrollDirection::Up,
                ..scroll
            }
        } else {
            scroll
        },
        WidgetCommand::ScrollDown => if scroll.current_scroll_position + 1 < len {
            ScrollState {
                current_scroll_position: (scroll.current_scroll_position + 1) as usize,
                scroll_direction: ScrollDirection::Down,
                ..scroll
            }
        } else {
            scroll
        },
        WidgetCommand::SkipToFirst => ScrollState {
            current_scroll_position: 0,
            scroll_direction: ScrollDirection::Up,
            ..scroll
        },
        WidgetCommand::SkipToLast => ScrollState {
            current_scroll_position: if len == 0 {
                0usize
            } else {
                (len - 1) as usize
            },
            scroll_direction: ScrollDirection::Down,
            ..scroll
        },
        WidgetCommand::SelectRow(row) => if row < len {
            ScrollState {
                current_scroll_position: row,
                scroll_direction: if row < scroll.current_scroll_position {
                    ScrollDirection::Up
                } else {
                    ScrollDirection::Down
                },
                ..scroll
            }
        } else {
            scroll
        },
        _ => scroll,
    }
}

/// The finalized list is determined by the rows and the widget's settings:
/// nothing else has a part in it.
pub proof fn lemma_finalized_list_is_determined(
    rows: Seq<RowView>,
    widget: ProcWidgetState,
    first: Seq<RowView>,
    second: Seq<RowView>,
)
    requires
        is_finalized_list(rows, widget, first),
        is_finalized_list(rows, widget, second),
    ensures
        first == second,
{
    let filtered = filtered_rows(
        rows,
        widget.process_search_state.active_matcher(),
        widget.is_using_command,
        widget.is_tree_mode,
    );
    if widget.is_tree_mode {
        lemma_tree_is_unique(
            filtered,
            first,
            second,
            widget.process_sorting_type,
            widget.is_process_sort_descending,
        );
    } else if widget.is_grouped {
        lemma_process_sort_is_unique(
            grouped(filtered, widget.is_using_command),
            first,
            second,
            widget.process_sorting_type,
            widget.is_process_sort_descending,
            true,
        );
    } else {
        lemma_process_sort_is_unique(
            filtered,
            first,
            second,
            widget.process_sorting_type,
            widget.is_process_sort_descending,
            false,
        );
    }
}

impl ProcWidgetState {
    /// Two widget states agree in everything but the scroll state and the
    /// finalized list.
    pub open spec fn same_settings(&self, other: ProcWidgetState) -> bool {
        &&& self.widget_id == other.widget_id
        &&& self.process_search_state == other.process_search_state
        &&& self.is_using_command == other.is_using_command
        &&& self.is_grouped == other.is_grouped
        &&& self.is_tree_mode == other.is_tree_mode
        &&& self.process_sorting_type == other.process_sorting_type
        &&& self.is_process_sort_descending == other.is_process_sort_descending
    }

    /// The values of the rows that the widget shows.
    pub open spec fn shown(&self) -> Seq<RowView> {
        rows_view(self.finalized_process_data@)
    }

    /// A widget with an empty search, sorted by CPU usage, descending, at
    /// the top of an empty list.
    pub fn new(widget_id: u64, is_ignoring_case: bool, is_grouped: bool) -> (widget:
        ProcWidgetState)
        ensures
            widget.widget_id == widget_id,
            widget.process_search_state.is_blank(),
            widget.process_search_state.cursor_position == 0,
            !widget.process_search_state.is_enabled,
            widget.process_search_state.is_ignoring_case == is_ignoring_case,
            !widget.process_search_state.is_searching_whole_word,
            !widget.process_search_state.is_searching_with_regex,
            !widget.is_using_command,
            widget.is_grouped == is_grouped,
            !widget.is_tree_mode,
            widget.process_sorting_type == ProcessSorting::CpuPercent,
            widget.is_process_sort_descending,
            widget.scroll_state.current_scroll_position == 0,
            widget.scroll_state.previous_scroll_position == 0,
            widget.scroll_state.scroll_direction == ScrollDirection::Down,
            widget.finalized_process_data@.len() == 0,
    {
        ProcWidgetState {
            widget_id,
            process_search_state: ProcessSearchState::new(is_ignoring_case, false, false),
            is_using_command: false,
            is_grouped,
            is_tree_mode: false,
            process_sorting_type: ProcessSorting::CpuPercent,
            is_process_sort_descending: true,
            scroll_state: ScrollState::new(),
            finalized_process_data: Vec::new(),
        }
    }

    /// The widget after a command. The finalized list stays as it is until
    /// it is recomputed.
    pub open spec fn after_command(self, command: WidgetCommand) -> ProcWidgetState {
        let search = self.process_search_state;
        match command {
            WidgetCommand::ToggleIgnoreCase => ProcWidgetState {
                process_search_state: ProcessSearchState {
                    is_ignoring_case: !search.is_ignoring_case,
                    ..search
                },
                ..self
            },
            WidgetCommand::ToggleSearchWholeWord => ProcWidgetState {
                process_search_state: ProcessSearchState {
                    is_searching_whole_word: !search.is_searching_whole_word,
                    ..search
                },
                ..self
            },
            WidgetCommand::ToggleSearchRegex => ProcWidgetState {
                process_search_state: ProcessSearchState {
                    is_searching_with_regex: !search.is_searching_with_regex,
                    ..search
                },
                ..self
            },
            WidgetCommand::OpenSearch => ProcWidgetState {
                process_search_state: ProcessSearchState { is_enabled: true, ..search },
                ..self
            },
            WidgetCommand::CloseSearch => ProcWidgetState {
                process_search_state: ProcessSearchState { is_enabled: false, ..search },
                ..self
            },
            WidgetCommand::ToggleTreeMode => ProcWidgetState {
                is_tree_mode: !self.is_tree_mode,
                ..self
            },
            WidgetCommand::ToggleSort => ProcWidgetState {
                is_process_sort_descending: !self.is_process_sort_descending,
                ..self
            },
            WidgetCommand::ToggleCommand => ProcWidgetState {
                is_using_command: !self.is_using_command,
                ..self
            },
            WidgetCommand::ToggleGrouping => if !self.is_grouped && self.process_sorting_type
                == ProcessSorting::Pid {
                ProcWidgetState {
                    is_grouped: true,
                    process_sorting_type: ProcessSorting::CpuPercent,
                    is_process_sort_descending: true,
                    ..self
                }
            } else {
                ProcWidgetState { is_grouped: !self.is_grouped, ..self }
            },
            WidgetCommand::SortBy(column) => if self.process_sorting_type == column {
                ProcWidgetState {
                    is_process_sort_descending: !self.is_process_sort_descending,
                    ..self
                }
            } else {
                ProcWidgetState {
                    process_sorting_type: column,
                    is_process_sort_descending: sorts_descending_first(column),
                    ..self
                }
            },
            _ => ProcWidgetState {
                scroll_state: scroll_after(
                    self.scroll_state,
                    command,
                    self.finalized_process_data@.len(),
                ),
                ..self
            },
        }
    }

    /// Carries out a command on the widget.
    pub fn apply(&mut self, command: WidgetCommand)
        ensures
            *final(self) == old(self).after_command(command),
    {
        match command {
            WidgetCommand::ToggleIgnoreCase => {
                self.process_search_state.is_ignoring_case =
                    !self.process_search_state.is_ignoring_case;
            },
            WidgetCommand::ToggleSearchWholeWord => {
                self.process_search_state.is_searching_whole_word =
                    !self.process_search_state.is_searching_whole_word;
            },
            WidgetCommand::ToggleSearchRegex => {
                self.process_search_state.is_searching_with_regex =
                    !self.process_search_state.is_searching_with_regex;
            },
            WidgetCommand::OpenSearch => {
                self.process_search_state.is_enabled = true;
            },
            WidgetCommand::CloseSearch => {
                self.process_search_state.is_enabled = false;
            },
            WidgetCommand::ToggleTreeMode => {
                self.is_tree_mode = !self.is_tree_mode;
            },
            WidgetCommand::ToggleSort => {
                self.is_process_sort_descending = !self.is_process_sort_descending;
            },
            WidgetCommand::ToggleCommand => {
                self.is_using_command = !self.is_using_command;
            },
            WidgetCommand::ToggleGrouping => {
                self.toggle_grouping();
            },
            WidgetCommand::SortBy(column) => {
                self.sort_by(column);
            },
            _ => {
                self.scroll_state.apply(command, self.finalized_process_data.len());
            },
        }
    }

    fn toggle_grouping(&mut self)
        ensures
            *final(self) == old(self).after_command(WidgetCommand::ToggleGrouping),
    {
        self.is_grouped = !self.is_grouped;
        if self.is_grouped {
            match self.process_sorting_type {
                ProcessSorting::Pid => {
                    self.process_sorting_type = ProcessSorting::CpuPercent;
                    self.is_process_sort_descending = true;
                },
                _ => {},
            }
        }
    }

    fn sort_by(&mut self, column: ProcessSorting)
        ensures
            *final(self) == old(self).after_command(WidgetCommand::SortBy(column)),
    {
        if self.process_sorting_type == column {
            self.is_process_sort_descending = !self.is_process_sort_descending;
        } else {
            self.process_sorting_type = column;
            self.is_process_sort_descending = match column {
                ProcessSorting::Pid => false,
                ProcessSorting::ProcessName => false,
                ProcessSorting::Command => false,
                ProcessSorting::State => false,
                _ => true,
            };
        }
    }

    /// Recomputes the widget's list from the current rows: filter, shape,
    /// sort, then clamp the scroll position to the new list. The settings
    /// stay as they are.
    pub fn update_finalized(&mut self, rows: &Vec<ProcessRow>)
        ensures
            is_finalized_list(rows_view(rows@), *old(self), final(self).shown()),
            final(self).scroll_state == clamped_scroll(
                old(self).scroll_state,
                final(self).finalized_process_data@.len(),
            ),
            final(self).same_settings(*old(self)),
    {
        let filter: Option<regex::Regex> = match self.process_search_state.compile() {
            Ok(regex) => {
                proof {
                    lemma_compiled_matcher(regex, self.process_search_state.pattern());
                }
                Some(regex)
            },
            Err(SearchPatternError::Blank) => None,
            Err(SearchPatternError::Invalid) => None,
        };
        let filtered = filter_process_data(rows, &filter, self.is_using_command, self.is_tree_mode);
        let finalized = if self.is_tree_mode {
            tree_process_data(
                &filtered,
                self.process_sorting_type,
                self.is_process_sort_descending,
            )
        } else if self.is_grouped {
            let mut groups = group_process_data(&filtered, self.is_using_command);
            sort_process_data(&mut groups, self);
            groups
        } else {
            let mut plain = filtered;
            sort_process_data(&mut plain, self);
            plain
        };
        self.scroll_state.clamp(finalized.len());
        self.finalized_process_data = finalized;
    }
}

/// Sorts a process table for display under the widget's settings: by name
/// first, ascending and ignoring case, then by the widget's column and
/// direction, so that name order decides between rows that the column does
/// not separate. The pid column means nothing in a grouped table and the
/// count column nothing in a plain one: there the name order stays.
pub fn sort_process_data(to_sort_vec: &mut Vec<ProcessRow>, proc_widget_state: &ProcWidgetState)
    ensures
        is_process_sort(
            rows_view(old(to_sort_vec)@),
            rows_view(final(to_sort_vec)@),
            proc_widget_state.process_sorting_type,
            proc_widget_state.is_process_sort_descending,
            proc_widget_state.is_grouped,
        ),
{
    sort_rows(
        to_sort_vec,
        proc_widget_state.process_sorting_type,
        proc_widget_state.is_process_sort_descending,
        proc_widget_state.is_grouped,
    );
}

} // verus!
