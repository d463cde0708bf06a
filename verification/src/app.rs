//! The application state, and its recomputation: the finalized process list
//! of one widget or of all, the pending redraws, and the merge of a
//! harvested snapshot.

use vstd::prelude::*;
use crate::history::{
    Data, DataCollection, Metric, Point, baseline_of, core_count, data_points, sample_of,
};
use crate::layout::WidgetLayout;
use crate::process::{ProcessRow, RowView, convert_process_data, rows_of_records, rows_view};
use crate::widget::{ProcWidgetState, clamped_scroll, is_finalized_list};

verus! {

/// The process widgets, and which of them await a recomputation.
#[derive(Clone, Debug, PartialEq, Eq)]
pub struct ProcState {
    /// The widgets, keyed by their ids: in a well-formed state no two of
    /// them share an id, and a widget is found as the first with its id.
    pub widget_states: Vec<ProcWidgetState>,
    /// The widget whose list is to be recomputed.
    pub force_update: Option<u64>,
    /// Every widget's list is to be recomputed.
    pub force_update_all: bool,
}

/// The state of a graph widget kind: which widget awaits a redraw.
#[derive(Clone, Copy, Debug, PartialEq, Eq, Structural)]
pub struct GraphState {
    pub force_update: Option<u64>,
}

/// What the renderer reads besides the widgets' lists.
#[derive(Clone, Debug, PartialEq, Eq)]
pub struct CanvasData {
    /// The rows of the latest snapshot, before any widget shaped them.
    pub single_process_data: Vec<ProcessRow>,
    pub cpu_data: Vec<Vec<Point>>,
    pub mem_data: Vec<Point>,
    pub swap_data: Vec<Point>,
    pub network_data_rx: Vec<Point>,
    pub network_data_tx: Vec<Point>,
}

/// The unit in which temperatures are shown.
#[derive(Clone, Copy, Debug, PartialEq, Eq, Structural)]
pub enum TemperatureType {
    Celsius,
    Kelvin,
    Fahrenheit,
}

/// The settings that are fixed at startup.
#[derive(Clone, Copy, Debug, PartialEq, Eq, Structural)]
pub struct AppConfigFields {
    pub update_rate_in_milliseconds: u64,
    pub temperature_type: TemperatureType,
    pub use_current_cpu_total: bool,
    pub show_average_cpu: bool,
    pub disable_click: bool,
}

/// The whole state of the application, owned by the event loop.
#[derive(Clone, Debug, PartialEq, Eq)]
pub struct App {
    /// While set, snapshots are received and discarded.
    pub is_frozen: bool,
    /// The widget that has the focus.
    pub current_widget_id: u64,
    pub proc_state: ProcState,
    pub cpu_state: GraphState,
    pub mem_state: GraphState,
    pub net_state: GraphState,
    pub canvas_data: CanvasData,
    pub data_collection: DataCollection,
    pub app_config_fields: AppConfigFields,
    /// The navigation graph and the geometry of the widgets.
    pub widget_layout: Vec<WidgetLayout>,
}

/// Some widget has this id.
pub open spec fn has_widget(widgets: Seq<ProcWidgetState>, widget_id: u64) -> bool {
    exists|k: int| 0 <= k < widgets.len() && (#[trigger] widgets[k]).widget_id == widget_id
}

/// `at` is the index of the first widget with this id.
pub open spec fn is_widget_position(widgets: Seq<ProcWidgetState>, widget_id: u64, at: int) -> bool {
    &&& 0 <= at < widgets.len()
    &&& widgets[at].widget_id == widget_id
    &&& forall|k: int| 0 <= k < at ==> (#[trigger] widgets[k]).widget_id != widget_id
}

/// The index of the first widget with this id.
pub open spec fn first_widget(widgets: Seq<ProcWidgetState>, widget_id: u64) -> Option<int> {
    if exists|at: int| is_widget_position(widgets, widget_id, at) {
        Some(choose|at: int| is_widget_position(widgets, widget_id, at))
    } else {
        None
    }
}

/// The first widget with an id is at one index only.
pub proof fn lemma_first_widget(widgets: Seq<ProcWidgetState>, widget_id: u64, at: int)
    requires
        is_widget_position(widgets, widget_id, at),
    ensures
        first_widget(widgets, widget_id) == Some(at),
{
    let chosen = choose|at: int| is_widget_position(widgets, widget_id, at);
    assert(is_widget_position(widgets, widget_id, chosen));
    if chosen < at {
        assert(widgets[chosen].widget_id != widget_id);
    } else if at < chosen {
        assert(widgets[at].widget_id != widget_id);
    }
}

/// Where no widget has an id, there is no first one.
pub proof fn lemma_no_widget(widgets: Seq<ProcWidgetState>, widget_id: u64)
    requires
        !has_widget(widgets, widget_id),
    ensures
        first_widget(widgets, widget_id) is None,
{
    assert forall|at: int| !is_widget_position(widgets, widget_id, at) by {
        if is_widget_position(widgets, widget_id, at) {
            assert(widgets[at].widget_id == widget_id);
        }
    }
}

/// No two widgets share an id.
pub open spec fn has_distinct_ids(widgets: Seq<ProcWidgetState>) -> bool {
    forall|i: int, j: int|
        0 <= i < j < widgets.len() ==> (#[trigger] widgets[i]).widget_id != (
        #[trigger] widgets[j]).widget_id
}

/// The ids of the widgets, in their order.
pub open spec fn widget_ids(widgets: Seq<ProcWidgetState>) -> Seq<u64> {
    widgets.map_values(|widget: ProcWidgetState| widget.widget_id)
}

/// Widgets with the same ids in the same order are distinct in their ids
/// together.
pub proof fn lemma_same_ids_keep_distinct(
    before: Seq<ProcWidgetState>,
    after: Seq<ProcWidgetState>,
)
    requires
        widget_ids(after) == widget_ids(before),
        has_distinct_ids(before),
    ensures
        has_distinct_ids(after),
{
    assert(after.len() == widget_ids(after).len());
    assert(before.len() == widget_ids(before).len());
    assert forall|i: int, j: int| 0 <= i < j < after.len() implies (#[trigger] after[i]).widget_id
        != (#[trigger] after[j]).widget_id by {
        assert(widget_ids(after)[i] == after[i].widget_id);
        assert(widget_ids(after)[j] == after[j].widget_id);
        assert(widget_ids(before)[i] == before[i].widget_id);
        assert(widget_ids(before)[j] == before[j].widget_id);
    }
}

/// The widgets with one more: it takes the place of the first widget with
/// its id, or stands last where no widget has the id.
pub open spec fn with_widget(widgets: Seq<ProcWidgetState>, widget: ProcWidgetState) -> Seq<
    ProcWidgetState,
> {
    match first_widget(widgets, widget.widget_id) {
        Some(at) => widgets.update(at, widget),
        None => widgets.push(widget),
    }
}

/// The widgets keyed by their ids: where an id comes again, the later
/// widget takes the place of the earlier one.
pub open spec fn keyed_widgets(widgets: Seq<ProcWidgetState>) -> Seq<ProcWidgetState>
    decreases widgets.len(),
{
    if widgets.len() == 0 {
        Seq::empty()
    } else {
        with_widget(keyed_widgets(widgets.drop_last()), widgets.last())
    }
}

/// One more widget leaves the ids distinct.
pub proof fn lemma_with_widget_keeps_distinct(
    widgets: Seq<ProcWidgetState>,
    widget: ProcWidgetState,
)
    requires
        has_distinct_ids(widgets),
    ensures
        has_distinct_ids(with_widget(widgets, widget)),
{
    let more = with_widget(widgets, widget);
    match first_widget(widgets, widget.widget_id) {
        Some(at) => {
            assert(is_widget_position(widgets, widget.widget_id, at));
            assert forall|i: int, j: int| 0 <= i < j < more.len() implies (
            #[trigger] more[i]).widget_id != (#[trigger] more[j]).widget_id by {
                assert(more[i].widget_id == widgets[i].widget_id);
                assert(more[j].widget_id == widgets[j].widget_id);
            }
        },
        None => {
            assert forall|i: int, j: int| 0 <= i < j < more.len() implies (
            #[trigger] more[i]).widget_id != (#[trigger] more[j]).widget_id by {
                if j == widgets.len() {
                    if widgets[i].widget_id == widget.widget_id {
                        lemma_some_widget(widgets, widget.widget_id, i);
                    }
                } else {
                    assert(more[i] == widgets[i]);
                    assert(more[j] == widgets[j]);
                }
            }
        },
    }
}

/// Where a widget has the id, there is a first one.
pub proof fn lemma_some_widget(widgets: Seq<ProcWidgetState>, widget_id: u64, k: int)
    requires
        0 <= k < widgets.len(),
        widgets[k].widget_id == widget_id,
    ensures
        first_widget(widgets, widget_id) is Some,
    decreases k,
{
    if exists|m: int| 0 <= m < k && (#[trigger] widgets[m]).widget_id == widget_id {
        let m = choose|m: int| 0 <= m < k && (#[trigger] widgets[m]).widget_id == widget_id;
        lemma_some_widget(widgets, widget_id, m);
    } else {
        assert(is_widget_position(widgets, widget_id, k));
    }
}

/// Keyed widgets are distinct in their ids.
pub proof fn lemma_keyed_widgets_are_distinct(widgets: Seq<ProcWidgetState>)
    ensures
        has_distinct_ids(keyed_widgets(widgets)),
    decreases widgets.len(),
{
    if widgets.len() > 0 {
        lemma_keyed_widgets_are_distinct(widgets.drop_last());
        lemma_with_widget_keeps_distinct(keyed_widgets(widgets.drop_last()), widgets.last());
    }
}

/// Widgets that are distinct in their ids are keyed as they stand.
pub proof fn lemma_distinct_widgets_are_keyed(widgets: Seq<ProcWidgetState>)
    requires
        has_distinct_ids(widgets),
    ensures
        keyed_widgets(widgets) == widgets,
    decreases widgets.len(),
{
    if widgets.len() > 0 {
        let earlier = widgets.drop_last();
        assert(has_distinct_ids(earlier)) by {
            assert forall|i: int, j: int| 0 <= i < j < earlier.len() implies (
            #[trigger] earlier[i]).widget_id != (#[trigger] earlier[j]).widget_id by {
                assert(earlier[i] == widgets[i]);
                assert(earlier[j] == widgets[j]);
            }
        }
        lemma_distinct_widgets_are_keyed(earlier);
        assert(first_widget(earlier, widgets.last().widget_id) is None) by {
            if first_widget(earlier, widgets.last().widget_id) is Some {
                let at = choose|at: int|
                    is_widget_position(earlier, widgets.last().widget_id, at);
                assert(earlier[at] == widgets[at]);
                assert(widgets[at].widget_id != widgets[widgets.len() - 1].widget_id);
            }
        }
        assert(earlier.push(widgets.last()) =~= widgets);
    } else {
        assert(keyed_widgets(widgets) =~= widgets);
    }
}

/// `after` is `before` with its list recomputed from `rows`: the list is the
/// finalized list of the rows under the widget's settings, the scroll
/// position is clamped to it, and the settings are as they were.
pub open spec fn is_widget_update(
    rows: Seq<RowView>,
    before: ProcWidgetState,
    after: ProcWidgetState,
) -> bool {
    &&& is_finalized_list(rows, before, after.shown())
    &&& after.scroll_state == clamped_scroll(
        before.scroll_state,
        after.finalized_process_data@.len(),
    )
    &&& after.same_settings(before)
}

/// The clamp invariant: after a recomputation the scroll position is on a
/// row of the widget's list, or 0 where the list is empty.
pub proof fn lemma_recompute_keeps_scroll_valid(
    rows: Seq<RowView>,
    before: ProcWidgetState,
    after: ProcWidgetState,
)
    requires
        is_widget_update(rows, before, after),
    ensures
        after.shown().len() > 0 ==> 0 <= after.scroll_state.current_scroll_position
            < after.shown().len(),
        after.shown().len() == 0 ==> after.scroll_state.current_scroll_position == 0,
{
}

/// `series` holds, for each core of the latest sample, the points of that
/// core's usage.
pub open spec fn is_cpu_series(series: Seq<Vec<Point>>, collection: DataCollection, base: u64)
    -> bool {
    &&& series.len() == core_count(collection.timed_data_vec@)
    &&& forall|core: int|
        0 <= core < series.len() ==> (#[trigger] series[core])@ == data_points(
            collection.timed_data_vec@,
            base,
            Metric::Cpu(core as usize),
        )
}

impl App {
    /// The process widgets.
    pub open spec fn widgets(&self) -> Seq<ProcWidgetState> {
        self.proc_state.widget_states@
    }

    /// The invariant of the application state: the widgets are keyed by
    /// their ids, so no two of them share one.
    pub open spec fn well_formed(&self) -> bool {
        has_distinct_ids(self.widgets())
    }

    /// `after` holds widgets with the same ids in the same order, and is
    /// well formed where `self` is.
    pub open spec fn keeps_ids(&self, after: App) -> bool {
        &&& widget_ids(after.widgets()) == widget_ids(self.widgets())
        &&& self.well_formed() ==> after.well_formed()
    }

    /// The rows from which the lists are recomputed: those of the retained
    /// snapshot, or, while frozen, those that the display already holds.
    pub open spec fn current_rows(&self) -> Seq<RowView> {
        if self.is_frozen {
            rows_view(self.canvas_data.single_process_data@)
        } else {
            rows_of_records(self.data_collection.process_harvest@)
        }
    }

    /// `self` differs from `other` at most in the process widgets and in the
    /// unshaped rows.
    pub open spec fn same_outside_processes(&self, other: App) -> bool {
        *self == (App {
            proc_state: ProcState {
                widget_states: self.proc_state.widget_states,
                ..other.proc_state
            },
            canvas_data: CanvasData {
                single_process_data: self.canvas_data.single_process_data,
                ..other.canvas_data
            },
            ..other
        })
    }

    /// `after` is `self` with the list of the widget at index `at`
    /// recomputed.
    pub open spec fn is_single_update_at(&self, after: App, at: int) -> bool {
        &&& after.same_outside_processes(*self)
        &&& rows_view(after.canvas_data.single_process_data@) == self.current_rows()
        &&& after.widgets().len() == self.widgets().len()
        &&& is_widget_update(self.current_rows(), self.widgets()[at], after.widgets()[at])
        &&& forall|k: int|
            0 <= k < self.widgets().len() && k != at ==> #[trigger] after.widgets()[k]
                == self.widgets()[k]
    }

    /// `after` is `self` with the list of the first widget with this id
    /// recomputed; without such a widget nothing changes.
    pub open spec fn is_single_update(&self, after: App, widget_id: u64) -> bool {
        match first_widget(self.widgets(), widget_id) {
            Some(at) => self.is_single_update_at(after, at),
            None => after == *self,
        }
    }

    /// `after` is `self` with every widget's list recomputed. While frozen,
    /// and without widgets, nothing changes.
    pub open spec fn is_full_update(&self, after: App) -> bool {
        if self.is_frozen || self.widgets().len() == 0 {
            after == *self
        } else {
            &&& after.same_outside_processes(*self)
            &&& rows_view(after.canvas_data.single_process_data@) == self.current_rows()
            &&& after.widgets().len() == self.widgets().len()
            &&& forall|k: int|
                0 <= k < self.widgets().len() ==> is_widget_update(
                    self.current_rows(),
                    #[trigger] self.widgets()[k],
                    after.widgets()[k],
                )
        }
    }

    /// `mid` is `self` after the pending recomputation of process lists: of
    /// all widgets where that is asked for, which leaves a request for a
    /// single widget pending; else of the single widget asked for.
    pub open spec fn is_process_redraw(&self, mid: App) -> bool {
        if self.proc_state.force_update_all {
            &&& !mid.proc_state.force_update_all
            &&& self.is_full_update(
                App { proc_state: ProcState { force_update_all: true, ..mid.proc_state }, ..mid },
            )
        } else {
            match self.proc_state.force_update {
                Some(widget_id) => {
                    &&& mid.proc_state.force_update is None
                    &&& self.is_single_update(
                        App {
                            proc_state: ProcState {
                                force_update: Some(widget_id),
                                ..mid.proc_state
                            },
                            ..mid
                        },
                        widget_id,
                    )
                },
                None => mid == *self,
            }
        }
    }

    /// `after` is `self` after the pending redraws of the graphs: each kind
    /// of graph that awaits one has its points recomputed from the history
    /// and awaits none; the others are as they were.
    pub open spec fn is_graph_redraw(&self, after: App) -> bool {
        let base = self.data_collection.time_base(self.is_frozen);
        let samples = self.data_collection.timed_data_vec@;
        &&& after == (App {
            cpu_state: after.cpu_state,
            mem_state: after.mem_state,
            net_state: after.net_state,
            canvas_data: CanvasData {
                cpu_data: after.canvas_data.cpu_data,
                mem_data: after.canvas_data.mem_data,
                swap_data: after.canvas_data.swap_data,
                network_data_rx: after.canvas_data.network_data_rx,
                network_data_tx: after.canvas_data.network_data_tx,
                ..self.canvas_data
            },
            ..*self
        })
        &&& after.cpu_state.force_update is None
        &&& after.mem_state.force_update is None
        &&& after.net_state.force_update is None
        &&& if self.cpu_state.force_update is Some {
            is_cpu_series(after.canvas_data.cpu_data@, self.data_collection, base)
        } else {
            after.canvas_data.cpu_data == self.canvas_data.cpu_data
        }
        &&& if self.mem_state.force_update is Some {
            &&& after.canvas_data.mem_data@ == data_points(samples, base, Metric::Memory)
            &&& after.canvas_data.swap_data@ == data_points(samples, base, Metric::Swap)
        } else {
            &&& after.canvas_data.mem_data == self.canvas_data.mem_data
            &&& after.canvas_data.swap_data == self.canvas_data.swap_data
        }
        &&& if self.net_state.force_update is Some {
            &&& after.canvas_data.network_data_rx@ == data_points(samples, base, Metric::NetworkRx)
            &&& after.canvas_data.network_data_tx@ == data_points(samples, base, Metric::NetworkTx)
        } else {
            &&& after.canvas_data.network_data_rx == self.canvas_data.network_data_rx
            &&& after.canvas_data.network_data_tx == self.canvas_data.network_data_tx
        }
    }

    /// `merged` is `self` with a snapshot merged into the history and every
    /// graph recomputed from it; the process widgets are as they were.
    pub open spec fn is_snapshot_merged(&self, data: Data, merged: App) -> bool {
        let collection = merged.data_collection;
        let base = collection.current_instant;
        let samples = collection.timed_data_vec@;
        &&& merged == (App {
            data_collection: merged.data_collection,
            canvas_data: CanvasData {
                cpu_data: merged.canvas_data.cpu_data,
                mem_data: merged.canvas_data.mem_data,
                swap_data: merged.canvas_data.swap_data,
                network_data_rx: merged.canvas_data.network_data_rx,
                network_data_tx: merged.canvas_data.network_data_tx,
                ..self.canvas_data
            },
            ..*self
        })
        &&& collection.current_instant == data.collection_time
        &&& collection.frozen_instant == self.data_collection.frozen_instant
        &&& samples == self.data_collection.timed_data_vec@.push(
            sample_of(self.data_collection.network_baseline, data),
        )
        &&& collection.network_baseline == Some(baseline_of(data))
        &&& collection.process_harvest == data.list_of_processes
        &&& collection.disk_harvest == data.disks
        &&& collection.temp_harvest == data.temperature_sensors
        &&& collection.battery_harvest == data.battery
        &&& is_cpu_series(merged.canvas_data.cpu_data@, collection, base)
        &&& merged.canvas_data.mem_data@ == data_points(samples, base, Metric::Memory)
        &&& merged.canvas_data.swap_data@ == data_points(samples, base, Metric::Swap)
        &&& merged.canvas_data.network_data_rx@ == data_points(samples, base, Metric::NetworkRx)
        &&& merged.canvas_data.network_data_tx@ == data_points(samples, base, Metric::NetworkTx)
    }

    /// The state at startup: the given widgets, keyed by their ids, and the
    /// given layout, the focus on `current_widget_id`, nothing harvested,
    /// nothing on display, and no redraw pending. Where an id comes twice
    /// among the widgets, the later widget takes the place of the earlier
    /// one; widgets with distinct ids are kept as they are given.
    pub fn new(
        app_config_fields: AppConfigFields,
        widget_states: Vec<ProcWidgetState>,
        widget_layout: Vec<WidgetLayout>,
        current_widget_id: u64,
    ) -> (app: App)
        ensures
            app.well_formed(),
            app.widgets() == keyed_widgets(widget_states@),
            !app.is_frozen,
            app.current_widget_id == current_widget_id,
            app.proc_state.force_update is None,
            !app.proc_state.force_update_all,
            app.cpu_state.force_update is None,
            app.mem_state.force_update is None,
            app.net_state.force_update is None,
            app.canvas_data.single_process_data@.len() == 0,
            app.canvas_data.cpu_data@.len() == 0,
            app.canvas_data.mem_data@.len() == 0,
            app.canvas_data.swap_data@.len() == 0,
            app.canvas_data.network_data_rx@.len() == 0,
            app.canvas_data.network_data_tx@.len() == 0,
            app.data_collection.current_instant == 0,
            app.data_collection.frozen_instant is None,
            app.data_collection.timed_data_vec@.len() == 0,
            app.data_collection.network_baseline is None,
            app.data_collection.process_harvest@.len() == 0,
            app.data_collection.disk_harvest@.len() == 0,
            app.data_collection.temp_harvest@.len() == 0,
            app.data_collection.battery_harvest@.len() == 0,
            app.app_config_fields == app_config_fields,
            app.widget_layout == widget_layout,
    {
        let mut keyed: Vec<ProcWidgetState> = Vec::new();
        for widget in it: widget_states
            invariant
                it.seq() == widget_states@,
                keyed@ == keyed_widgets(it.seq().take(it.index() as int)),
        {
            proof {
                let upto = it.seq().take(it.index() as int + 1);
                assert(upto.drop_last() =~= it.seq().take(it.index() as int));
                assert(upto.last() == widget);
            }
            insert_widget(&mut keyed, widget);
        }
        proof {
            assert(widget_states@.take(widget_states@.len() as int) =~= widget_states@);
            lemma_keyed_widgets_are_distinct(widget_states@);
        }
        App {
            is_frozen: false,
            current_widget_id,
            proc_state: ProcState {
                widget_states: keyed,
                force_update: None,
                force_update_all: false,
            },
            cpu_state: GraphState { force_update: None },
            mem_state: GraphState { force_update: None },
            net_state: GraphState { force_update: None },
            canvas_data: CanvasData {
                single_process_data: Vec::new(),
                cpu_data: Vec::new(),
                mem_data: Vec::new(),
                swap_data: Vec::new(),
                network_data_rx: Vec::new(),
                network_data_tx: Vec::new(),
            },
            data_collection: DataCollection::new(),
            app_config_fields,
            widget_layout,
        }
    }

    /// The index of the first widget with this id.
    pub fn find_widget(&self, widget_id: u64) -> (found: Option<usize>)
        ensures
            match found {
                Some(at) => at < self.widgets().len() && first_widget(self.widgets(), widget_id)
                    == Some(at as int),
                None => first_widget(self.widgets(), widget_id) is None,
            },
    {
        find_widget_in(&self.proc_state.widget_states, widget_id)
    }
}

/// The index of the first of the widgets with this id.
pub fn find_widget_in(widgets: &Vec<ProcWidgetState>, widget_id: u64) -> (found: Option<usize>)
    ensures
        match found {
            Some(at) => at < widgets@.len() && first_widget(widgets@, widget_id) == Some(at as int),
            None => first_widget(widgets@, widget_id) is None,
        },
{
    let mut at: usize = 0;
    while at < widgets.len()
        invariant
            at <= widgets.len(),
            forall|k: int| 0 <= k < at ==> (#[trigger] widgets@[k]).widget_id != widget_id,
        decreases widgets.len() - at,
    {
        if widgets[at].widget_id == widget_id {
            proof {
                lemma_first_widget(widgets@, widget_id, at as int);
            }
            return Some(at);
        }
        at = at + 1;
    }
    proof {
        lemma_no_widget(widgets@, widget_id);
    }
    None
}

/// Puts a widget among the widgets under its id: in the place of the first
/// widget with that id, or last where no widget has it.
pub fn insert_widget(widgets: &mut Vec<ProcWidgetState>, widget: ProcWidgetState)
    ensures
        final(widgets)@ == with_widget(old(widgets)@, widget),
        has_distinct_ids(old(widgets)@) ==> has_distinct_ids(final(widgets)@),
{
    proof {
        if has_distinct_ids(widgets@) {
            lemma_with_widget_keeps_distinct(widgets@, widget);
        }
    }
    match find_widget_in(widgets, widget.widget_id) {
        Some(at) => {
            widgets.set(at, widget);
        },
        None => {
            widgets.push(widget);
        },
    }
}

/// Recomputes the list of the widget at index `at` from the rows that the
/// display holds.
fn update_widget_at(app: &mut App, at: usize)
    requires
        at < old(app).widgets().len(),
    ensures
        old(app).keeps_ids(*final(app)),
        final(app).same_outside_processes(*old(app)),
        final(app).canvas_data.single_process_data == old(app).canvas_data.single_process_data,
        final(app).widgets().len() == old(app).widgets().len(),
        is_widget_update(
            rows_view(old(app).canvas_data.single_process_data@),
            old(app).widgets()[at as int],
            final(app).widgets()[at as int],
        ),
        forall|k: int|
            0 <= k < old(app).widgets().len() && k != at ==> #[trigger] final(app).widgets()[k]
                == old(app).widgets()[k],
{
    let mut widget = app.proc_state.widget_states.remove(at);
    widget.update_finalized(&app.canvas_data.single_process_data);
    app.proc_state.widget_states.insert(at, widget);
    proof {
        lemma_one_widget_changed(old(app).widgets(), app.widgets(), at as int);
    }
}

/// Where one widget changed and kept its id, the ids are as they were.
pub proof fn lemma_one_widget_changed(
    before: Seq<ProcWidgetState>,
    after: Seq<ProcWidgetState>,
    at: int,
)
    requires
        after.len() == before.len(),
        0 <= at < before.len(),
        after[at].widget_id == before[at].widget_id,
        forall|k: int| 0 <= k < before.len() && k != at ==> #[trigger] after[k] == before[k],
    ensures
        widget_ids(after) == widget_ids(before),
        has_distinct_ids(before) ==> has_distinct_ids(after),
{
    assert(widget_ids(after) =~= widget_ids(before)) by {
        assert forall|k: int| 0 <= k < before.len() implies widget_ids(after)[k] == widget_ids(
            before,
        )[k] by {
            if k != at {
                assert(after[k] == before[k]);
            }
        }
    }
    if has_distinct_ids(before) {
        lemma_same_ids_keep_distinct(before, after);
    }
}

/// Recomputes the finalized process list of one widget: the rows of the
/// retained snapshot (while frozen, the rows already on display) are
/// filtered, shaped and sorted under the widget's settings, and its scroll
/// position is clamped to the new list. An id that no widget has changes
/// nothing.
pub fn update_final_process_list(app: &mut App, widget_id: u64)
    ensures
        old(app).is_single_update(*final(app), widget_id),
        old(app).keeps_ids(*final(app)),
{
    match app.find_widget(widget_id) {
        Some(at) => {
            if !app.is_frozen {
                app.canvas_data.single_process_data = convert_process_data(
                    &app.data_collection.process_harvest,
                );
            }
            update_widget_at(app, at);
        },
        None => {},
    }
}

/// Recomputes the finalized process list of every widget. While the display
/// is frozen nothing changes.
pub fn update_all_process_lists(app: &mut App)
    ensures
        old(app).is_full_update(*final(app)),
        old(app).keeps_ids(*final(app)),
{
    if !app.is_frozen && app.proc_state.widget_states.len() > 0 {
        app.canvas_data.single_process_data = convert_process_data(
            &app.data_collection.process_harvest,
        );
        let ghost rows = old(app).current_rows();
        let mut at: usize = 0;
        while at < app.proc_state.widget_states.len()
            invariant
                at <= app.widgets().len(),
                old(app).keeps_ids(*app),
                app.same_outside_processes(*old(app)),
                rows == old(app).current_rows(),
                rows_view(app.canvas_data.single_process_data@) == rows,
                app.widgets().len() == old(app).widgets().len(),
                forall|k: int|
                    0 <= k < at ==> is_widget_update(
                        rows,
                        #[trigger] old(app).widgets()[k],
                        app.widgets()[k],
                    ),
                forall|k: int|
                    at <= k < app.widgets().len() ==> #[trigger] app.widgets()[k] == old(
                        app,
                    ).widgets()[k],
            decreases app.widgets().len() - at,
        {
            update_widget_at(app, at);
            at = at + 1;
        }
    }
}

/// Carries out the redraws that are pending. A request to recompute every
/// process list goes before a request for a single widget, which then stays
/// pending for the next call; each kind of graph that awaits a redraw gets
/// its points from the history.
pub fn handle_force_redraws(app: &mut App)
    ensures
        exists|mid: App| old(app).is_process_redraw(mid) && mid.is_graph_redraw(*final(app)),
        old(app).keeps_ids(*final(app)),
{
    if app.proc_state.force_update_all {
        update_all_process_lists(app);
        app.proc_state.force_update_all = false;
    } else {
        match app.proc_state.force_update {
            Some(widget_id) => {
                update_final_process_list(app, widget_id);
                app.proc_state.force_update = None;
            },
            None => {},
        }
    }
    let ghost mid = *app;
    proof {
        assert(old(app).is_process_redraw(mid));
    }
    if app.cpu_state.force_update.is_some() {
        app.canvas_data.cpu_data = app.data_collection.convert_cpu_data_points(app.is_frozen);
        app.cpu_state.force_update = None;
    }
    if app.mem_state.force_update.is_some() {
        app.canvas_data.mem_data = app.data_collection.convert_mem_data_points(app.is_frozen);
        app.canvas_data.swap_data = app.data_collection.convert_swap_data_points(app.is_frozen);
        app.mem_state.force_update = None;
    }
    if app.net_state.force_update.is_some() {
        let (rx, tx) = app.data_collection.get_rx_tx_data_points(app.is_frozen);
        app.canvas_data.network_data_rx = rx;
        app.canvas_data.network_data_tx = tx;
        app.net_state.force_update = None;
    }
    proof {
        assert(mid.is_graph_redraw(*app));
    }
}

} // verus!
