//! The events of the event loop and what each does to the application
//! state.

use vstd::prelude::*;
use crate::app::{App, CanvasData, GraphState, ProcState, update_all_process_lists};
use crate::commands::{LoopAction, handle_key_event_or_break, handle_mouse_event, loop_action};
use crate::history::{Data, DataCollection, fresh_samples};
use crate::input::{KeyEvent, MouseEvent, key_binding};

verus! {

/// An event on the channel to the event loop: input of kind `I` from the
/// keyboard and of kind `J` from the mouse, a harvested snapshot, or the
/// periodic request to prune the history.
pub enum BottomEvent<I, J> {
    KeyInput(I),
    MouseInput(J),
    Update(Box<Data>),
    Clean,
}

/// A message on the control channel to the harvest thread.
#[derive(Clone, Copy, Debug, PartialEq, Eq, Structural)]
pub enum ResetEvent {
    /// Forget the baselines of the cumulative counters.
    Reset,
}

/// The retention window of the history, in milliseconds.
pub const STALE_MAX_MILLISECONDS: u64 = 60000;

/// The longest wait of the event loop for an event, in milliseconds.
pub const TICK_RATE_IN_MILLISECONDS: u64 = 200;

impl App {
    /// `after` is `self` after a snapshot has arrived. While frozen the
    /// snapshot is discarded and nothing changes. Else the snapshot is
    /// merged into the history, the graphs are recomputed, and every
    /// widget's process list is recomputed from it.
    pub open spec fn is_update_handled(&self, after: App, data: Data) -> bool {
        if self.is_frozen {
            after == *self
        } else {
            exists|merged: App|
                self.is_snapshot_merged(data, merged) && merged.is_full_update(after)
        }
    }

    /// `after` is `self` with the history pruned at `now`: the samples older
    /// than the retention window are gone and the others stay. The
    /// snapshot and the widgets' lists are untouched.
    pub open spec fn is_cleaned(&self, after: App, now: u64) -> bool {
        &&& after == (App {
            data_collection: DataCollection {
                timed_data_vec: after.data_collection.timed_data_vec,
                ..self.data_collection
            },
            ..*self
        })
        &&& after.data_collection.timed_data_vec@ == fresh_samples(
            self.data_collection.timed_data_vec@,
            now as nat,
            STALE_MAX_MILLISECONDS as nat,
        )
    }

    /// `cleared` is `self` unfrozen, with an empty history without a
    /// baseline, empty graphs, no rows and no pending redraw; the widgets
    /// are as they were.
    pub open spec fn is_cleared(&self, cleared: App) -> bool {
        &&& cleared == (App {
            is_frozen: false,
            proc_state: ProcState {
                force_update: None,
                force_update_all: false,
                ..self.proc_state
            },
            cpu_state: GraphState { force_update: None },
            mem_state: GraphState { force_update: None },
            net_state: GraphState { force_update: None },
            canvas_data: cleared.canvas_data,
            data_collection: cleared.data_collection,
            ..*self
        })
        &&& cleared.data_collection.current_instant == 0
        &&& cleared.data_collection.frozen_instant is None
        &&& cleared.data_collection.timed_data_vec@.len() == 0
        &&& cleared.data_collection.network_baseline is None
        &&& cleared.data_collection.process_harvest@.len() == 0
        &&& cleared.data_collection.disk_harvest@.len() == 0
        &&& cleared.data_collection.temp_harvest@.len() == 0
        &&& cleared.data_collection.battery_harvest@.len() == 0
        &&& cleared.canvas_data.single_process_data@.len() == 0
        &&& cleared.canvas_data.cpu_data@.len() == 0
        &&& cleared.canvas_data.mem_data@.len() == 0
        &&& cleared.canvas_data.swap_data@.len() == 0
        &&& cleared.canvas_data.network_data_rx@.len() == 0
        &&& cleared.canvas_data.network_data_tx@.len() == 0
    }

    /// `after` is `self` after a reset: the retained data is cleared, and
    /// every widget's list is recomputed from the empty snapshot.
    pub open spec fn is_reset(&self, after: App) -> bool {
        exists|cleared: App| self.is_cleared(cleared) && cleared.is_full_update(after)
    }

    /// Takes a harvested snapshot. While the display is frozen the snapshot
    /// is discarded; else it is merged into the history and everything on
    /// display is recomputed.
    pub fn handle_update(&mut self, data: Data)
        ensures
            old(self).is_update_handled(*final(self), data),
            old(self).keeps_ids(*final(self)),
    {
        if !self.is_frozen {
            self.data_collection.eat_data(data);
            self.canvas_data.cpu_data = self.data_collection.convert_cpu_data_points(false);
            self.canvas_data.mem_data = self.data_collection.convert_mem_data_points(false);
            self.canvas_data.swap_data = self.data_collection.convert_swap_data_points(false);
            let (rx, tx) = self.data_collection.get_rx_tx_data_points(false);
            self.canvas_data.network_data_rx = rx;
            self.canvas_data.network_data_tx = tx;
            let ghost merged = *self;
            proof {
                assert(old(self).is_snapshot_merged(data, merged));
            }
            update_all_process_lists(self);
        }
    }

    /// Prunes the history at `now`: samples older than the retention window
    /// are dropped.
    pub fn handle_clean(&mut self, now: u64)
        ensures
            old(self).is_cleaned(*final(self), now),
            old(self).keeps_ids(*final(self)),
    {
        self.data_collection.clean_data(now, STALE_MAX_MILLISECONDS);
    }

    /// Clears the retained data after the harvest thread has been told to
    /// start over, so that the next snapshot is taken as the first.
    pub fn reset(&mut self)
        ensures
            old(self).is_reset(*final(self)),
            old(self).keeps_ids(*final(self)),
    {
        self.is_frozen = false;
        self.proc_state.force_update = None;
        self.proc_state.force_update_all = false;
        self.cpu_state = GraphState { force_update: None };
        self.mem_state = GraphState { force_update: None };
        self.net_state = GraphState { force_update: None };
        self.data_collection.reset();
        self.canvas_data = CanvasData {
            single_process_data: Vec::new(),
            cpu_data: Vec::new(),
            mem_data: Vec::new(),
            swap_data: Vec::new(),
            network_data_rx: Vec::new(),
            network_data_tx: Vec::new(),
        };
        let ghost cleared = *self;
        proof {
            assert(old(self).is_cleared(cleared));
        }
        update_all_process_lists(self);
    }
}

/// The freeze invariant: while the display is frozen, snapshots change
/// nothing, however many arrive; every widget's list stays as it is.
pub proof fn lemma_frozen_updates_change_nothing(
    app: App,
    first: Data,
    after_first: App,
    second: Data,
    after_second: App,
)
    requires
        app.is_frozen,
        app.is_update_handled(after_first, first),
        after_first.is_update_handled(after_second, second),
    ensures
        after_first == app,
        after_second == app,
{
}

/// After a reset the next snapshot is taken as the first: the history
/// holds its sample alone, and the sample's rates are 0 whatever the
/// snapshot's counters hold.
pub proof fn lemma_reset_restarts_rates(app: App, cleared: App, data: Data, after: App)
    requires
        app.is_reset(cleared),
        cleared.is_update_handled(after, data),
    ensures
        after.data_collection.timed_data_vec@.len() == 1,
        after.data_collection.timed_data_vec@[0].rx_rate == 0,
        after.data_collection.timed_data_vec@[0].tx_rate == 0,
        after.data_collection.timed_data_vec@[0].time == data.collection_time,
{
    let emptied = choose|emptied: App| app.is_cleared(emptied) && emptied.is_full_update(cleared);
    assert(cleared.data_collection == emptied.data_collection);
    assert(!cleared.is_frozen);
    let merged = choose|merged: App|
        cleared.is_snapshot_merged(data, merged) && merged.is_full_update(after);
    assert(after.data_collection == merged.data_collection);
    assert(cleared.data_collection.timed_data_vec@ =~= Seq::empty());
}

/// `after` is `app` after an event that arrived at `now`.
pub open spec fn is_event_handled(
    app: App,
    after: App,
    event: BottomEvent<KeyEvent, MouseEvent>,
    now: u64,
) -> bool {
    match event {
        BottomEvent::KeyInput(key) => app.is_command_applied(
            after,
            key_binding(key, app.in_search()),
        ),
        BottomEvent::MouseInput(mouse) => app.is_mouse_handled(after, mouse),
        BottomEvent::Update(data) => app.is_update_handled(after, *data),
        BottomEvent::Clean => app.is_cleaned(after, now),
    }
}

/// What the event loop does after an event: only a key can end the loop or
/// ask for a reset.
pub open spec fn action_after(app: App, event: BottomEvent<KeyEvent, MouseEvent>) -> LoopAction {
    match event {
        BottomEvent::KeyInput(key) => loop_action(key_binding(key, app.in_search())),
        _ => LoopAction::Continue,
    }
}

/// One step of the event loop: applies an event, which arrived at `now`, to
/// the application state, and says what the loop is to do next.
pub fn handle_event(app: &mut App, event: BottomEvent<KeyEvent, MouseEvent>, now: u64) -> (action:
    LoopAction)
    ensures
        is_event_handled(*old(app), *final(app), event, now),
        action == action_after(*old(app), event),
        old(app).keeps_ids(*final(app)),
{
    match event {
        BottomEvent::KeyInput(key) => handle_key_event_or_break(key, app),
        BottomEvent::MouseInput(mouse) => {
            handle_mouse_event(mouse, app);
            LoopAction::Continue
        },
        BottomEvent::Update(data) => {
            app.handle_update(*data);
            LoopAction::Continue
        },
        BottomEvent::Clean => {
            app.handle_clean(now);
            LoopAction::Continue
        },
    }
}

} // verus!
