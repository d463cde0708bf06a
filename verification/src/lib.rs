//! The core of an interactive terminal resource monitor: the process-table
//! engine (filter, shape, sort, clamp), the retained metric history, and the
//! dispatch of input and update events onto the application state.
//!
//! Everything here works on plain values. Usage figures are fixed-point
//! integers (thousandths of a percent), times are milliseconds, and input
//! events, colours and snapshots are types of this crate; the program
//! around it converts to and from the terminal's and the harvester's own.

pub mod ancestry;
pub mod app;
pub mod colour;
pub mod commands;
pub mod config;
pub mod events;
pub mod grouping;
pub mod history;
pub mod input;
pub mod layout;
pub mod process;
pub mod scheduler;
pub mod search;
pub mod sorting;
pub mod text;
pub mod tree;
pub mod widget;

pub use app::{handle_force_redraws, update_all_process_lists, update_final_process_list};
pub use commands::{handle_key_event_or_break, handle_mouse_event};
pub use config::generate_config_colours;
pub use events::{BottomEvent, ResetEvent};
pub use process::Pid;
pub use widget::sort_process_data;
