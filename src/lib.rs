//! Wait and notification core: event sources, single-use waits on them, and a
//! multiplexer that drains every wait that became ready with one wake.
//!
//! Sources live in a table owned by the caller and are named by an identifier;
//! a wait names its source by that identifier. Completion work is described by
//! action identifiers that the caller dispatches, in the order returned.

mod event;
mod handle;
mod multiplex;
mod shell;

pub use event::{
    chain_runs_own_actions_first, racing_trigger_is_never_lost, trigger_is_idempotent,
    trigger_makes_waits_ready, ActionId, EventSource, EventWait, SleeperId, SourceView, WaitView,
};
pub use handle::{ReadHandle, WriteHandle};
pub use multiplex::{
    any_ready, bind_all, complete_ready, covers, drained, in_table, multiplex_drains_all_ready,
    named_by, ready_actions, ready_in_table, source_views, table_wf, wait_on_list, wait_ready,
    wait_views, WaitError, WaitStep,
};
pub use shell::{
    open_exec, open_exec_spec, start_app, start_app_console, start_app_editor,
    start_app_filebrowser, AppLaunch, FileRequest, Handoff, OpenMode, ProcessStart, CONSOLE_IMAGE,
    EDITOR_DOCUMENT, FILEBROWSER_IMAGE, VIEWER_IMAGE,
};
