//! Observes macOS virtual-desktop ("Space") switches and reports the active
//! Space's 1-based ordinal.
//!
//! The crate is split in two layers. This library holds the logic: the
//! resolver, which turns a snapshot of per-display space metadata into the
//! ordinal of the active space (or the sentinel `-1`), and the monitor, which
//! caches the last ordinal and emits exactly one event per transition. The
//! host-integration layer fetches the snapshots from the window server and
//! drives the monitor from the OS notification loop.

mod monitor;
mod resolver;

pub use monitor::MonitorEvent;
pub use monitor::SpaceMonitor;
pub use monitor::lemma_first_event_suppressed;
pub use monitor::lemma_repeat_emits_nothing;
pub use monitor::lemma_transition_emits_once;
pub use monitor::run_emitted;
pub use monitor::run_last;
pub use monitor::step_emits;
pub use monitor::step_last;
pub use resolver::DisplayRecord;
pub use resolver::SpaceRecord;
pub use resolver::active_space_id;
pub use resolver::all_real_ids;
pub use resolver::compute_active_ordinal;
pub use resolver::display_qualifies;
pub use resolver::display_real_ids;
pub use resolver::first_pos;
pub use resolver::lemma_all_real_ids_concat;
pub use resolver::lemma_earlier_spaces_shift_ordinal;
pub use resolver::lemma_empty_snapshot;
pub use resolver::lemma_no_qualifying_display;
pub use resolver::lemma_reorder_stable;
pub use resolver::lemma_resolver_idempotent;
pub use resolver::lemma_tiling_space_invisible;
pub use resolver::ordinal_in;
pub use resolver::real_ids_of_spaces;
pub use resolver::resolve_ordinal;
pub use resolver::wf_display;
