//! Disk-space reclamation engine: cleanup targets, the recursive size
//! aggregation over directory snapshots, deletion plans, and the
//! scan/clean session state machine that drives them.
//!
//! The filesystem is read by the caller into `FsNode` snapshots; the
//! library measures them, decides what to delete, and accounts for the
//! outcome of the deletions the caller carries out.

pub mod catalog;
pub mod cleaner;
pub mod cleanup_items;
pub mod error;
pub mod fs_tree;
pub mod platform;
pub mod session;

pub use catalog::{build_catalog, get_all_cleanup_items, join_path, HostDirs};
pub use cleaner::{
    decimal_text, dry_run_clean, get_dir_size, mib_two_decimals, tally_attempts, Attempt,
    CleanResult,
};
pub use cleanup_items::{
    aggregate, aggregate_temp_files, directory_deletions, temp_file_deletions, CleanPlan,
    CleanupItem, CleanupResult, CleanupType,
};
pub use error::CleanError;
pub use fs_tree::{chars_of, contains_infix, is_temp_file_name, Deletion, FsNode};
pub use platform::clean_recycle_bin;
pub use session::{App, AppState, KEY_COOLDOWN_MS};
