//! The rules of the benchmark programs: what they run, what they expect, and
//! how they judge what was measured.

pub mod aggregate;
pub mod aggregate_retention;
pub mod checkpoint_construction;
pub mod current_projection;
pub mod current_projection_tail;
pub mod current_reader;
pub mod fixture;
pub mod leaf_read_path;
pub mod measurement_laws;
pub mod pending_isolation;
pub mod process_memory;
pub mod profile;
pub mod projection_laws;
pub mod projection_routing;
pub mod provenance;
pub mod report_laws;
pub mod scan;
pub mod scan_laws;
pub mod statistics;
pub mod storage_layout;
