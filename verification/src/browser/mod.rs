//! The browser database layer.

pub mod buffer;
pub mod buffer_error;
pub mod buffer_laws;
pub mod command;
pub mod db;
pub mod durability_laws;
pub mod fault_laws;
pub mod guard;
pub mod image;
pub mod image_laws;
pub mod indexeddb;
pub mod maintenance;
pub mod mutation;
pub mod open;
pub mod paging;
pub mod projected_query;
pub mod projected_query_laws;
pub mod projection_rebuild;
pub mod publication;
pub mod read_loop;
pub mod read_view;
pub mod receipt_laws;
pub mod replacement;
pub mod report_laws;
pub mod write;
