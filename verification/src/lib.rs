//! Verified core of the Magi API layer: request normalization, service
//! descriptors, bridge diagnostics, redaction and the pure decisions of the
//! browser, change and event-stream surfaces.

pub mod text;
pub mod api_error;
pub mod ids;
pub mod service;
pub mod session_action;
pub mod recovery;
pub mod json;
pub mod json_access;
pub mod scan;
pub mod ordering;
pub mod redaction;
pub mod bridge_dto;
pub mod tally;
pub mod bridge_summary;
pub mod bridge_checks;
pub mod bridge_preflight;
pub mod browser;
pub mod browser_args;
pub mod snapshot_text;
pub mod browser_snapshot;
pub mod change_projection;
pub mod read_model;
pub mod app_events;
pub mod a_path;
pub mod branch_plan;
pub mod turn_items;
pub mod session_summary;
pub mod recovery_read_model;
pub mod browser_requests;
pub mod dispatch_plan;
pub mod bootstrap_prune;
pub mod activity_read_model;
pub mod runtime_read_model;
pub mod notifications;
pub mod browser_lease;
