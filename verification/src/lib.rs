//! A kernel that schedules agent work under human approval.

pub mod adapter;
pub mod approvals;
pub mod arches;
pub mod artefacts;
pub mod authority_laws;
pub mod boot;
pub mod call_laws;
pub mod challenges;
pub mod confine;
pub mod devices;
pub mod dispatch;
pub mod dispatch_laws;
pub mod durable;
pub mod durable_laws;
pub mod durable_rows;
pub mod durable_runs;
pub mod endpoint_laws;
pub mod error;
pub mod expiring;
pub mod governance;
pub mod harness;
pub mod harness_laws;
pub mod hash;
pub mod infer;
pub mod infer_laws;
pub mod ir;
pub mod ir_laws;
pub mod json;
pub mod json_laws;
pub mod keeping;
pub mod kernel;
pub mod labels;
pub mod launch;
pub mod leases;
pub mod listing;
pub mod machine_laws;
pub mod manifest;
pub mod mcp;
pub mod method_laws;
pub mod methods;
pub mod mock;
pub mod model;
pub mod mount;
pub mod netwatch;
pub mod node_laws;
pub mod ns;
pub mod opening;
pub mod outside;
pub mod path;
pub mod presence;
pub mod pretty;
pub mod principal;
pub mod projection;
pub mod projection_laws;
pub mod reading;
pub mod reading_laws;
pub mod record_laws;
pub mod recovery;
pub mod register;
pub mod release_laws;
pub mod reopening_laws;
pub mod rpc;
pub mod run_laws;
pub mod runs;
pub mod scheduler;
pub mod scheduler_laws;
pub mod screen_laws;
pub mod screens;
pub mod settings;
pub mod step_laws;
pub mod stops;
pub mod store;
pub mod table;
pub mod task;
pub mod task_laws;
pub mod tasks;
pub mod text;
pub mod text_laws;
pub mod top;
pub mod transport;
pub mod wire;
pub mod wire_laws;
pub mod workspace;
pub mod workspace_laws;
