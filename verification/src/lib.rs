//! The decisions of stop hooks and of ad-hoc memory notes, with their contracts.
//!
//! Nothing here runs a command or touches a file: a caller performs that work and
//! hands the results in as plain values.
pub mod ad_hoc;
pub mod ad_hoc_note;
pub mod changed_files;
pub mod engine;
pub mod operation_laws;
pub mod output_parser;
pub mod path_order;
pub mod protocol;
pub mod stop;
pub mod stop_laws;
pub mod stop_operation_laws;
pub mod stop_run;
pub mod text;
