//! Verified core of a toolkit that studies which Windows kernel trace flags and
//! PERFINFO group masks enable which FileIo / FltIo events.

pub mod combos;
pub mod compare;
pub mod aggregate;
pub mod event_defs;
pub mod flag_comparison;
pub mod flt_events;
pub mod group_mask;
pub mod tally;
pub mod text;
pub mod clock;
pub mod scan;
pub mod guid;
pub mod tdh_config;
pub mod fabricate;
pub mod tdh_types;
pub mod type_files;
pub mod tdh_result;
pub mod log_format;
pub mod fileio_registry;
pub mod persist;
pub mod cumulative;
pub mod trace_test;
pub mod perf_analysis;
pub mod opcode_sets;
pub mod discovery;
pub mod discovery_report;
pub mod flag_test;
pub mod probe_lines;
pub mod discovery_display;
pub mod guid_literal;
pub mod provider_decl;
pub mod parsed_comparison;
pub mod guid_roundtrip;
