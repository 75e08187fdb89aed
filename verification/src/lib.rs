//! Verified core of a conversational agent gateway.
pub mod check_cron;
pub mod check_laws;
pub mod check_memory;
pub mod check_models;
pub mod check_parts;
pub mod check_people;
pub mod check_provider;
pub mod check_report;
pub mod command_laws;
pub mod commands;
pub mod compact_session;
pub mod compaction;
pub mod compaction_laws;
pub mod compaction_store;
pub mod config;
pub mod config_check;
pub mod config_laws;
pub mod config_tool;
pub mod config_watcher;
pub mod config_write;
pub mod cron_delivery;
pub mod cron_laws;
pub mod cron_runner;
pub mod cron_timezone;
pub mod cron_tool;
pub mod final_reply;
pub mod gateway;
pub mod gateway_laws;
pub mod group_history;
pub mod group_trigger;
pub mod heartbeat;
pub mod image_tools;
pub mod json;
pub mod keyed;
pub mod message;
pub mod models;
pub mod prompt;
pub mod repair;
pub mod report_laws;
pub mod session;
pub mod setup_laws;
pub mod stream;
pub mod text;
pub mod text_laws;
pub mod turn;
pub mod turn_facts;
pub mod turn_laws;
pub mod usage;
pub mod warning_laws;
