//! A roadmap kept as YAML files beside the code: phases, tasks, bugs and
//! feature requests, with the reports, checks and exports computed from them.

pub mod model;
pub mod text;
pub mod data;
pub mod doctor;
pub mod next;
pub mod report;
pub mod tracker;
pub mod phase_ops;
pub mod templates;
pub mod hooks;
pub mod log;
pub mod search;
pub mod export;
pub mod matching;
pub mod coverage;
pub mod scan;
pub mod context;
pub mod show;
pub mod credentials;
pub mod update;
pub mod web;
pub mod auth;
pub mod presence;
pub mod generate;
pub mod remote;
pub mod laws;
