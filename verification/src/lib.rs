//! The verified core of an on-call agent: alerts come in by webhook, are folded into incidents,
//! triaged by a language model and investigated against a repository.
pub mod alert;
pub mod config;
pub mod grafana;
pub mod incident;
pub mod investigation;
pub mod json;
pub mod model;
pub mod pagerduty;
pub mod retry;
pub mod text;
pub mod text_map;
pub mod time;
pub mod triage;
pub mod url;
pub mod webhook;
