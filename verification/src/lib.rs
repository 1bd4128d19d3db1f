//! Decisions behind a keep-warm scheduler for subscription accounts.

pub mod account;
pub mod chart;
pub mod claude;
pub mod claude_flow;
pub mod codex;
pub mod flow;
pub mod history;
pub mod json;
pub mod labels;
pub mod laws;
pub mod panel;
pub mod plan;
pub mod schedule;
pub mod search;
pub mod snapshot;
pub mod startup;
pub mod state;
pub mod storage;
pub mod text;
pub mod time;
pub mod window;
