//! Policies, state machines and projections for an agent harness.
pub mod agent_loop;
pub mod ask;
pub mod asking;
pub mod calendar;
pub mod capabilities;
pub mod compaction;
pub mod compaction_laws;
pub mod consent_laws;
pub mod data;
pub mod delegation_laws;
pub mod dump;
pub mod effort;
pub mod events;
pub mod exchange_laws;
pub mod findings;
pub mod front_laws;
pub mod handle;
pub mod history_laws;
pub mod json;
pub mod layout_laws;
pub mod llm;
pub mod log;
pub mod loop_policy;
pub mod message;
pub mod occurrence;
pub mod offer_laws;
pub mod order;
pub mod permission_laws;
pub mod persona;
pub mod plugins;
pub mod policy;
pub mod policy_rows;
pub mod projection;
pub mod projection_laws;
pub mod protocol;
pub mod recall;
pub mod recall_laws;
pub mod recovery;
pub mod registries;
pub mod roles;
pub mod self_knowledge;
pub mod service_laws;
pub mod session;
pub mod session_title;
pub mod span;
pub mod span_laws;
pub mod strategy;
pub mod stream;
pub mod subagent;
pub mod subscriptions;
pub mod table;
pub mod team;
pub mod team_laws;
pub mod telling_laws;
pub mod text;
pub mod text_laws;
pub mod todo_reminder;
pub mod tool_exec;
pub mod tools;
pub mod trace;
pub mod truncation;
pub mod truncation_laws;
pub mod turn;
pub mod turn_laws;
pub mod ui;
pub mod ui_jsonrpc;
pub mod ui_tui;
