pub mod agent_supervisor;
pub mod agents_admin;
pub mod api;
pub mod approval_flow;
pub mod approval_token;
pub mod approvals;
pub mod attachment_api;
pub mod auth_rate_limit;
pub mod backend_spec;
pub mod backend_supervisor;
pub mod bundled_plugins;
pub mod chat_history;
pub mod chat_types;
pub mod dispatch;
pub mod json;
pub mod platform;
pub mod real_turn;
pub mod runner_turn;
pub mod send;
pub mod text;
pub mod threads;
pub mod tool_catalog;
pub mod transports;
pub mod turn_support;
