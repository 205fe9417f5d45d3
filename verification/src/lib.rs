//! Verified core of a model gateway: request routing, usage billing, stream
//! adaptation between provider protocols, and dashboard rules.
pub mod text;
pub mod glob;
pub mod billing_rate_store;
pub mod transforms;
pub mod custom_transforms;
pub mod decimal;
pub mod urp;
pub mod model_registry_store;
pub mod app;
pub mod handlers;
pub mod config;
pub mod monoize_routing;
pub mod error;
pub mod users;
pub mod dashboard_handlers;
pub mod settings;
pub mod auth;
pub mod bounded_response;
pub mod db;
pub mod glob_laws;
pub mod frontend;
pub mod json;
pub mod usage;
pub mod reasoning;
pub mod responses_stream;
pub mod chat_responses_stream;
pub mod gemini_stream;
pub mod messages_responses_stream;
pub mod messages_stream;
pub mod chat_stream;
pub mod responses_passthrough;
pub mod sse;
pub mod forwarding;
pub mod synthetic_stream;
pub mod breakdown;
pub mod request_body;
pub mod api_key_cache;
