//! The decision core of an IM gateway that drives external command-line agents:
//! command construction, progress parsing, session bookkeeping, Feishu event
//! normalisation and rule resolution, each with a machine-checked contract.

pub mod active_runs;
pub mod agent_config;
pub mod card_action;
pub mod card_laws;
pub mod command_laws;
pub mod command_spec;
pub mod digest;
pub mod feishu;
pub mod feishu_api;
pub mod feishu_api_laws;
pub mod feishu_connection;
pub mod feishu_laws;
pub mod feishu_requests;
pub mod feishu_tokens;
pub mod gateway_config;
pub mod gateway_laws;
pub mod im_event;
pub mod json;
pub mod local_session_laws;
pub mod local_sessions;
pub mod map;
pub mod metadata;
pub mod metadata_laws;
pub mod model_config;
pub mod model_laws;
pub mod models;
pub mod path_laws;
pub mod paths;
pub mod progress;
pub mod progress_laws;
pub mod request;
pub mod resolver;
pub mod resolver_laws;
pub mod run_laws;
pub mod runs;
pub mod runtime;
pub mod session_laws;
pub mod session_state;
pub mod sort;
pub mod text;
pub mod text_laws;
