//! Chat Completions wire layer: request assembly, stream decoding, tool
//! specifications and the patch tool's decisions, with verified contracts.

pub mod apply_patch;
pub mod call_laws;
pub mod headers;
pub mod history;
pub mod json;
pub mod message;
pub mod message_laws;
pub mod multi_agent;
pub mod patch_laws;
pub mod patch_paths;
pub mod patch_progress;
pub mod protocol;
pub mod reasoning_laws;
pub mod request;
pub mod request_laws;
pub mod stream;
pub mod stream_laws;
pub mod stream_step_laws;
pub mod text;
pub mod tool_calls;
pub mod tool_spec;
pub mod tool_spec_laws;
pub mod trace_laws;
pub mod transport;
pub mod turn_laws;
pub mod usage;
pub mod value_laws;
pub mod view_laws;
