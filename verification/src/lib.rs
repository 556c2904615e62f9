//! A verified core for running language-model agents.

pub mod agent;
pub mod assembler;
pub mod assembler_laws;
pub mod attempt;
pub mod batch_laws;
pub mod completion;
pub mod context;
pub mod conversation;
pub mod conversation_laws;
pub mod deep;
pub mod drive;
pub mod drive_laws;
pub mod driver;
pub mod hook;
pub mod hook_context;
pub mod hook_laws;
pub mod json;
pub mod message;
pub mod names;
pub mod one_or_many;
pub mod params;
pub mod prompt_response;
pub mod request;
pub mod run;
pub mod run_laws;
pub mod runner;
pub mod services;
pub mod source_laws;
pub mod stream_item;
pub mod stream_laws;
pub mod streamed;
pub mod streaming;
pub mod strings;
pub mod text_laws;
pub mod tool;
pub mod tool_batch;
pub mod tool_run;
pub mod turn;
pub mod turn_laws;
pub mod turn_source;
pub mod usage;
