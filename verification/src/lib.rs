//! Verified core of an edge LLM runtime: prompt construction, response
//! cleaning, plugin routing and the helpers its plugins rely on.
pub mod text;
pub mod prompt_engine;
pub mod llm;
pub mod json;
pub mod summary;
pub mod plugin_manager;
pub mod sha256;
pub mod errors;
pub mod security;
pub mod telegram;
pub mod plugins;
pub mod agent;
pub mod llm_client;
pub mod chat;
pub mod scheduler;
pub mod plugin_tools;
pub mod api;
