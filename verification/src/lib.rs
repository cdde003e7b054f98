//! Verified core logic of the Brocode agent.
pub mod brocode_thread;
pub mod home_dir;
pub mod json;
pub mod mcp_openai_file;
pub mod text;
