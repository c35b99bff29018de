pub mod agent;
pub mod cli;
pub mod anthropic;
pub mod history;
pub mod json;
pub mod mcp;
pub mod message;
pub mod ollama;
pub mod plain;
pub mod routing;
pub mod text;
pub mod tool;
pub mod toolcall;
pub mod tools;
