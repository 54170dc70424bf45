//! A plugin toolbox core: a process-wide registry of independently authored
//! plugins and the tools they contribute, with verified name-uniqueness,
//! all-or-nothing registration and complete unloading, together with the
//! built-in text and file tools and the text utilities they rest on.

pub mod config;
pub mod error;
pub mod file;
pub mod file_tools;
pub mod plugin;
pub mod strings;
pub mod text;
pub mod text_tools;
pub mod tool;

pub use config::AppConfig;
pub use error::ToolError;
pub use plugin::{Plugin, PluginManager};
pub use tool::{Tool, ToolCategory, ToolContext, ToolResult};
