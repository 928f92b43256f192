pub mod app_config;
pub mod assoc;
pub mod dsh_config;
pub mod error;
pub mod json;
pub mod kimicode_config;
pub mod mcp;
pub mod json_text;
pub mod paths;
pub mod session_manager;
pub mod text;
pub mod toml_tree;
pub mod toml_text;
pub mod yaml;
pub mod yaml_text;
