//! senv's decision logic: policy compilation, trust baselines, denial
//! inference and the text handling that frames untrusted output.

pub mod cmd;
pub mod config;
pub mod error;
pub mod exec;
pub mod lines;
pub mod manifest;
pub mod order;
pub mod paths;
pub mod policy;
pub mod project;
pub mod receipt;
pub mod text;
pub mod toml_value;
pub mod trust;
pub mod util;
pub mod uv;
