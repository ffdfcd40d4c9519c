//! Verified core of the `br` issue-tracker commands.

pub mod digest;
pub mod doctor_subsystems;
pub mod epic;
pub mod error;
pub mod filters;
pub mod history;
pub mod hooks;
pub mod info;
pub mod init;
pub mod json;
pub mod lint;
pub mod model;
pub mod numbers;
pub mod orphans;
pub mod paths;
pub mod promises;
pub mod q;
pub mod recovery;
pub mod routing;
pub mod sanitize;
pub mod shell;
pub mod show;
pub mod show_external;
pub mod show_jsonl;
pub mod show_render;
pub mod shown;
pub mod sizes;
pub mod sorting;
pub mod spans;
pub mod text;
pub mod time;
pub mod workspace;
pub mod wrap;
