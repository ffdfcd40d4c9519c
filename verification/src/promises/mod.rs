//! What the commands promise, stated over what they are given and what they give back.

pub mod apply;
pub mod changes;
pub mod epic;
pub mod family;
pub mod flow;
pub mod found;
pub mod history;
pub mod info;
pub mod init;
pub mod jsonl;
pub mod lint;
pub mod migration;
pub mod orphans;
pub mod quick;
pub mod registry;
pub mod runs;
pub mod show;
pub mod told;
pub mod upkeep;
pub mod values;
pub mod words;
