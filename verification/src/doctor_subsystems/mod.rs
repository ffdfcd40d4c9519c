//! The doctor: reviewed schema migration, the mutation chokepoint, run directories and the
//! capabilities document.

pub mod apply;
pub mod capabilities_doctor;
pub mod encoding;
pub mod family;
pub mod maintenance;
pub mod mutate;
pub mod mutate_db;
pub mod receipts;
pub mod round_trip;
pub mod run_dir;
pub mod schema_migration;
pub mod undo;
pub mod witness;
