//! Classification of combat-log recordings (EVTC), and the small records and
//! texts of the plugin that uploads them.
//!
//! The recording side reads a raw log, or the single DEFLATE member of its ZIP
//! container, walks the header, agent table and skill table, and scans the
//! combat events for the map, the recording player and the squad commander.

pub mod agent;
pub mod bytes;
pub mod clock;
pub mod common;
pub mod container;
pub mod formatting;
pub mod history;
pub mod logfile;
pub mod map_type;
pub mod phases;
pub mod progress;
pub mod scan;
pub mod scanning;
pub mod session;
pub mod settings;
pub mod state;
pub mod text;
pub mod uploaded;
pub mod webhooks;
