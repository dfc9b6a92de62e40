//! The logic of the bundled plugin programs: how each reads its request,
//! validates and parses arguments, and words its replies. Their system
//! calls, network requests and databases are outside.
pub mod common;
pub mod weather;
pub mod reminders;
pub mod files;
pub mod web;
pub mod gpio;
pub mod updater;
pub mod net;
pub mod sysinfo;
pub mod calculator;
pub mod kb;
pub mod logs;
pub mod datetime;
