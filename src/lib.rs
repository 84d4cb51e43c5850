//! Downloading a range of hourly log archives from the Papertrail API.
//!
//! The library holds the logic of a download run: the expansion of a date
//! range into hour units, the request and file name of each unit, the
//! decision taken on each response, and the bounded scheduler that keeps at
//! most a fixed number of units in flight and counts their outcomes.
//! Transport, disk writes, threads and progress rendering are left to the
//! caller, which hands the library plain values.

pub mod hour;
pub mod expand;
pub mod fetch;
pub mod store;
pub mod schedule;
