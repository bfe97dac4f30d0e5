//! Stable file identities.
//!
//! Given the numbers with which an operating system names a file object
//! (device and inode on POSIX systems, volume serial number and file index
//! on Windows), this crate composes an opaque identity string of the form
//! `"<primary>:<secondary>"`, such that two paths name the same underlying
//! file object exactly when their identity strings are equal.
//!
//! Querying the operating system for those numbers is I/O and lives outside
//! this library; the library receives them as plain values and is verified.

pub mod decimal;
pub mod identity;
