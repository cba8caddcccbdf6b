//! Verified core of a PPPoE auto dialer for Windows.
//!
//! The library holds the rules and leaves the calls of the Windows API to its
//! caller: it is told what a call returned and says what to do next.
pub mod backoff;
pub mod cli;
pub mod config;
pub mod error;
pub mod link;
pub mod lists;
pub mod logger;
pub mod notice;
pub mod once;
pub mod ras;
pub mod service;
pub mod svc_install;
pub mod text;
pub mod utf16;
pub mod worker;
