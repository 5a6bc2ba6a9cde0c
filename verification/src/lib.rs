//! Verified core of the desktop-control harness: element ids, selectors over
//! accessibility trees, the sensitive-app policy, report builders and the
//! decision logic of the polling and input tools. I/O lives with the callers.

pub mod error;
pub mod find;
pub mod id;
pub mod paths;
pub mod policy;
pub mod text;
pub mod types;
pub mod wait;
pub mod walk;
pub mod doctor;
pub mod input;
pub mod audit;
pub mod launch;
pub mod tree;
pub mod order;
pub mod selftest;
pub mod field;
pub mod capture;
pub mod action;
pub mod faces;
pub mod catalog;
