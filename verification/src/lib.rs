//! Compliance-gap calculator and paginated report compositor for a tiered
//! purchase-promotion program.
//!
//! The library computes, per customer, how many more units of which products
//! must be bought to reach the next qualifying tier, renders that information
//! as plain text and as abstract page-layout operations, and plans the
//! per-customer archive of report documents.

pub mod archive;
pub mod book;
pub mod border;
pub mod compose;
pub mod detail;
pub mod gap;
pub mod model;
pub mod ops;
pub mod qty;
pub mod report;
pub mod textfmt;
pub mod tree;
