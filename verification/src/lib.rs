//! Status sharing and bus arbitration for a networked e-ink badge.
//!
//! Two cooperating tasks run on one controller: one joins the wireless network
//! and learns the assigned address, the other redraws the display. This crate
//! holds the rules both tasks follow, each with a machine-checked contract.

pub mod address;
pub mod bounded;
pub mod bus;
pub mod connect;
pub mod render;
pub mod status;
