//! Verified core of a TFTP server: wire format, transfer state machines,
//! configuration parsing and request-path policy, and the state behind its
//! graphical and terminal front ends.

pub mod gui;
pub mod tftp;
pub mod tui;
