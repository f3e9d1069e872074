//! State behind the graphical front end: the editable forms of the
//! configuration and the ACL, the log view, the transfer table, the
//! colours and the tray.

pub mod tabs;
pub mod theme;
pub mod tray;
