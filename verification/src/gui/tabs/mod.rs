pub mod acl_tab;
pub mod config_tab;
pub mod dashboard;
pub mod files;
pub mod help_tab;
pub mod log_tab;
pub mod transfers;
