pub mod session;
pub mod text;
pub mod timing;
pub mod protocol;
pub mod config;
pub mod fs;
pub mod buffer_pool;
pub mod net;
pub mod server;
pub mod ipc;
pub mod log_buffer;
