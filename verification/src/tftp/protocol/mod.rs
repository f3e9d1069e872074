pub mod bytes_buf;
pub mod packet;
