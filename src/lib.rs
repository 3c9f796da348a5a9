pub mod buffer;
pub mod session;
