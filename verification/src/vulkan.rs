pub mod buffer;
pub mod command_buffer;
pub mod context;
pub mod flags;
pub mod formats;
pub mod image;
pub mod memory;
pub mod sync_manager;
