//! Round Cat: the verified core of a small Vulkan renderer.
//!
//! This crate holds the decisions of the renderer that do not need a GPU:
//! resource synchronisation (which barriers a new access needs), range maps,
//! mip level arithmetic, memory type selection and asset bookkeeping.
pub mod bow;
pub mod buffer;
pub mod event_loop;
pub mod input_map;
pub mod loader;
pub mod render;
pub mod scene;
pub mod utility;
pub mod vulkan;
