pub mod animation;
pub mod asset;
pub mod mesh;
pub mod scene_loader;
pub mod texture;
