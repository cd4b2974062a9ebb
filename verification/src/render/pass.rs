pub mod geometry;
pub mod post_processing;
pub mod shadow;
