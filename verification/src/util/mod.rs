pub mod ids;
pub mod json;
pub mod resource_location;
pub mod text;
pub mod translation;
