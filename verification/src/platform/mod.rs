//! Host and Roblox Studio environment resolution.
pub mod model;
pub mod host_path;
pub mod wine_path;
pub mod filesystem;
pub mod process;
pub mod translation;
pub mod evidence;
pub mod selection;
pub mod resolver;
pub mod assembly;
