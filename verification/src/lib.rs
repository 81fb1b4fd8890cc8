//! Linux and WSL GPU/Vulkan diagnosis and repair planning.
pub mod commands;
pub mod executor;
pub mod models;
pub mod probe;
pub mod recipes;
pub mod text;
