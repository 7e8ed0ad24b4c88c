//! Builds the standard-library descriptor of the Roblox scripting environment
//! for a Lua linter from an API dump: class structs with inherited members,
//! enum globals, the legal arguments of `Instance.new` and `GetService`, and
//! the class index.

pub mod api;
pub mod classes;
pub mod classify;
mod clock;
pub mod depth;
pub mod error;
pub mod generate;
pub mod globals;
pub mod inherit;
pub mod laws;
pub mod pipeline;
pub mod reach;
pub mod standard_library;
pub mod table;
pub mod text;
