//! What a Minecraft speedrun bot decides: which step comes next, and how each task is
//! carried out. The program around it does what is decided.

pub mod bot_utils;
pub mod items;
pub mod memory;
pub mod scan;
pub mod session;
pub mod state;
pub mod steps;
pub mod store;
pub mod survival;
pub mod tasks;
pub mod text;
pub mod types;
pub mod world;
