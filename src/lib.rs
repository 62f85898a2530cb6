pub mod canvas;
pub mod commands;
pub mod packages;
pub mod input;
pub mod scripting;
pub mod session;
