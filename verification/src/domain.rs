pub mod commands;
pub mod status;
pub mod tasks;
pub mod text;
