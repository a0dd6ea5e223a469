//! A small task manager: tasks with a description and a status, a store
//! that creates, reads, updates and removes them, and the command
//! dispatcher that sits between the command line and the store.

pub mod app;
pub mod domain;
pub mod storage;
