pub mod config;
pub mod error;
pub mod clock;
pub mod ids;
pub mod data;
pub mod todos;
pub mod db;
pub mod laws;
pub mod flow;
