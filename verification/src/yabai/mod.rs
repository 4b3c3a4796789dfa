pub mod cli;
pub mod command;
pub mod transport;
