pub mod cli;
pub mod label;
pub mod position;
pub mod sequences;
pub mod simple_bar;
pub mod text;
pub mod yabai;
