pub mod cli;
pub mod data;
pub mod order;
pub mod palette;
pub mod protocol;
pub mod pty_text;
pub mod server;
pub mod text;
pub mod ui;
