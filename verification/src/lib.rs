//! The line-input side of a chat session: slash commands, pasted blocks, key
//! handling and the steps that turn keystrokes into an [`commands::InputResult`].

pub mod text;
pub mod paste;
pub mod paste_laws;
pub mod console;
pub mod capture;
pub mod arguments;
pub mod commands;
pub mod command_laws;
pub mod dispatch_laws;
pub mod keys;
pub mod help;
pub mod session;
pub mod view_laws;
