pub mod args;
pub mod dispatcher;
pub mod history;
pub mod editor;
pub mod newline;

pub mod handlers;
pub mod display_handler;
