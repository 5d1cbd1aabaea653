pub mod hex;
pub mod json;
pub mod ws;
pub mod http;
pub mod status;
pub mod command;
pub mod ap;
