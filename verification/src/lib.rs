//! Terminal input and search sessions for an embedded shell history client.

pub mod byte_laws;
pub mod bytes;
pub mod call_laws;
pub mod event;
pub mod input;
pub mod input_laws;
pub mod key_laws;
pub mod mouse_laws;
pub mod parser;
pub mod parser_laws;
pub mod reading_laws;
pub mod reports;
pub mod search;
pub mod search_laws;
pub mod session;
pub mod session_laws;
pub mod stream_laws;
pub mod terminal_laws;
pub mod text;
