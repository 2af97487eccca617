//! The client side of a terminal chat session with a coding agent: state,
//! message handling, key handling, and what is drawn.
pub mod text;
pub mod text_laws;
pub mod style;
pub mod theme;
pub mod strmap;
pub mod json;
pub mod protocol;
pub mod diff;
pub mod highlight;
pub mod symbols;
pub mod server_manager;
pub mod cards;
pub mod elicitation;
pub mod app;
pub mod seqs;
pub mod spinner;
pub mod status;
pub mod models;
pub mod undo;
pub mod layout;
pub mod markdown;
pub mod markdown_laws;
pub mod deck;
pub mod canvas;
pub mod clock;
pub mod popups;
pub mod shortcuts;
pub mod header;
pub mod start_page;
pub mod messages;
pub mod panels;
pub mod chat_page;
pub mod toml_file;
pub mod config;
pub mod cache;
pub mod connection;
pub mod editor;
pub mod program;
pub mod ranking;
pub mod input;
pub mod paths;
pub mod session;
pub mod tools;
pub mod server_msg;
pub mod handlers;
pub mod laws;
pub mod card_laws;
pub mod screen_laws;
pub mod theme_laws;
pub mod tool_laws;
pub mod file_laws;
pub mod key_laws;
pub mod list_laws;
pub mod live_laws;
pub mod question_laws;
pub mod service_laws;
pub mod message_laws;
