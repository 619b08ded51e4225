//! Core of a chat client for a streamed large-language-model API:
//! the streaming response pipeline (wire events to cumulative updates),
//! conversation state, pricing-table parsing, and token cost estimation.

pub mod aggregate;
pub mod api;
pub mod chat_render;
pub mod config;
pub mod conversation;
pub mod estimate;
pub mod json;
pub mod price;
pub mod syntax;
pub mod text;
