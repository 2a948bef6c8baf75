//! Provider formats.

pub mod anthropic_messages;
pub mod google_generate_content;
pub mod openai_chat_completions;
pub mod listing_laws;
pub mod reasoning_laws;
