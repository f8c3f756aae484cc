//! Long-term memory for a conversational assistant: facts, behavioural
//! patterns, themes and summaries about one user, merged into a single belief
//! state whose confidences rise on reinforcement and fall on neglect.
//!
//! The engine is a [`store::MemoryStore`] and the functions that change and
//! query it. Each function states what it does to the store's plain value,
//! [`store::StoreView`], and the store stays well formed under all of them.
//! Confidences and weights are fixed-point numbers, see [`scale`]. Functions
//! whose name ends in `_at` take the time of the change as a text; their
//! namesakes without the ending read the clock.

pub mod anthropic;
pub mod clock;
pub mod context;
pub mod conversations;
pub mod disco_prompts;
pub mod facts;
pub mod json;
pub mod openai;
pub mod patterns;
pub mod profile;
pub mod ranking;
pub mod scale;
pub mod store;
pub mod summaries;
pub mod table;
pub mod text;
pub mod themes;
