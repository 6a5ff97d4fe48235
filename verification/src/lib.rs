//! The core of a command-line assistant for xAI's Grok: the chat
//! requests and the plan-then-execute exchange, the replies it reads, the
//! secret scan and prompt of a code audit, slide-deck assembly, the
//! commit helper, and the record of the directories it was used in.
pub mod agent;
pub mod audit;
pub mod deck;
pub mod git;
pub mod json;
pub mod media;
pub mod project;
pub mod text;
