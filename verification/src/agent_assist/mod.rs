//! Agent Assistance Interface.
//!
//! Lets coding agents and operators ask the live server *"why is my client doing X?"* and get a
//! safe, explained answer grounded in actual server state.
//!
//! Tools take typed input, a [`types::Caller`] and the state, and produce a [`types::FactBundle`].
//! The [`api`] layer wraps a bundle in [`types::AssistResponse`], after a disclosure filter as a
//! final pass. Caller-supplied free text is sanitized and quoted before it becomes part of a fact.
pub mod api;
pub mod caller;
pub mod laws;
pub mod llm;
pub mod recorder;
pub mod tools;
pub mod types;
