//! A small agent framework: sessions of messages, providers that reply to them,
//! tools that a model can call, and the loop that goes back and forth between
//! the two until there is an answer, with an event log of all that happened.
//!
//! What is stated of each function is proved; `external` holds the calls into
//! other crates, with what is taken on trust of them.
pub mod agent;
pub mod cli;
pub mod config;
pub mod consent;
pub mod data;
pub mod decode;
pub mod eval;
pub mod event;
pub mod external;
pub mod laws;
pub mod message;
pub mod models;
pub mod order;
pub mod output;
pub mod provider;
pub mod summary;
pub mod text;
pub mod tool;
pub mod tools;
