//! Typed specification language shared with a lemma-discovery engine: the data
//! model, its rendering as engine source text, the parser for annotation
//! files, and the ordered handoff of the engine's messages.

pub mod assertion_parser;
pub mod engine_reading;
pub mod engine_spelling;
pub mod grammar;
pub mod ipc;
pub mod ipc_assertion;
pub mod laws;
pub mod lexer;
pub mod lexing;
pub mod mailbox;
pub mod parsed_form;
pub mod reading;
pub mod round_trip;
pub mod spelling;
pub mod text;
pub mod typing;
