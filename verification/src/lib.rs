//! Message bindings for actors.
//!
//! [`bindings::with_bindings`] turns the source of a message handler into the
//! source of the items that make it callable from other actors: a function that
//! sends the message, a handler that unpacks it, and a handler that takes the
//! answer back to the caller.
pub mod arguments;
pub mod attribute;
pub mod bindings;
pub mod der;
pub mod error;
pub mod expand;
pub mod handlers;
pub mod literals;
pub mod names;
pub mod ser;
pub mod syntax;
pub mod text;
pub mod types;
pub mod wire;
