//! A small game kept in sessions, and the codec that stores them.
//!
//! A session is written as a record of tag, length and value:
//!
//! ```text
//! record    := tag:u8 length:u16(big-endian) payload:byte[length]
//! scalar    := UTF-8 text | big-endian 128-bit integer | single byte
//! composite := record*
//! ```
//!
//! A composite holds its children one after the other, without a count: reading goes on until
//! its payload is used up. Fields have no names on the wire; they are told apart by their order.
//!
//! - [`tag`] names the shapes of records and their tag bytes.
//! - [`wire`] says what is written for each value, and [`grammar`] what is read from bytes.
//! - [`serde`] writes values and [`reader`] reads them; both are proved against the two above.
//! - [`laws`] proves that reading gives back what was written, and what is refused.
//! - [`entity`], [`actions`] and [`session`] are what the game is made of.
//! - [`args`], [`strings`], [`table`], [`clock`] and [`try_catch`] are what goes on around it.

pub mod actions;
pub mod args;
pub mod bytes;
pub mod clock;
pub mod entity;
pub mod error;
pub mod grammar;
pub mod laws;
pub mod reader;
pub mod serde;
pub mod session;
pub mod strings;
pub mod table;
pub mod tag;
pub mod text;
pub mod try_catch;
pub mod wire;

pub use crate::entity::Entity;
