//! Cocktail recommendation engine: ranks stored recipes by ingredient overlap,
//! decides when the catalog is too thin, prepares and reads back generative
//! synthesis, and plans the compensating multi-step write of a new recipe.
//!
//! The crate holds decisions only. Storage and the completion service are
//! driven by the caller: the state machines here say which request comes next
//! and are told what came back.

pub mod api;
pub mod catalog;
pub mod cocktails;
pub mod error;
pub mod external;
pub mod generate;
pub mod ingredients;
pub mod instructions;
pub mod matcher;
pub mod persistence;
pub mod query;
pub mod runs;
pub mod synthesis;
