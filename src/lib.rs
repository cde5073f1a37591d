//! Derivation engine that turns the description of an enum into the plan of a
//! module holding one event type per variant.
//!
//! The engine works on plain values: the front end that reads a Rust enum
//! declaration builds an [`model::EnumDescription`], and the renderer that writes
//! Rust source takes the resulting [`plan::ModulePlan`].
pub mod attrs;
pub mod derive;
pub mod fsm;
pub mod generics;
pub mod laws;
pub mod model;
pub mod naming;
pub mod plan;
pub mod propagate;
pub mod text;
