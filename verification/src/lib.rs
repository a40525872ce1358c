//! Polymorphic boxes that survive serialization.
//!
//! A value known only through a capability (a trait object) is written as the
//! pair `[type identifier, payload]`. Reading it back needs a registry that
//! maps each identifier to the descriptor of its concrete type.
//!
//! * [`registry`] holds the identifier table of one capability.
//! * [`dispatch`] keeps, with the registry, the routine of each registered
//!   type.
//! * [`codec`] frames and checks the two-element envelope.
//! * [`generator`] decides what the registration attribute adds to an item.

pub mod codec;
pub mod dispatch;
pub mod generator;
pub mod registry;
