//! A small multiplayer combat game: a roster of characters keyed by opaque
//! identifiers, and a combat rule that wounds or slays a defender.
pub mod character;
pub mod combat;
pub mod chance;
pub mod roster;
pub mod laws;
pub mod session;
