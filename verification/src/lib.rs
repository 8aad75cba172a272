//! Arithmetization of the SHA-256 message schedule for a PLONK-style
//! constraint system: a set of gates that turns bitwise operations
//! (rotation, XOR, modular addition) into low-degree polynomial identities
//! over a prime field, and a scheduler that lays out witness cells and
//! selectors to realize all 64 schedule words of one 512-bit block.

pub mod expr;
pub mod field;
pub mod gates;
pub mod laws;
pub mod schedule;
pub mod scheduler;
pub mod spread;
pub mod system;
