//! Native side of a small catalogue of host-runtime exports: scalar and text
//! identities, wrapping array sums, greetings, and a person record.

pub mod greeting;
pub mod hello_world;
pub mod person;
pub mod scalars;
pub mod sums;
