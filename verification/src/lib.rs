//! Random JSON documents that satisfy a JDDF schema.
//!
//! A schema is a tree of forms ([`schema::Schema`]); the generator walks it
//! with a source of randomness and produces one [`value::Value`] whose shape
//! the schema allows. The central statement of the crate
//! ([`laws::lemma_generated_conforms`]) is that every value the generator
//! returns conforms to the schema it was generated from, for any schema
//! whose object forms do not allow undeclared additional members.

pub mod conformance;
pub mod generator;
pub mod laws;
pub mod random;
pub mod schema;
pub mod timefmt;
pub mod value;

pub use random::RandomSource;
pub use schema::PrimType;
pub use schema::Schema;
pub use value::Value;
