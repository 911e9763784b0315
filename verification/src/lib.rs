//! A compiler from annotated enumerations to the behaviours derived from
//! them: parsing from a string, writing to a string, walking the variants,
//! descriptive messages, and keyed properties.
//!
//! The host hands over the variants of one enumeration with their raw
//! annotation entries ([`annotation`]). The entries of each variant are
//! resolved ([`resolve`]) and the enumeration is validated as a whole
//! ([`descriptor`]). From the validated descriptor each generator compiles
//! its artifact, a table with the functions that read it ([`convert`],
//! [`iterate`], [`message`], [`property`]); [`compile`] does it all in one
//! call. Every table has a mathematical counterpart, and every function
//! says in its contract what it returns in terms of these ([`model`]).

pub mod annotation;
pub mod compile;
pub mod convert;
pub mod descriptor;
pub mod error;
pub mod iterate;
pub mod message;
pub mod model;
pub mod property;
pub mod resolve;
pub mod text;

pub use error::ParseError;
pub use iterate::IntoEnumIterator;
pub use message::EnumMessage;
pub use property::EnumProperty;
