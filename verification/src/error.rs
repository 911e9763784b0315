//! The two kinds of failure: a text that names no variant, and an
//! enumeration whose annotations cannot be compiled.

use crate::iterate::IntoEnumIterator;
use crate::message::EnumMessage;
use crate::property::EnumProperty;
use vstd::prelude::*;
use vstd::std_specs::iter::IteratorSpec;

verus! {

/// Why a text could not be turned into a variant.
#[derive(Debug, Clone, Copy, PartialEq, Eq, Hash)]
pub enum ParseError {
    VariantNotFound,
}

/// Why no artifact could be generated for an enumeration.
#[derive(Debug, Clone, PartialEq, Eq)]
pub enum ValidationError {
    /// An annotation entry has a key that is not recognized; the key.
    UnknownAttribute(String),
    /// A flag was given a value other than `true`.
    InvalidFlagValue,
    /// Two variants that take part in parsing match the same string.
    DuplicateSerialization,
    /// More than one variant is flagged as default.
    MultipleDefaultVariants,
    /// The default flag stands on a variant that is not tuple-like with a
    /// single field constructible from a string.
    InvalidDefaultVariantShape,
    /// A property key is declared twice for one variant.
    DuplicatePropertyKey,
    /// Iteration was asked for, and a variant holds a borrowed field.
    UnboundedLifetimeNotSupported,
}

/// The mathematical counterpart of [`ValidationError`].
pub enum ValidationErrorModel {
    UnknownAttribute(Seq<char>),
    InvalidFlagValue,
    DuplicateSerialization,
    MultipleDefaultVariants,
    InvalidDefaultVariantShape,
    DuplicatePropertyKey,
    UnboundedLifetimeNotSupported,
}

impl View for ValidationError {
    type V = ValidationErrorModel;

    open spec fn view(&self) -> ValidationErrorModel {
        match self {
            ValidationError::UnknownAttribute(key) => ValidationErrorModel::UnknownAttribute(key@),
            ValidationError::InvalidFlagValue => ValidationErrorModel::InvalidFlagValue,
            ValidationError::DuplicateSerialization => ValidationErrorModel::DuplicateSerialization,
            ValidationError::MultipleDefaultVariants => ValidationErrorModel::MultipleDefaultVariants,
            ValidationError::InvalidDefaultVariantShape =>
                ValidationErrorModel::InvalidDefaultVariantShape,
            ValidationError::DuplicatePropertyKey => ValidationErrorModel::DuplicatePropertyKey,
            ValidationError::UnboundedLifetimeNotSupported =>
                ValidationErrorModel::UnboundedLifetimeNotSupported,
        }
    }
}

impl ParseError {
    /// The failure in a few words.
    pub fn to_string(&self) -> (r: String)
        ensures
            Some(r@) == self.message(),
    {
        match self {
            ParseError::VariantNotFound => "Matching variant not found".to_owned(),
        }
    }

    /// The failure at length.
    pub fn description(&self) -> (r: &'static str)
        ensures
            Some(r@) == self.detailed_message(),
    {
        match self {
            ParseError::VariantNotFound =>
                "Unable to find a variant of the given enum matching the string given. Matching \
                 can be extended with the Serialize attribute and is case sensitive.",
        }
    }
}

impl EnumMessage for ParseError {
    open spec fn message(&self) -> Option<Seq<char>> {
        Some("Matching variant not found"@)
    }

    open spec fn detailed_message(&self) -> Option<Seq<char>> {
        Some(
            "Unable to find a variant of the given enum matching the string given. Matching \
                 can be extended with the Serialize attribute and is case sensitive."@,
        )
    }

    open spec fn serializations(&self) -> Seq<Seq<char>> {
        seq!["VariantNotFound"@]
    }

    fn get_message(&self) -> (r: Option<&str>) {
        Some("Matching variant not found")
    }

    fn get_detailed_message(&self) -> (r: Option<&str>) {
        Some(self.description())
    }

    fn get_serializations(&self) -> (r: &[&str]) {
        let names: &[&str; 1] = &["VariantNotFound"];
        let slice = names.as_slice();
        assert(slice.deep_view() =~= seq!["VariantNotFound"@]);
        slice
    }
}

impl EnumProperty for ParseError {
    /// The failure carries no property.
    open spec fn property(&self, key: Seq<char>) -> Option<Seq<char>> {
        None
    }

    fn get_str(&self, key: &str) -> (r: Option<&'static str>) {
        None
    }
}

impl IntoEnumIterator for ParseError {
    type Iterator = std::vec::IntoIter<ParseError>;

    /// A walk over the one variant: what the iterator has yet to yield is
    /// that variant, once, and then it ends.
    fn iter() -> (r: Self::Iterator)
        ensures
            r.remaining() == seq![ParseError::VariantNotFound],
            r.decrease() is Some,
            r.initial_value_relation(&r),
    {
        broadcast use vstd::std_specs::vec::axiom_spec_into_iter;

        let mut all: Vec<ParseError> = Vec::new();
        all.push(ParseError::VariantNotFound);
        assert(all@ =~= seq![ParseError::VariantNotFound]);
        all.into_iter()
    }
}

} // verus!
