//! The compiler as a whole: from the variants as authored to the artifacts
//! that were asked for, or to the one failure that stops everything.

use crate::annotation::{RawVariant, RawVariantModel};
use crate::convert::{canonical_strings, parser_of, Parser, Serializer};
use crate::descriptor::{describe_enum, well_declared, EnumDescriptor};
use crate::error::{ValidationError, ValidationErrorModel};
use crate::iterate::{iterable, Iteration};
use crate::message::{messages_of, Messages};
use crate::model::EnumModel;
use crate::property::{properties_table, Properties};
use crate::text::same_text;
use vstd::prelude::*;

verus! {

/// Which of the five artifacts to generate. Each is asked for on its own.
#[derive(Debug, Clone, Copy, PartialEq, Eq)]
pub struct Selection {
    pub parse: bool,
    pub serialize: bool,
    pub iterate: bool,
    pub messages: bool,
    pub properties: bool,
}

/// The artifacts of one enumeration: those that were asked for.
#[derive(Debug, Clone, PartialEq, Eq)]
pub struct Artifacts {
    pub parser: Option<Parser>,
    pub serializer: Option<Serializer>,
    pub iteration: Option<Iteration>,
    pub messages: Option<Messages>,
    pub properties: Option<Properties>,
}

impl Artifacts {
    /// The artifacts are those that `selection` asks for, generated from
    /// `model`.
    pub open spec fn generated_from(&self, model: EnumModel, selection: Selection) -> bool {
        &&& match self.parser {
            Some(parser) => selection.parse && parser@ == parser_of(model),
            None => !selection.parse,
        }
        &&& match self.serializer {
            Some(serializer) => selection.serialize && serializer@ == canonical_strings(model),
            None => !selection.serialize,
        }
        &&& match self.iteration {
            Some(iteration) => selection.iterate && iteration.count == model.variants.len(),
            None => !selection.iterate,
        }
        &&& match self.messages {
            Some(messages) => selection.messages && messages@ == messages_of(model),
            None => !selection.messages,
        }
        &&& match self.properties {
            Some(properties) => selection.properties && properties@ == properties_table(model),
            None => !selection.properties,
        }
    }
}

/// What compiling an enumeration comes to: the failure of validation, if
/// there is one; else the failure of the iteration generator, if iteration
/// was asked for and cannot be had; else the validated enumeration.
pub open spec fn compile_outcome(raw: Seq<RawVariantModel>, selection: Selection) -> Result<
    EnumModel,
    ValidationErrorModel,
> {
    match describe_enum(raw) {
        Err(error) => Err(error),
        Ok(model) => if selection.iterate && !iterable(model) {
            Err(ValidationErrorModel::UnboundedLifetimeNotSupported)
        } else {
            Ok(model)
        },
    }
}

/// Validates an enumeration and generates the artifacts that `selection`
/// asks for. It is all or nothing: on any failure no artifact is produced.
pub fn compile(raw: &Vec<RawVariant>, selection: &Selection) -> (r: Result<
    Artifacts,
    ValidationError,
>)
    requires
        well_declared(raw.deep_view()),
    ensures
        match r {
            Ok(artifacts) => compile_outcome(raw.deep_view(), *selection) matches Ok(model)
                && model.wf() && artifacts.generated_from(model, *selection),
            Err(error) => compile_outcome(raw.deep_view(), *selection) == Err::<
                EnumModel,
                ValidationErrorModel,
            >(error@),
        },
{
    let descriptor = match EnumDescriptor::build(raw) {
        Ok(descriptor) => descriptor,
        Err(error) => {
            return Err(error);
        },
    };
    let iteration = if selection.iterate {
        match Iteration::generate(&descriptor) {
            Ok(iteration) => Some(iteration),
            Err(error) => {
                return Err(error);
            },
        }
    } else {
        None
    };
    let parser = if selection.parse {
        Some(Parser::generate(&descriptor))
    } else {
        None
    };
    let serializer = if selection.serialize {
        Some(Serializer::generate(&descriptor))
    } else {
        None
    };
    let messages = if selection.messages {
        Some(Messages::generate(&descriptor))
    } else {
        None
    };
    let properties = if selection.properties {
        Some(Properties::generate(&descriptor))
    } else {
        None
    };
    Ok(Artifacts { parser, serializer, iteration, messages, properties })
}

/// What the debug switch asks for: nothing where it is not set; every
/// enumeration where it is `1`; otherwise the enumeration it names.
pub open spec fn dump_wanted(switch: Option<Seq<char>>, name: Seq<char>) -> bool {
    match switch {
        Some(value) => value == "1"@ || value == name,
        None => false,
    }
}

/// Whether the artifacts of the enumeration `name` are to be dumped, given
/// the value of the debug switch. The switch is a side channel for
/// diagnosis: [`compile`] does not read it.
pub fn wants_dump(switch: Option<&str>, name: &str) -> (r: bool)
    ensures
        r == dump_wanted(switch.deep_view(), name@),
{
    match switch {
        Some(value) => same_text(value, "1") || same_text(value, name),
        None => false,
    }
}

} // verus!
