//! Annotation entries as authored, and how the entries of one variant
//! resolve to its descriptor.

use crate::model::{Property, PropertyModel, Shape, ShapeModel};
use crate::text::same_text;
use vstd::prelude::*;

verus! {

/// One annotation entry as authored: a key with a string value, or a key with
/// a nested block of key/value pairs.
#[derive(Debug, Clone, PartialEq, Eq)]
pub enum Annotation {
    Pair { key: String, value: String },
    Block { key: String, entries: Vec<Property> },
}

/// The mathematical counterpart of [`Annotation`].
pub enum AnnotationModel {
    Pair { key: Seq<char>, value: Seq<char> },
    Block { key: Seq<char>, entries: Seq<PropertyModel> },
}

impl View for Annotation {
    type V = AnnotationModel;

    open spec fn view(&self) -> AnnotationModel {
        match self {
            Annotation::Pair { key, value } => AnnotationModel::Pair { key: key@, value: value@ },
            Annotation::Block { key, entries } => AnnotationModel::Block {
                key: key@,
                entries: entries.deep_view(),
            },
        }
    }
}

impl DeepView for Annotation {
    type V = AnnotationModel;

    open spec fn deep_view(&self) -> AnnotationModel {
        self@
    }
}

/// One variant as the host hands it over: its name, its shape, and its
/// annotation entries in the order in which they were authored.
#[derive(Debug, Clone, PartialEq, Eq)]
pub struct RawVariant {
    pub name: String,
    pub shape: Shape,
    pub annotations: Vec<Annotation>,
}

/// The mathematical counterpart of [`RawVariant`].
pub struct RawVariantModel {
    pub name: Seq<char>,
    pub shape: ShapeModel,
    pub annotations: Seq<AnnotationModel>,
}

impl View for RawVariant {
    type V = RawVariantModel;

    open spec fn view(&self) -> RawVariantModel {
        RawVariantModel {
            name: self.name@,
            shape: self.shape@,
            annotations: self.annotations.deep_view(),
        }
    }
}

impl DeepView for RawVariant {
    type V = RawVariantModel;

    open spec fn deep_view(&self) -> RawVariantModel {
        self@
    }
}

/// The keys that an annotation entry may have.
#[derive(Debug, Clone, Copy, PartialEq, Eq)]
pub enum Key {
    Serialize,
    ToString,
    Default,
    Disabled,
    Message,
    DetailedMessage,
    Props,
}

/// The key that a text spells, if it spells one.
pub open spec fn key_of(text: Seq<char>) -> Option<Key> {
    if text == "serialize"@ {
        Some(Key::Serialize)
    } else if text == "to_string"@ {
        Some(Key::ToString)
    } else if text == "default"@ {
        Some(Key::Default)
    } else if text == "disabled"@ {
        Some(Key::Disabled)
    } else if text == "message"@ {
        Some(Key::Message)
    } else if text == "detailed_message"@ {
        Some(Key::DetailedMessage)
    } else if text == "props"@ {
        Some(Key::Props)
    } else {
        None
    }
}

/// Reads a key.
pub fn recognize(text: &str) -> (r: Option<Key>)
    ensures
        r == key_of(text@),
{
    if same_text(text, "serialize") {
        Some(Key::Serialize)
    } else if same_text(text, "to_string") {
        Some(Key::ToString)
    } else if same_text(text, "default") {
        Some(Key::Default)
    } else if same_text(text, "disabled") {
        Some(Key::Disabled)
    } else if same_text(text, "message") {
        Some(Key::Message)
    } else if same_text(text, "detailed_message") {
        Some(Key::DetailedMessage)
    } else if same_text(text, "props") {
        Some(Key::Props)
    } else {
        None
    }
}

impl AnnotationModel {
    /// The key of the entry, as authored.
    pub open spec fn key(self) -> Seq<char> {
        match self {
            AnnotationModel::Pair { key, .. } => key,
            AnnotationModel::Block { key, .. } => key,
        }
    }

    /// The entry is of a kind that the compiler knows: a key/value entry
    /// under one of the six keys that take a string, or a block named
    /// `props`. A key in the other form counts as unknown.
    pub open spec fn recognized(self) -> bool {
        match self {
            AnnotationModel::Pair { key, .. } => key_of(key) is Some && key_of(key) != Some(
                Key::Props,
            ),
            AnnotationModel::Block { key, .. } => key_of(key) == Some(Key::Props),
        }
    }

    /// The entry is a key/value entry under `key`.
    pub open spec fn is_pair_of(self, key: Key) -> bool {
        self matches AnnotationModel::Pair { key: k, .. } && key_of(k) == Some(key)
    }

    /// The entry is not a flag with a value other than `true`.
    pub open spec fn flag_valid(self) -> bool {
        match self {
            AnnotationModel::Pair { value, .. } => self.is_pair_of(Key::Default)
                || self.is_pair_of(Key::Disabled) ==> value == "true"@,
            AnnotationModel::Block { .. } => true,
        }
    }

    /// The entry sets the flag `key`.
    pub open spec fn sets_flag(self, key: Key) -> bool {
        match self {
            AnnotationModel::Pair { value, .. } => self.is_pair_of(key) && value == "true"@,
            AnnotationModel::Block { .. } => false,
        }
    }
}

/// The values of the key/value entries under `key`, in authored order.
pub open spec fn values_of(entries: Seq<AnnotationModel>, key: Key) -> Seq<Seq<char>>
    decreases entries.len(),
{
    if entries.len() == 0 {
        Seq::empty()
    } else {
        let before = values_of(entries.drop_last(), key);
        match entries.last() {
            AnnotationModel::Pair { key: k, value } => if key_of(k) == Some(key) {
                before.push(value)
            } else {
                before
            },
            AnnotationModel::Block { .. } => before,
        }
    }
}

/// The properties of all `props` blocks, merged in authored order.
pub open spec fn properties_of(entries: Seq<AnnotationModel>) -> Seq<PropertyModel>
    decreases entries.len(),
{
    if entries.len() == 0 {
        Seq::empty()
    } else {
        let before = properties_of(entries.drop_last());
        match entries.last() {
            AnnotationModel::Block { key, entries: block } => if key_of(key) == Some(Key::Props) {
                before + block
            } else {
                before
            },
            AnnotationModel::Pair { .. } => before,
        }
    }
}

/// Entry `i` is the first that is not recognized.
pub open spec fn is_first_unknown(entries: Seq<AnnotationModel>, i: int) -> bool {
    &&& 0 <= i < entries.len()
    &&& !entries[i].recognized()
    &&& forall|j: int| 0 <= j < i ==> (#[trigger] entries[j]).recognized()
}

/// The key of the first entry that is not recognized.
pub open spec fn first_unknown(entries: Seq<AnnotationModel>) -> Option<Seq<char>> {
    if exists|i: int| is_first_unknown(entries, i) {
        Some(entries[choose|i: int| is_first_unknown(entries, i)].key())
    } else {
        None
    }
}

/// No flag has a value other than `true`.
pub open spec fn flags_valid(entries: Seq<AnnotationModel>) -> bool {
    forall|i: int| 0 <= i < entries.len() ==> (#[trigger] entries[i]).flag_valid()
}

/// Some entry sets the flag `key`.
pub open spec fn flagged(entries: Seq<AnnotationModel>, key: Key) -> bool {
    exists|i: int| 0 <= i < entries.len() && (#[trigger] entries[i]).sets_flag(key)
}

} // verus!
