//! The metadata model: one enumeration, its variants in declaration order,
//! and what their annotations resolved to.
//!
//! Every executable type has a mathematical counterpart (its view), and the
//! contracts of the crate speak of the counterparts only.

use vstd::prelude::*;

verus! {

/// What the generators need to know of one field's type.
#[derive(Debug, Clone, Copy, PartialEq, Eq)]
pub struct FieldHint {
    /// The type can be constructed from a string.
    pub from_text: bool,
    /// The type holds a borrowed reference whose lifetime depends on a
    /// particular instance, so no value of it can be made up.
    pub borrowed: bool,
}

/// The shape of a variant. Only the kind and the field hints matter; field
/// values never do.
#[derive(Debug, Clone, PartialEq, Eq)]
pub enum Shape {
    Unit,
    Struct(Vec<FieldHint>),
    Tuple(Vec<FieldHint>),
}

/// The mathematical counterpart of [`Shape`].
pub enum ShapeModel {
    Unit,
    Struct(Seq<FieldHint>),
    Tuple(Seq<FieldHint>),
}

impl ShapeModel {
    /// The field hints, in order; none for a unit variant.
    pub open spec fn fields(self) -> Seq<FieldHint> {
        match self {
            ShapeModel::Unit => Seq::empty(),
            ShapeModel::Struct(fields) => fields,
            ShapeModel::Tuple(fields) => fields,
        }
    }

    /// A tuple-like shape with exactly one field, constructible from a
    /// string: the only shape a default variant may have.
    pub open spec fn captures_text(self) -> bool {
        self matches ShapeModel::Tuple(fields) && fields.len() == 1 && fields[0].from_text
    }

    /// No field holds a borrowed reference, so an instance with neutral field
    /// values can be made up.
    pub open spec fn fabricable(self) -> bool {
        forall|k: int| 0 <= k < self.fields().len() ==> !(#[trigger] self.fields()[k]).borrowed
    }
}

impl View for Shape {
    type V = ShapeModel;

    open spec fn view(&self) -> ShapeModel {
        match self {
            Shape::Unit => ShapeModel::Unit,
            Shape::Struct(fields) => ShapeModel::Struct(fields@),
            Shape::Tuple(fields) => ShapeModel::Tuple(fields@),
        }
    }
}

impl DeepView for Shape {
    type V = ShapeModel;

    open spec fn deep_view(&self) -> ShapeModel {
        self@
    }
}

impl Shape {
    /// Whether this is the shape of a default variant.
    pub fn captures_text(&self) -> (r: bool)
        ensures
            r == self@.captures_text(),
    {
        match self {
            Shape::Tuple(fields) => fields.len() == 1 && fields[0].from_text,
            _ => false,
        }
    }

    /// Whether an instance of this shape can be made up from neutral values.
    pub fn fabricable(&self) -> (r: bool)
        ensures
            r == self@.fabricable(),
    {
        match self {
            Shape::Unit => {
                assert(self@.fields().len() == 0);
                true
            },
            Shape::Struct(fields) => {
                assert(self@.fields() == fields@);
                none_borrowed(fields)
            },
            Shape::Tuple(fields) => {
                assert(self@.fields() == fields@);
                none_borrowed(fields)
            },
        }
    }

    /// A copy of this shape.
    pub fn duplicate(&self) -> (r: Shape)
        ensures
            r@ == self@,
    {
        match self {
            Shape::Unit => Shape::Unit,
            Shape::Struct(fields) => Shape::Struct(copy_hints(fields)),
            Shape::Tuple(fields) => Shape::Tuple(copy_hints(fields)),
        }
    }
}

fn none_borrowed(fields: &Vec<FieldHint>) -> (r: bool)
    ensures
        r == (forall|k: int| 0 <= k < fields@.len() ==> !(#[trigger] fields@[k]).borrowed),
{
    let mut k: usize = 0;
    while k < fields.len()
        invariant
            k <= fields.len(),
            forall|j: int| 0 <= j < k ==> !(#[trigger] fields@[j]).borrowed,
        decreases fields.len() - k,
    {
        if fields[k].borrowed {
            return false;
        }
        k += 1;
    }
    true
}

fn copy_hints(fields: &Vec<FieldHint>) -> (r: Vec<FieldHint>)
    ensures
        r@ == fields@,
{
    let mut out: Vec<FieldHint> = Vec::new();
    let mut k: usize = 0;
    while k < fields.len()
        invariant
            k <= fields.len(),
            out@ == fields@.take(k as int),
        decreases fields.len() - k,
    {
        out.push(fields[k]);
        proof {
            assert(fields@.take(k + 1) =~= fields@.take(k as int).push(fields@[k as int]));
        }
        k += 1;
    }
    proof {
        assert(fields@.take(fields@.len() as int) =~= fields@);
    }
    out
}

/// One keyed property of a variant.
#[derive(Debug, Clone, PartialEq, Eq)]
pub struct Property {
    pub key: String,
    pub value: String,
}

/// The mathematical counterpart of [`Property`].
pub struct PropertyModel {
    pub key: Seq<char>,
    pub value: Seq<char>,
}

impl View for Property {
    type V = PropertyModel;

    open spec fn view(&self) -> PropertyModel {
        PropertyModel { key: self.key@, value: self.value@ }
    }
}

impl DeepView for Property {
    type V = PropertyModel;

    open spec fn deep_view(&self) -> PropertyModel {
        self@
    }
}

/// No key occurs twice.
pub open spec fn keys_distinct(properties: Seq<PropertyModel>) -> bool {
    forall|a: int, b: int|
        0 <= a < b < properties.len() ==> (#[trigger] properties[a]).key != (
        #[trigger] properties[b]).key
}

/// The value stored under `key`, if any.
pub open spec fn property_value(properties: Seq<PropertyModel>, key: Seq<char>) -> Option<
    Seq<char>,
>
    decreases properties.len(),
{
    if properties.len() == 0 {
        None
    } else if properties[0].key == key {
        Some(properties[0].value)
    } else {
        property_value(properties.drop_first(), key)
    }
}

/// One variant of an enumeration, with its annotations resolved.
#[derive(Debug, Clone, PartialEq, Eq)]
pub struct VariantDescriptor {
    /// The identifier of the variant.
    pub name: String,
    pub shape: Shape,
    /// The strings the variant matches when a text is parsed, in the order
    /// in which they were authored, each once.
    pub serializations: Vec<String>,
    /// The one string the variant is written as.
    pub canonical_string: String,
    /// The variant takes no part in parsing.
    pub is_disabled: bool,
    /// The variant catches every text that matches no serialization.
    pub is_default: bool,
    pub message: Option<String>,
    /// The detailed message; where none was authored, the message.
    pub detailed_message: Option<String>,
    pub properties: Vec<Property>,
}

/// The mathematical counterpart of [`VariantDescriptor`].
pub struct VariantModel {
    pub name: Seq<char>,
    pub shape: ShapeModel,
    pub serializations: Seq<Seq<char>>,
    pub canonical_string: Seq<char>,
    pub is_disabled: bool,
    pub is_default: bool,
    pub message: Option<Seq<char>>,
    pub detailed_message: Option<Seq<char>>,
    pub properties: Seq<PropertyModel>,
}

impl VariantModel {
    /// What holds of every variant that came out of validation.
    pub open spec fn wf(self) -> bool {
        &&& self.serializations.len() > 0
        &&& self.serializations.no_duplicates()
        &&& self.serializations.contains(self.canonical_string)
        &&& self.is_default ==> self.shape.captures_text()
        &&& self.message is Some ==> self.detailed_message is Some
        &&& keys_distinct(self.properties)
    }

    /// The variant matches `text` when a text is parsed.
    pub open spec fn accepts(self, text: Seq<char>) -> bool {
        !self.is_disabled && self.serializations.contains(text)
    }
}

impl View for VariantDescriptor {
    type V = VariantModel;

    open spec fn view(&self) -> VariantModel {
        VariantModel {
            name: self.name@,
            shape: self.shape@,
            serializations: self.serializations.deep_view(),
            canonical_string: self.canonical_string@,
            is_disabled: self.is_disabled,
            is_default: self.is_default,
            message: self.message.deep_view(),
            detailed_message: self.detailed_message.deep_view(),
            properties: self.properties.deep_view(),
        }
    }
}

impl DeepView for VariantDescriptor {
    type V = VariantModel;

    open spec fn deep_view(&self) -> VariantModel {
        self@
    }
}

/// The mathematical counterpart of [`crate::descriptor::EnumDescriptor`]: the
/// variants in declaration order.
pub struct EnumModel {
    pub variants: Seq<VariantModel>,
}

impl EnumModel {
    /// No two variants have the same name.
    pub open spec fn names_distinct(self) -> bool {
        forall|i: int, j: int|
            0 <= i < j < self.variants.len() ==> (#[trigger] self.variants[i]).name != (
            #[trigger] self.variants[j]).name
    }

    /// At most one variant is the default.
    pub open spec fn single_default(self) -> bool {
        forall|i: int, j: int|
            0 <= i < j < self.variants.len() ==> !((#[trigger] self.variants[i]).is_default && (
            #[trigger] self.variants[j]).is_default)
    }

    /// No text is matched by two variants.
    pub open spec fn unambiguous(self) -> bool {
        forall|i: int, j: int, text: Seq<char>|
            #![trigger self.variants[i].accepts(text), self.variants[j].accepts(text)]
            0 <= i < j < self.variants.len() ==> !(self.variants[i].accepts(text)
                && self.variants[j].accepts(text))
    }

    /// What holds of every enumeration that came out of validation.
    pub open spec fn wf(self) -> bool {
        &&& self.variants.len() > 0
        &&& self.names_distinct()
        &&& forall|i: int| 0 <= i < self.variants.len() ==> (#[trigger] self.variants[i]).wf()
        &&& self.single_default()
        &&& self.unambiguous()
    }

    /// `i` is the first variant, in declaration order, that matches `text`.
    pub open spec fn is_first_match(self, text: Seq<char>, i: int) -> bool {
        &&& 0 <= i < self.variants.len()
        &&& self.variants[i].accepts(text)
        &&& forall|j: int| 0 <= j < i ==> !(#[trigger] self.variants[j]).accepts(text)
    }

    /// The first variant that matches `text`, if any does.
    pub open spec fn first_match(self, text: Seq<char>) -> Option<int> {
        if exists|i: int| self.is_first_match(text, i) {
            Some(choose|i: int| self.is_first_match(text, i))
        } else {
            None
        }
    }

    /// `i` is the first variant, in declaration order, flagged as default.
    pub open spec fn is_first_default(self, i: int) -> bool {
        &&& 0 <= i < self.variants.len()
        &&& self.variants[i].is_default
        &&& forall|j: int| 0 <= j < i ==> !(#[trigger] self.variants[j]).is_default
    }

    /// The default variant, if there is one.
    pub open spec fn default_variant(self) -> Option<int> {
        if exists|i: int| self.is_first_default(i) {
            Some(choose|i: int| self.is_first_default(i))
        } else {
            None
        }
    }
}

/// A value of the enumeration as the generated functions see it: the tag of
/// its variant and, for a default variant that caught a text, that text. All
/// other fields hold their type's neutral value and are not recorded.
#[derive(Debug, Clone, PartialEq, Eq)]
pub struct Instance {
    /// The position of the variant in declaration order.
    pub tag: usize,
    /// The text that a default variant caught.
    pub captured: Option<String>,
}

/// The mathematical counterpart of [`Instance`].
pub struct InstanceModel {
    pub tag: int,
    pub captured: Option<Seq<char>>,
}

impl View for Instance {
    type V = InstanceModel;

    open spec fn view(&self) -> InstanceModel {
        InstanceModel { tag: self.tag as int, captured: self.captured.deep_view() }
    }
}

impl DeepView for Instance {
    type V = InstanceModel;

    open spec fn deep_view(&self) -> InstanceModel {
        self@
    }
}

/// The instance of variant `tag` in which every field is neutral.
pub open spec fn neutral(tag: int) -> InstanceModel {
    InstanceModel { tag, captured: None }
}

impl Instance {
    /// The instance of variant `tag` in which every field is neutral.
    pub fn neutral(tag: usize) -> (r: Instance)
        ensures
            r@ == neutral(tag as int),
    {
        Instance { tag, captured: None }
    }
}

} // verus!
