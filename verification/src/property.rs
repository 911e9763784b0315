//! The property generator: the keyed properties of every variant, by tag,
//! and the typed readings of their values.

use crate::descriptor::EnumDescriptor;
use crate::model::{property_value, EnumModel, Instance, Property, PropertyModel};
use crate::text::{bool_of, int_of, read_bool, read_int, same_text};
use vstd::prelude::*;

verus! {

/// A property value read as an integer. A value that is no number is not
/// told apart from a value that is not there.
pub open spec fn int_reading(value: Option<Seq<char>>) -> Option<usize> {
    match value {
        Some(text) => int_of(text),
        None => None,
    }
}

/// A property value read as a truth value. A value that is neither `true`
/// nor `false` is not told apart from a value that is not there.
pub open spec fn bool_reading(value: Option<Seq<char>>) -> Option<bool> {
    match value {
        Some(text) => bool_of(text),
        None => None,
    }
}

/// A type whose values carry keyed properties, one set for each variant.
/// What the functions return depends on the variant and the key alone.
pub trait EnumProperty {
    /// The value that the variant holds under `key`, if it holds one.
    spec fn property(&self, key: Seq<char>) -> Option<Seq<char>>;

    fn get_str(&self, key: &str) -> (r: Option<&'static str>)
        ensures
            r.deep_view() == self.property(key@),
    ;

    fn get_int(&self, key: &str) -> (r: Option<usize>)
        ensures
            r == int_reading(self.property(key@)),
    {
        match self.get_str(key) {
            Some(text) => read_int(text),
            None => None,
        }
    }

    fn get_bool(&self, key: &str) -> (r: Option<bool>)
        ensures
            r == bool_reading(self.property(key@)),
    {
        match self.get_str(key) {
            Some(text) => read_bool(text),
            None => None,
        }
    }
}

/// The property artifact: the properties of every variant, by tag.
#[derive(Debug, Clone, PartialEq, Eq)]
pub struct Properties {
    pub rows: Vec<Vec<Property>>,
}

impl View for Properties {
    type V = Seq<Seq<PropertyModel>>;

    open spec fn view(&self) -> Seq<Seq<PropertyModel>> {
        self.rows.deep_view()
    }
}

/// The property rows of an enumeration, in declaration order.
pub open spec fn properties_table(model: EnumModel) -> Seq<Seq<PropertyModel>> {
    Seq::new(model.variants.len(), |i: int| model.variants[i].properties)
}

/// The value that the rows hold for `tag` under `key`; none for a tag they
/// do not cover, and none for a key the variant does not have.
pub open spec fn property_at(rows: Seq<Seq<PropertyModel>>, tag: int, key: Seq<char>) -> Option<
    Seq<char>,
> {
    if 0 <= tag < rows.len() {
        property_value(rows[tag], key)
    } else {
        None
    }
}

/// The value stored under `key` among `properties`.
pub fn lookup<'a>(properties: &'a Vec<Property>, key: &str) -> (r: Option<&'a str>)
    ensures
        r.deep_view() == property_value(properties.deep_view(), key@),
{
    let ghost model = properties.deep_view();
    let mut k: usize = 0;
    assert(model.skip(0) =~= model);
    while k < properties.len()
        invariant
            k <= properties.len(),
            model == properties.deep_view(),
            property_value(model, key@) == property_value(model.skip(k as int), key@),
        decreases properties.len() - k,
    {
        proof {
            assert(model.skip(k as int)[0] == model[k as int]);
            assert(model.skip(k as int).drop_first() =~= model.skip(k + 1));
        }
        if same_text(properties[k].key.as_str(), key) {
            return Some(properties[k].value.as_str());
        }
        k += 1;
    }
    None
}

fn copy_row(properties: &Vec<Property>) -> (r: Vec<Property>)
    ensures
        r.deep_view() == properties.deep_view(),
{
    let mut out: Vec<Property> = Vec::new();
    let mut k: usize = 0;
    while k < properties.len()
        invariant
            k <= properties.len(),
            out.len() == k,
            forall|j: int| 0 <= j < k ==> #[trigger] out.deep_view()[j] == properties.deep_view()[j],
        decreases properties.len() - k,
    {
        let ghost before = out.deep_view();
        out.push(Property { key: properties[k].key.clone(), value: properties[k].value.clone() });
        assert(out.deep_view() =~= before.push(properties.deep_view()[k as int]));
        k += 1;
    }
    assert(out.deep_view() =~= properties.deep_view());
    out
}

impl Properties {
    /// Compiles the property rows of an enumeration.
    pub fn generate(descriptor: &EnumDescriptor) -> (r: Properties)
        ensures
            r@ == properties_table(descriptor@),
    {
        let variants = descriptor.variants();
        let ghost model = descriptor@;
        let mut rows: Vec<Vec<Property>> = Vec::new();
        let mut i: usize = 0;
        while i < variants.len()
            invariant
                i <= variants.len(),
                variants.deep_view() == model.variants,
                rows.len() == i,
                forall|j: int|
                    0 <= j < i ==> #[trigger] rows.deep_view()[j] == model.variants[j].properties,
            decreases variants.len() - i,
        {
            let ghost before = rows.deep_view();
            let row = copy_row(&variants[i].properties);
            proof {
                assert(model.variants[i as int] == variants@[i as int]@);
            }
            rows.push(row);
            assert(rows.deep_view() =~= before.push(model.variants[i as int].properties));
            i += 1;
        }
        proof {
            assert(rows.deep_view() =~= properties_table(model));
        }
        Properties { rows }
    }

    /// The value that the variant of `instance` holds under `key`. Only the
    /// tag is read.
    pub fn get_str(&self, instance: &Instance, key: &str) -> (r: Option<&str>)
        ensures
            r.deep_view() == property_at(self@, instance.tag as int, key@),
    {
        if instance.tag < self.rows.len() {
            assert(self@[instance.tag as int] == self.rows@[instance.tag as int].deep_view());
            lookup(&self.rows[instance.tag], key)
        } else {
            None
        }
    }

    /// The value under `key`, read as an integer.
    pub fn get_int(&self, instance: &Instance, key: &str) -> (r: Option<usize>)
        ensures
            r == int_reading(property_at(self@, instance.tag as int, key@)),
    {
        match self.get_str(instance, key) {
            Some(text) => read_int(text),
            None => None,
        }
    }

    /// The value under `key`, read as a truth value.
    pub fn get_bool(&self, instance: &Instance, key: &str) -> (r: Option<bool>)
        ensures
            r == bool_reading(property_at(self@, instance.tag as int, key@)),
    {
        match self.get_str(instance, key) {
            Some(text) => read_bool(text),
            None => None,
        }
    }
}

} // verus!
