//! How the annotation entries of one variant resolve to its descriptor.

use crate::annotation::{
    first_unknown, flagged, flags_valid, is_first_unknown, properties_of, recognize, values_of,
    Annotation, AnnotationModel, Key, RawVariant, RawVariantModel,
};
use crate::error::{ValidationError, ValidationErrorModel};
use crate::model::{keys_distinct, Property, PropertyModel, VariantDescriptor, VariantModel};
use crate::text::{byte_len, same_text, text_len};
use vstd::prelude::*;

verus! {

/// The first of the values, if there is any.
pub open spec fn first_of(values: Seq<Seq<char>>) -> Option<Seq<char>> {
    if values.len() > 0 {
        Some(values[0])
    } else {
        None
    }
}

/// The values without repetition: each at the place where it first occurs.
pub open spec fn distinct(values: Seq<Seq<char>>) -> Seq<Seq<char>>
    decreases values.len(),
{
    if values.len() == 0 {
        Seq::empty()
    } else {
        let before = distinct(values.drop_last());
        if before.contains(values.last()) {
            before
        } else {
            before.push(values.last())
        }
    }
}

/// `values[k]` is the longest of the values, and the first of that length.
pub open spec fn is_longest_at(values: Seq<Seq<char>>, k: int) -> bool {
    &&& 0 <= k < values.len()
    &&& forall|j: int| 0 <= j < values.len() ==> byte_len(#[trigger] values[j]) <= byte_len(values[k])
    &&& forall|j: int| 0 <= j < k ==> byte_len(#[trigger] values[j]) < byte_len(values[k])
}

/// The longest of the values; among several of that length, the one
/// authored first.
pub open spec fn longest(values: Seq<Seq<char>>) -> Seq<char>
    recommends
        values.len() > 0,
{
    values[choose|k: int| is_longest_at(values, k)]
}

/// The strings that a variant matches when a text is parsed: every
/// `serialize` value and the `to_string` value, each once, in authored order;
/// the name where neither was authored.
pub open spec fn serializations_of(
    name: Seq<char>,
    serialize: Seq<Seq<char>>,
    to_string: Option<Seq<char>>,
) -> Seq<Seq<char>> {
    let authored = match to_string {
        Some(text) => serialize.push(text),
        None => serialize,
    };
    if authored.len() == 0 {
        seq![name]
    } else {
        distinct(authored)
    }
}

/// The string that a variant is written as: the `to_string` value; else the
/// longest `serialize` value; else the name.
pub open spec fn canonical_of(
    name: Seq<char>,
    serialize: Seq<Seq<char>>,
    to_string: Option<Seq<char>>,
) -> Seq<char> {
    match to_string {
        Some(text) => text,
        None => if serialize.len() > 0 {
            longest(serialize)
        } else {
            name
        },
    }
}

/// The descriptor that the entries of a variant resolve to, if they are valid.
pub open spec fn resolved(raw: RawVariantModel) -> VariantModel {
    let serialize = values_of(raw.annotations, Key::Serialize);
    let to_string = first_of(values_of(raw.annotations, Key::ToString));
    let message = first_of(values_of(raw.annotations, Key::Message));
    let detailed = first_of(values_of(raw.annotations, Key::DetailedMessage));
    VariantModel {
        name: raw.name,
        shape: raw.shape,
        serializations: serializations_of(raw.name, serialize, to_string),
        canonical_string: canonical_of(raw.name, serialize, to_string),
        is_disabled: flagged(raw.annotations, Key::Disabled),
        is_default: flagged(raw.annotations, Key::Default),
        message,
        detailed_message: if detailed is Some {
            detailed
        } else {
            message
        },
        properties: properties_of(raw.annotations),
    }
}

/// What the annotation parser makes of one variant: its descriptor, or the
/// failure of the highest rank among those that its entries show. The ranks,
/// from the highest: an unknown key (the first one, in authored order); a
/// flag with a value other than `true`; a property key declared twice; the
/// default flag on a shape that cannot capture a text.
pub open spec fn describe_variant(raw: RawVariantModel) -> Result<
    VariantModel,
    ValidationErrorModel,
> {
    if first_unknown(raw.annotations) is Some {
        Err(ValidationErrorModel::UnknownAttribute(first_unknown(raw.annotations).unwrap()))
    } else if !flags_valid(raw.annotations) {
        Err(ValidationErrorModel::InvalidFlagValue)
    } else if !keys_distinct(properties_of(raw.annotations)) {
        Err(ValidationErrorModel::DuplicatePropertyKey)
    } else if flagged(raw.annotations, Key::Default) && !raw.shape.captures_text() {
        Err(ValidationErrorModel::InvalidDefaultVariantShape)
    } else {
        Ok(resolved(raw))
    }
}

/// Among values that are not empty, one is the longest and the first of its
/// length.
pub proof fn lemma_longest_exists(values: Seq<Seq<char>>)
    requires
        values.len() > 0,
    ensures
        exists|k: int| is_longest_at(values, k),
        values.contains(longest(values)),
    decreases values.len(),
{
    if values.len() == 1 {
        assert(is_longest_at(values, 0));
    } else {
        let before = values.drop_last();
        lemma_longest_exists(before);
        let b = choose|k: int| is_longest_at(before, k);
        let last = values.len() - 1;
        assert(forall|j: int| 0 <= j < before.len() ==> before[j] == values[j]);
        if byte_len(values[last]) > byte_len(values[b]) {
            assert(is_longest_at(values, last));
        } else {
            assert(is_longest_at(values, b));
        }
    }
    let k = choose|k: int| is_longest_at(values, k);
    assert(values[k] == longest(values));
}

/// Only one place holds the longest value that is the first of its length.
pub proof fn lemma_longest_unique(values: Seq<Seq<char>>, a: int, b: int)
    requires
        is_longest_at(values, a),
        is_longest_at(values, b),
    ensures
        a == b,
{
    if a < b {
        assert(byte_len(values[a]) < byte_len(values[b]));
        assert(byte_len(values[b]) <= byte_len(values[a]));
    } else if b < a {
        assert(byte_len(values[b]) < byte_len(values[a]));
        assert(byte_len(values[a]) <= byte_len(values[b]));
    }
}

/// Dropping repetitions keeps every value, once.
pub proof fn lemma_distinct(values: Seq<Seq<char>>)
    ensures
        distinct(values).no_duplicates(),
        forall|text: Seq<char>| distinct(values).contains(text) <==> values.contains(text),
        values.len() > 0 ==> distinct(values).len() > 0,
    decreases values.len(),
{
    if values.len() > 0 {
        let before = values.drop_last();
        let last = values.last();
        lemma_distinct(before);
        let kept = distinct(before);
        assert forall|text: Seq<char>| distinct(values).contains(text) <==> values.contains(
            text,
        ) by {
            if values.contains(text) {
                let i = choose|i: int| 0 <= i < values.len() && values[i] == text;
                if i < before.len() {
                    assert(before[i] == text);
                    assert(before.contains(text));
                    assert(kept.contains(text));
                    let j = choose|j: int| 0 <= j < kept.len() && kept[j] == text;
                    assert(distinct(values)[j] == text);
                } else {
                    if kept.contains(last) {
                    } else {
                        assert(distinct(values)[kept.len() as int] == text);
                    }
                }
            }
            if distinct(values).contains(text) {
                let j = choose|j: int| 0 <= j < distinct(values).len() && distinct(values)[j] == text;
                if j < kept.len() {
                    assert(kept[j] == text);
                    assert(kept.contains(text));
                    assert(before.contains(text));
                    let i = choose|i: int| 0 <= i < before.len() && before[i] == text;
                    assert(values[i] == text);
                } else {
                    assert(text == last);
                    assert(values[values.len() - 1] == text);
                }
            }
        }
        if kept.contains(last) {
        } else {
            assert forall|a: int, b: int|
                0 <= a < distinct(values).len() && 0 <= b < distinct(values).len() && a
                    != b implies distinct(values)[a] != distinct(values)[b] by {
                if a < kept.len() && b < kept.len() {
                    assert(kept[a] != kept[b]);
                } else if a < kept.len() {
                    assert(kept.contains(kept[a]));
                } else {
                    assert(kept.contains(kept[b]));
                }
            }
        }
    }
}

/// How a variant is written is settled by its annotations alone, in this
/// order: the first `to_string` value; with none, the longest `serialize`
/// value, the first one among several of that length; with none of either,
/// the name. What it is written as is also among the strings it matches.
pub proof fn canonical_string_is_settled(raw: RawVariantModel)
    requires
        describe_variant(raw) is Ok,
    ensures
        ({
            let variant = describe_variant(raw)->Ok_0;
            let to_string = values_of(raw.annotations, Key::ToString);
            let serialize = values_of(raw.annotations, Key::Serialize);
            &&& to_string.len() > 0 ==> variant.canonical_string == to_string[0]
            &&& to_string.len() == 0 && serialize.len() > 0 ==> exists|k: int|
                is_longest_at(serialize, k) && variant.canonical_string == serialize[k]
            &&& to_string.len() == 0 && serialize.len() == 0 ==> variant.canonical_string
                == raw.name && variant.serializations == seq![raw.name]
        }),
{
    let serialize = values_of(raw.annotations, Key::Serialize);
    if serialize.len() > 0 {
        lemma_longest_exists(serialize);
    }
}

/// A variant without annotations is known by its name alone: it matches its
/// name, is written as its name, and takes part in parsing.
pub proof fn plain_variant(raw: RawVariantModel)
    requires
        raw.annotations.len() == 0,
    ensures
        describe_variant(raw) is Ok,
        ({
            let variant = describe_variant(raw)->Ok_0;
            &&& variant.name == raw.name
            &&& variant.serializations == seq![raw.name]
            &&& variant.canonical_string == raw.name
            &&& !variant.is_disabled
            &&& !variant.is_default
            &&& variant.message is None
            &&& variant.detailed_message is None
            &&& variant.properties.len() == 0
        }),
{
}

/// Whether `text` is among `list`.
pub fn contains_text(list: &Vec<String>, text: &str) -> (r: bool)
    ensures
        r == list.deep_view().contains(text@),
{
    let mut k: usize = 0;
    while k < list.len()
        invariant
            k <= list.len(),
            forall|j: int| 0 <= j < k ==> list.deep_view()[j] != text@,
        decreases list.len() - k,
    {
        if same_text(list[k].as_str(), text) {
            assert(list.deep_view()[k as int] == text@);
            return true;
        }
        k += 1;
    }
    false
}

/// Whether no key occurs twice among `properties`.
pub fn distinct_keys(properties: &Vec<Property>) -> (r: bool)
    ensures
        r == keys_distinct(properties.deep_view()),
{
    let ghost model = properties.deep_view();
    let mut b: usize = 0;
    while b < properties.len()
        invariant
            b <= properties.len(),
            model == properties.deep_view(),
            forall|x: int, y: int| 0 <= x < y < b ==> (#[trigger] model[x]).key != (
            #[trigger] model[y]).key,
        decreases properties.len() - b,
    {
        let mut a: usize = 0;
        while a < b
            invariant
                a <= b < properties.len(),
                model == properties.deep_view(),
                forall|x: int| 0 <= x < a ==> (#[trigger] model[x]).key != model[b as int].key,
            decreases b - a,
        {
            if same_text(properties[a].key.as_str(), properties[b].key.as_str()) {
                assert(model[a as int].key == model[b as int].key);
                return false;
            }
            a += 1;
        }
        b += 1;
    }
    true
}

/// The place of the longest of `values`; among several of that length, the
/// first.
pub fn longest_index(values: &Vec<String>) -> (r: usize)
    requires
        values.len() > 0,
    ensures
        is_longest_at(values.deep_view(), r as int),
        values.deep_view()[r as int] == longest(values.deep_view()),
{
    let ghost model = values.deep_view();
    let mut best: usize = 0;
    let mut k: usize = 1;
    while k < values.len()
        invariant
            1 <= k <= values.len(),
            best < k,
            model == values.deep_view(),
            forall|j: int| 0 <= j < k ==> byte_len(#[trigger] model[j]) <= byte_len(model[best as int]),
            forall|j: int| 0 <= j < best ==> byte_len(#[trigger] model[j]) < byte_len(model[best as int]),
        decreases values.len() - k,
    {
        if text_len(values[k].as_str()) > text_len(values[best].as_str()) {
            best = k;
        }
        k += 1;
    }
    proof {
        assert(is_longest_at(model, best as int));
        let c = choose|c: int| is_longest_at(model, c);
        lemma_longest_unique(model, c, best as int);
    }
    best
}

/// A copy of `values` without repetition.
pub fn without_repeats(values: &Vec<String>) -> (r: Vec<String>)
    ensures
        r.deep_view() == distinct(values.deep_view()),
{
    let ghost model = values.deep_view();
    let mut out: Vec<String> = Vec::new();
    let mut k: usize = 0;
    assert(model.take(0) =~= Seq::empty());
    assert(out.deep_view() =~= Seq::empty());
    while k < values.len()
        invariant
            k <= values.len(),
            model == values.deep_view(),
            out.deep_view() == distinct(model.take(k as int)),
        decreases values.len() - k,
    {
        proof {
            assert(model.take(k + 1).drop_last() =~= model.take(k as int));
            assert(model.take(k + 1).last() == model[k as int]);
        }
        let ghost before = out.deep_view();
        if !contains_text(&out, values[k].as_str()) {
            out.push(values[k].clone());
            assert(out.deep_view() =~= before.push(model[k as int]));
        }
        k += 1;
    }
    proof {
        assert(model.take(values.len() as int) =~= model);
    }
    out
}

/// Appends a copy of each of `entries` to `properties`.
pub fn append_properties(properties: &mut Vec<Property>, entries: &Vec<Property>)
    ensures
        final(properties).deep_view() == old(properties).deep_view() + entries.deep_view(),
{
    let ghost start = properties.deep_view();
    let ghost added = entries.deep_view();
    let mut k: usize = 0;
    assert(properties.deep_view() =~= start + added.take(0));
    while k < entries.len()
        invariant
            k <= entries.len(),
            added == entries.deep_view(),
            properties.deep_view() == start + added.take(k as int),
        decreases entries.len() - k,
    {
        let ghost before = properties.deep_view();
        properties.push(Property { key: entries[k].key.clone(), value: entries[k].value.clone() });
        assert(properties.deep_view() =~= before.push(added[k as int]));
        assert(start + added.take(k + 1) =~= (start + added.take(k as int)).push(added[k as int]));
        k += 1;
    }
    proof {
        assert(added.take(entries.len() as int) =~= added);
    }
}

/// The annotation parser for one variant.
pub fn describe(raw: &RawVariant) -> (r: Result<VariantDescriptor, ValidationError>)
    ensures
        match r {
            Ok(variant) => describe_variant(raw@) == Ok::<VariantModel, ValidationErrorModel>(
                variant@,
            ),
            Err(error) => describe_variant(raw@) == Err::<VariantModel, ValidationErrorModel>(
                error@,
            ),
        },
{
    let ghost entries = raw.annotations.deep_view();
    let mut serialize: Vec<String> = Vec::new();
    let mut to_string: Option<String> = None;
    let mut message: Option<String> = None;
    let mut detailed: Option<String> = None;
    let mut is_disabled = false;
    let mut is_default = false;
    let mut flags_ok = true;
    let mut properties: Vec<Property> = Vec::new();
    let mut i: usize = 0;
    proof {
        assert(entries.take(0) =~= Seq::empty());
        assert(serialize.deep_view() =~= Seq::empty());
        assert(properties.deep_view() =~= Seq::empty());
    }
    while i < raw.annotations.len()
        invariant
            i <= raw.annotations.len(),
            entries == raw.annotations.deep_view(),
            forall|j: int| 0 <= j < i ==> (#[trigger] entries[j]).recognized(),
            flags_ok == (forall|j: int| 0 <= j < i ==> (#[trigger] entries[j]).flag_valid()),
            is_disabled == (exists|j: int|
                0 <= j < i && (#[trigger] entries[j]).sets_flag(Key::Disabled)),
            is_default == (exists|j: int|
                0 <= j < i && (#[trigger] entries[j]).sets_flag(Key::Default)),
            serialize.deep_view() == values_of(entries.take(i as int), Key::Serialize),
            to_string.deep_view() == first_of(values_of(entries.take(i as int), Key::ToString)),
            message.deep_view() == first_of(values_of(entries.take(i as int), Key::Message)),
            detailed.deep_view() == first_of(
                values_of(entries.take(i as int), Key::DetailedMessage),
            ),
            properties.deep_view() == properties_of(entries.take(i as int)),
        decreases raw.annotations.len() - i,
    {
        proof {
            assert(entries.take(i + 1).drop_last() =~= entries.take(i as int));
            assert(entries.take(i + 1).last() == entries[i as int]);
        }
        let ghost authored = serialize.deep_view();
        match &raw.annotations[i] {
            Annotation::Pair { key, value } => {
                match recognize(key.as_str()) {
                    Some(Key::Serialize) => {
                        serialize.push(value.clone());
                        assert(serialize.deep_view() =~= authored.push(value@));
                    },
                    Some(Key::ToString) => {
                        if to_string.is_none() {
                            to_string = Some(value.clone());
                        }
                    },
                    Some(Key::Message) => {
                        if message.is_none() {
                            message = Some(value.clone());
                        }
                    },
                    Some(Key::DetailedMessage) => {
                        if detailed.is_none() {
                            detailed = Some(value.clone());
                        }
                    },
                    Some(Key::Default) => {
                        if same_text(value.as_str(), "true") {
                            is_default = true;
                        } else {
                            flags_ok = false;
                        }
                    },
                    Some(Key::Disabled) => {
                        if same_text(value.as_str(), "true") {
                            is_disabled = true;
                        } else {
                            flags_ok = false;
                        }
                    },
                    _ => {
                        proof {
                            lemma_first_unknown(entries, i as int);
                        }
                        return Err(ValidationError::UnknownAttribute(key.clone()));
                    },
                }
            },
            Annotation::Block { key, entries: block } => {
                match recognize(key.as_str()) {
                    Some(Key::Props) => {
                        append_properties(&mut properties, block);
                    },
                    _ => {
                        proof {
                            lemma_first_unknown(entries, i as int);
                        }
                        return Err(ValidationError::UnknownAttribute(key.clone()));
                    },
                }
            },
        }
        i += 1;
    }
    proof {
        assert(entries.take(raw.annotations.len() as int) =~= entries);
        assert(first_unknown(entries) is None);
    }
    if !flags_ok {
        return Err(ValidationError::InvalidFlagValue);
    }
    if !distinct_keys(&properties) {
        return Err(ValidationError::DuplicatePropertyKey);
    }
    if is_default && !raw.shape.captures_text() {
        return Err(ValidationError::InvalidDefaultVariantShape);
    }
    let canonical_string = match &to_string {
        Some(text) => text.clone(),
        None => if serialize.len() > 0 {
            serialize[longest_index(&serialize)].clone()
        } else {
            raw.name.clone()
        },
    };
    let ghost authored = serialize.deep_view();
    match &to_string {
        Some(text) => {
            serialize.push(text.clone());
            assert(serialize.deep_view() =~= authored.push(text@));
        },
        None => {},
    }
    let serializations = if serialize.len() == 0 {
        let mut only: Vec<String> = Vec::new();
        only.push(raw.name.clone());
        assert(only.deep_view() =~= seq![raw.name@]);
        only
    } else {
        without_repeats(&serialize)
    };
    let detailed_message = match detailed {
        Some(text) => Some(text),
        None => match &message {
            Some(text) => Some(text.clone()),
            None => None,
        },
    };
    Ok(
        VariantDescriptor {
            name: raw.name.clone(),
            shape: raw.shape.duplicate(),
            serializations,
            canonical_string,
            is_disabled,
            is_default,
            message,
            detailed_message,
            properties,
        },
    )
}

/// An entry that is not recognized, with only recognized entries before it,
/// is the first unknown one.
proof fn lemma_first_unknown(entries: Seq<AnnotationModel>, i: int)
    requires
        is_first_unknown(entries, i),
    ensures
        first_unknown(entries) == Some(entries[i].key()),
{
    let c = choose|c: int| is_first_unknown(entries, c);
    if c < i {
        assert(entries[c].recognized());
    } else if i < c {
        assert(entries[i].recognized());
    }
}

} // verus!
