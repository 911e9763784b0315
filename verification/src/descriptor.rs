//! The validator: from the variants as the host hands them over to the
//! descriptor of the enumeration, or to the failure that stops generation.

use crate::annotation::{values_of, Key, RawVariant, RawVariantModel};
use crate::error::{ValidationError, ValidationErrorModel};
use crate::model::{EnumModel, VariantDescriptor, VariantModel};
use crate::resolve::{
    canonical_of, contains_text, describe, describe_variant, first_of, lemma_distinct,
    lemma_longest_exists, resolved, serializations_of,
};
use crate::text::same_text;
use vstd::prelude::*;

verus! {

/// What the host guarantees of the variants it hands over: there is at least
/// one, and no two have the same name.
pub open spec fn well_declared(raw: Seq<RawVariantModel>) -> bool {
    &&& raw.len() > 0
    &&& forall|i: int, j: int|
        0 <= i < j < raw.len() ==> (#[trigger] raw[i]).name != (#[trigger] raw[j]).name
}

/// Variant `i` is the first, in declaration order, whose annotations fail.
pub open spec fn is_first_failure(raw: Seq<RawVariantModel>, i: int) -> bool {
    &&& 0 <= i < raw.len()
    &&& describe_variant(raw[i]) is Err
    &&& forall|j: int| 0 <= j < i ==> describe_variant(#[trigger] raw[j]) is Ok
}

/// The failure of the first variant whose annotations fail.
pub open spec fn first_failure(raw: Seq<RawVariantModel>) -> Option<ValidationErrorModel> {
    if exists|i: int| is_first_failure(raw, i) {
        Some(describe_variant(raw[choose|i: int| is_first_failure(raw, i)])->Err_0)
    } else {
        None
    }
}

/// The variants as their annotations resolve, in declaration order.
pub open spec fn described(raw: Seq<RawVariantModel>) -> EnumModel {
    EnumModel { variants: Seq::new(raw.len(), |i: int| resolved(raw[i])) }
}

/// What validation makes of an enumeration. The variants are parsed in
/// declaration order, and the first failure among them ends it. The checks
/// on the whole enumeration follow: more than one default variant; then a
/// string that two variants match.
pub open spec fn describe_enum(raw: Seq<RawVariantModel>) -> Result<
    EnumModel,
    ValidationErrorModel,
> {
    match first_failure(raw) {
        Some(error) => Err(error),
        None => if !described(raw).single_default() {
            Err(ValidationErrorModel::MultipleDefaultVariants)
        } else if !described(raw).unambiguous() {
            Err(ValidationErrorModel::DuplicateSerialization)
        } else {
            Ok(described(raw))
        },
    }
}

/// A variant whose annotations are valid resolves to a well-formed
/// descriptor.
pub proof fn lemma_resolved_wf(raw: RawVariantModel)
    requires
        describe_variant(raw) is Ok,
    ensures
        describe_variant(raw) == Ok::<VariantModel, ValidationErrorModel>(resolved(raw)),
        resolved(raw).wf(),
        resolved(raw).name == raw.name,
{
    let serialize = values_of(raw.annotations, Key::Serialize);
    let to_string = first_of(values_of(raw.annotations, Key::ToString));
    let authored = match to_string {
        Some(text) => serialize.push(text),
        None => serialize,
    };
    let all = serializations_of(raw.name, serialize, to_string);
    let canonical = canonical_of(raw.name, serialize, to_string);
    lemma_distinct(authored);
    if authored.len() == 0 {
        assert(all[0] == raw.name);
    } else {
        match to_string {
            Some(text) => {
                assert(authored.last() == text);
                assert(authored.contains(text));
            },
            None => {
                lemma_longest_exists(serialize);
            },
        }
    }
}

/// What validation lets through is well formed: an enumeration that the host
/// declared well and whose validation did not fail has at least one variant,
/// distinct names, well-formed variants, at most one default variant, and no
/// string that two variants match.
pub proof fn validated_is_well_formed(raw: Seq<RawVariantModel>)
    requires
        well_declared(raw),
        describe_enum(raw) is Ok,
    ensures
        describe_enum(raw) == Ok::<EnumModel, ValidationErrorModel>(described(raw)),
        described(raw).wf(),
{
    let all = described(raw);
    assert forall|j: int| 0 <= j < all.variants.len() implies (#[trigger] all.variants[j]).wf()
        && all.variants[j].name == raw[j].name by {
        if describe_variant(raw[j]) is Err {
            lemma_some_failure(raw, j);
        }
        lemma_resolved_wf(raw[j]);
    }
    assert forall|x: int, y: int| 0 <= x < y < all.variants.len() implies (
    #[trigger] all.variants[x]).name != (#[trigger] all.variants[y]).name by {
        assert(all.variants[x].name == raw[x].name);
        assert(all.variants[y].name == raw[y].name);
    }
}

/// Where the annotations of some variant fail, there is a first such
/// variant.
pub proof fn lemma_some_failure(raw: Seq<RawVariantModel>, i: int)
    requires
        0 <= i < raw.len(),
        describe_variant(raw[i]) is Err,
    ensures
        first_failure(raw) is Some,
    decreases i,
{
    if exists|j: int| 0 <= j < i && describe_variant(#[trigger] raw[j]) is Err {
        let j = choose|j: int| 0 <= j < i && describe_variant(#[trigger] raw[j]) is Err;
        lemma_some_failure(raw, j);
    } else {
        assert(is_first_failure(raw, i));
    }
}

/// Whether the variants are what a host may hand over.
pub fn is_well_declared(raw: &Vec<RawVariant>) -> (r: bool)
    ensures
        r == well_declared(raw.deep_view()),
{
    if raw.len() == 0 {
        return false;
    }
    let ghost model = raw.deep_view();
    let mut b: usize = 0;
    while b < raw.len()
        invariant
            b <= raw.len(),
            model == raw.deep_view(),
            forall|x: int, y: int|
                0 <= x < y < b ==> (#[trigger] model[x]).name != (#[trigger] model[y]).name,
        decreases raw.len() - b,
    {
        let mut a: usize = 0;
        while a < b
            invariant
                a <= b < raw.len(),
                model == raw.deep_view(),
                forall|x: int| 0 <= x < a ==> (#[trigger] model[x]).name != model[b as int].name,
            decreases b - a,
        {
            if same_text(raw[a].name.as_str(), raw[b].name.as_str()) {
                assert(model[a as int].name == model[b as int].name);
                return false;
            }
            a += 1;
        }
        b += 1;
    }
    true
}

/// The first of the variants before `limit` that matches `text`.
pub fn find_match(variants: &Vec<VariantDescriptor>, limit: usize, text: &str) -> (r: Option<
    usize,
>)
    requires
        limit <= variants.len(),
    ensures
        match r {
            Some(i) => i < limit && variants.deep_view()[i as int].accepts(text@) && forall|j: int|
                0 <= j < i ==> !(#[trigger] variants.deep_view()[j]).accepts(text@),
            None => forall|j: int|
                0 <= j < limit ==> !(#[trigger] variants.deep_view()[j]).accepts(text@),
        },
{
    let mut i: usize = 0;
    while i < limit
        invariant
            i <= limit <= variants.len(),
            forall|j: int| 0 <= j < i ==> !(#[trigger] variants.deep_view()[j]).accepts(text@),
        decreases limit - i,
    {
        if !variants[i].is_disabled && contains_text(&variants[i].serializations, text) {
            return Some(i);
        }
        i += 1;
    }
    None
}

/// The descriptor of one enumeration: its variants in declaration order,
/// validated. It is built once, by [`EnumDescriptor::build`], and read by the
/// generators.
#[derive(Debug, PartialEq, Eq)]
pub struct EnumDescriptor {
    variants: Vec<VariantDescriptor>,
}

impl View for EnumDescriptor {
    type V = EnumModel;

    closed spec fn view(&self) -> EnumModel {
        EnumModel { variants: self.variants.deep_view() }
    }
}

impl EnumDescriptor {
    #[verifier::type_invariant]
    spec fn valid(&self) -> bool {
        self@.wf()
    }

    /// Parses the annotations of every variant and validates the
    /// enumeration as a whole. Any failure stops the work: there is no
    /// descriptor, so nothing can be generated.
    pub fn build(raw: &Vec<RawVariant>) -> (r: Result<EnumDescriptor, ValidationError>)
        requires
            well_declared(raw.deep_view()),
        ensures
            match r {
                Ok(descriptor) => describe_enum(raw.deep_view()) == Ok::<
                    EnumModel,
                    ValidationErrorModel,
                >(descriptor@) && descriptor@.wf(),
                Err(error) => describe_enum(raw.deep_view()) == Err::<
                    EnumModel,
                    ValidationErrorModel,
                >(error@),
            },
    {
        let ghost model = raw.deep_view();
        let mut variants: Vec<VariantDescriptor> = Vec::new();
        let mut i: usize = 0;
        while i < raw.len()
            invariant
                i <= raw.len(),
                model == raw.deep_view(),
                variants.len() == i,
                forall|j: int| 0 <= j < i ==> describe_variant(#[trigger] model[j]) is Ok,
                forall|j: int| 0 <= j < i ==> (#[trigger] variants.deep_view()[j]) == resolved(model[j]),
            decreases raw.len() - i,
        {
            match describe(&raw[i]) {
                Ok(variant) => {
                    let ghost before = variants.deep_view();
                    proof {
                        lemma_resolved_wf(model[i as int]);
                    }
                    variants.push(variant);
                    assert(variants.deep_view() =~= before.push(resolved(model[i as int])));
                },
                Err(error) => {
                    proof {
                        lemma_first_failure(model, i as int);
                    }
                    return Err(error);
                },
            }
            i += 1;
        }
        let ghost all = described(model);
        proof {
            assert(first_failure(model) is None);
            assert(variants.deep_view() =~= all.variants);
        }
        let mut seen = false;
        let mut d: usize = 0;
        while d < variants.len()
            invariant
                d <= variants.len(),
                variants.deep_view() == all.variants,
                model == raw.deep_view(),
                first_failure(model) is None,
                all == described(model),
                seen == (exists|j: int| 0 <= j < d && (#[trigger] all.variants[j]).is_default),
                forall|x: int, y: int|
                    0 <= x < y < d ==> !((#[trigger] all.variants[x]).is_default && (
                    #[trigger] all.variants[y]).is_default),
            decreases variants.len() - d,
        {
            if variants[d].is_default {
                if seen {
                    proof {
                        let x = choose|j: int| 0 <= j < d && (#[trigger] all.variants[j]).is_default;
                        assert(all.variants[x].is_default && all.variants[d as int].is_default);
                    }
                    return Err(ValidationError::MultipleDefaultVariants);
                }
                seen = true;
            }
            d += 1;
        }
        assert(all.single_default());
        let mut v: usize = 0;
        while v < variants.len()
            invariant
                v <= variants.len(),
                variants.deep_view() == all.variants,
                model == raw.deep_view(),
                first_failure(model) is None,
                all == described(model),
                all.single_default(),
                forall|x: int, y: int, text: Seq<char>|
                    #![trigger all.variants[x].accepts(text), all.variants[y].accepts(text)]
                    0 <= x < y < v ==> !(all.variants[x].accepts(text) && all.variants[y].accepts(
                        text,
                    )),
            decreases variants.len() - v,
        {
            if !variants[v].is_disabled {
                let mut a: usize = 0;
                while a < variants[v].serializations.len()
                    invariant
                        v < variants.len(),
                        a <= variants[v as int].serializations.len(),
                        variants.deep_view() == all.variants,
                        model == raw.deep_view(),
                        first_failure(model) is None,
                        all == described(model),
                        all.single_default(),
                        !all.variants[v as int].is_disabled,
                        forall|x: int, k: int|
                            0 <= x < v && 0 <= k < a ==> !(#[trigger] all.variants[x]).accepts(
                                #[trigger] all.variants[v as int].serializations[k],
                            ),
                    decreases variants[v as int].serializations.len() - a,
                {
                    match find_match(&variants, v, variants[v].serializations[a].as_str()) {
                        Some(x) => {
                            proof {
                                let text = all.variants[v as int].serializations[a as int];
                                assert(all.variants[v as int] == variants@[v as int]@);
                                assert(text == variants@[v as int].serializations@[a as int]@);
                                assert(all.variants[v as int].serializations.contains(text));
                                assert(all.variants[v as int].accepts(text));
                                assert(all.variants[x as int].accepts(text));
                            }
                            return Err(ValidationError::DuplicateSerialization);
                        },
                        None => {},
                    }
                    a += 1;
                }
            }
            proof {
                assert forall|x: int, y: int, text: Seq<char>|
                    #![trigger all.variants[x].accepts(text), all.variants[y].accepts(text)]
                    0 <= x < y < v + 1 implies !(all.variants[x].accepts(text)
                    && all.variants[y].accepts(text)) by {
                    if y == v && all.variants[y].accepts(text) {
                        let k = choose|k: int|
                            0 <= k < all.variants[y].serializations.len()
                                && all.variants[y].serializations[k] == text;
                        assert(!all.variants[x].accepts(all.variants[v as int].serializations[k]));
                    }
                }
            }
            v += 1;
        }
        proof {
            validated_is_well_formed(model);
        }
        Ok(EnumDescriptor { variants })
    }

    /// The variants, in declaration order.
    pub fn variants(&self) -> (r: &Vec<VariantDescriptor>)
        ensures
            r.deep_view() == self@.variants,
            self@.wf(),
    {
        proof {
            use_type_invariant(self);
        }
        &self.variants
    }

    /// The number of variants.
    pub fn len(&self) -> (r: usize)
        ensures
            r == self@.variants.len(),
            r > 0,
    {
        proof {
            use_type_invariant(self);
        }
        self.variants.len()
    }
}

/// A variant whose annotations fail, with only valid variants before it, is
/// the first failure.
proof fn lemma_first_failure(raw: Seq<RawVariantModel>, i: int)
    requires
        is_first_failure(raw, i),
    ensures
        first_failure(raw) == Some(describe_variant(raw[i])->Err_0),
{
    let c = choose|c: int| is_first_failure(raw, c);
    if c < i {
        assert(describe_variant(raw[c]) is Ok);
    } else if i < c {
        assert(describe_variant(raw[i]) is Ok);
    }
}

} // verus!
