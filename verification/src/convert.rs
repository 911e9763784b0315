//! The string-conversion generator: the table that turns a text into a
//! variant, and the table that turns a variant into its text.

use crate::annotation::RawVariantModel;
use crate::descriptor::{describe_enum, validated_is_well_formed, well_declared, EnumDescriptor};
use crate::error::ParseError;
use crate::model::{neutral, EnumModel, Instance, InstanceModel, VariantModel};
use crate::resolve::plain_variant;
use crate::text::same_text;
use vstd::prelude::*;

verus! {

impl EnumModel {
    /// What parsing `text` means for this enumeration: the first variant that
    /// matches it, with neutral fields; else the default variant, holding
    /// the text; else a failure.
    pub open spec fn parse(self, text: Seq<char>) -> Result<InstanceModel, ParseError> {
        match self.first_match(text) {
            Some(i) => Ok(neutral(i)),
            None => match self.default_variant() {
                Some(d) => Ok(InstanceModel { tag: d, captured: Some(text) }),
                None => Err(ParseError::VariantNotFound),
            },
        }
    }

    /// What writing variant `tag` means: its canonical string.
    pub open spec fn serialize(self, tag: int) -> Seq<char>
        recommends
            0 <= tag < self.variants.len(),
    {
        self.variants[tag].canonical_string
    }
}

/// One arm of the generated match: a string and the variant it stands for.
#[derive(Debug, Clone, PartialEq, Eq)]
pub struct Arm {
    pub text: String,
    pub tag: usize,
}

/// The mathematical counterpart of [`Arm`].
pub struct ArmModel {
    pub text: Seq<char>,
    pub tag: int,
}

impl View for Arm {
    type V = ArmModel;

    open spec fn view(&self) -> ArmModel {
        ArmModel { text: self.text@, tag: self.tag as int }
    }
}

impl DeepView for Arm {
    type V = ArmModel;

    open spec fn deep_view(&self) -> ArmModel {
        self@
    }
}

/// The parse artifact: the arms in declaration order, and the variant that
/// catches what no arm matches.
#[derive(Debug, Clone, PartialEq, Eq)]
pub struct Parser {
    pub arms: Vec<Arm>,
    pub fallback: Option<usize>,
}

/// The mathematical counterpart of [`Parser`].
pub struct ParserModel {
    pub arms: Seq<ArmModel>,
    pub fallback: Option<int>,
}

impl View for Parser {
    type V = ParserModel;

    open spec fn view(&self) -> ParserModel {
        ParserModel {
            arms: self.arms.deep_view(),
            fallback: match self.fallback {
                Some(d) => Some(d as int),
                None => None,
            },
        }
    }
}

impl ParserModel {
    /// Arm `k` is the first whose string is `text`.
    pub open spec fn is_first_arm(self, text: Seq<char>, k: int) -> bool {
        &&& 0 <= k < self.arms.len()
        &&& self.arms[k].text == text
        &&& forall|j: int| 0 <= j < k ==> (#[trigger] self.arms[j]).text != text
    }

    /// The first arm whose string is `text`, if there is one.
    pub open spec fn first_arm(self, text: Seq<char>) -> Option<int> {
        if exists|k: int| self.is_first_arm(text, k) {
            Some(choose|k: int| self.is_first_arm(text, k))
        } else {
            None
        }
    }

    /// What the table makes of `text`.
    pub open spec fn parse(self, text: Seq<char>) -> Result<InstanceModel, ParseError> {
        match self.first_arm(text) {
            Some(k) => Ok(neutral(self.arms[k].tag)),
            None => match self.fallback {
                Some(d) => Ok(InstanceModel { tag: d, captured: Some(text) }),
                None => Err(ParseError::VariantNotFound),
            },
        }
    }
}

/// The arms that one variant contributes: one for each of its
/// serializations, none if it is disabled.
pub open spec fn arms_of_variant(variant: VariantModel, tag: int) -> Seq<ArmModel> {
    if variant.is_disabled {
        Seq::empty()
    } else {
        Seq::new(
            variant.serializations.len(),
            |k: int| ArmModel { text: variant.serializations[k], tag },
        )
    }
}

/// The arms of the variants, in declaration order.
pub open spec fn arms_of(variants: Seq<VariantModel>) -> Seq<ArmModel>
    decreases variants.len(),
{
    if variants.len() == 0 {
        Seq::empty()
    } else {
        arms_of(variants.drop_last()) + arms_of_variant(variants.last(), variants.len() - 1)
    }
}

/// The parse table of an enumeration.
pub open spec fn parser_of(model: EnumModel) -> ParserModel {
    ParserModel { arms: arms_of(model.variants), fallback: model.default_variant() }
}

/// Every arm stands for a variant that matches its string, and every string
/// that a variant matches has an arm.
pub proof fn lemma_arms(variants: Seq<VariantModel>)
    ensures
        forall|k: int|
            0 <= k < arms_of(variants).len() ==> {
                let arm = #[trigger] arms_of(variants)[k];
                0 <= arm.tag < variants.len() && variants[arm.tag].accepts(arm.text)
            },
        forall|i: int, text: Seq<char>|
            0 <= i < variants.len() && (#[trigger] variants[i].accepts(text)) ==> exists|k: int|
                0 <= k < arms_of(variants).len() && #[trigger] arms_of(variants)[k] == (ArmModel {
                    text,
                    tag: i,
                }),
    decreases variants.len(),
{
    if variants.len() > 0 {
        let before = variants.drop_last();
        let last = variants.last();
        let tag = variants.len() - 1;
        let head = arms_of(before);
        let tail = arms_of_variant(last, tag);
        lemma_arms(before);
        assert forall|k: int| 0 <= k < arms_of(variants).len() implies {
            let arm = #[trigger] arms_of(variants)[k];
            0 <= arm.tag < variants.len() && variants[arm.tag].accepts(arm.text)
        } by {
            if k < head.len() {
                let arm = head[k];
                assert(before[arm.tag] == variants[arm.tag]);
            } else {
                let arm = tail[k - head.len()];
                assert(last.serializations[k - head.len()] == arm.text);
            }
        }
        assert forall|i: int, text: Seq<char>|
            0 <= i < variants.len() && (#[trigger] variants[i].accepts(text)) implies exists|
            k: int,
        |
            0 <= k < arms_of(variants).len() && #[trigger] arms_of(variants)[k] == (ArmModel {
                text,
                tag: i,
            }) by {
            if i < before.len() {
                assert(before[i].accepts(text));
                let k = choose|k: int|
                    0 <= k < head.len() && #[trigger] head[k] == (ArmModel { text, tag: i });
                assert(arms_of(variants)[k] == head[k]);
            } else {
                let a = choose|a: int|
                    0 <= a < last.serializations.len() && last.serializations[a] == text;
                assert(tail[a] == (ArmModel { text, tag: i }));
                assert(arms_of(variants)[head.len() + a] == tail[a]);
            }
        }
    }
}

/// The generated table parses as the enumeration asks: for a validated
/// enumeration, the first arm that matches a text belongs to the one variant
/// that matches it.
pub proof fn lemma_parser_agrees(model: EnumModel, text: Seq<char>)
    requires
        model.wf(),
    ensures
        parser_of(model).parse(text) == model.parse(text),
{
    let table = parser_of(model);
    lemma_arms(model.variants);
    if exists|k: int| table.is_first_arm(text, k) {
        let k = choose|k: int| table.is_first_arm(text, k);
        let tag = table.arms[k].tag;
        assert(model.variants[tag].accepts(text));
        lemma_match_is_first(model, text, tag);
    } else {
        if exists|i: int| model.is_first_match(text, i) {
            let i = choose|i: int| model.is_first_match(text, i);
            assert(model.variants[i].accepts(text));
            let k = choose|k: int|
                0 <= k < table.arms.len() && #[trigger] table.arms[k] == (ArmModel { text, tag: i });
            lemma_first_arm_exists(table, text, k);
        }
    }
}

/// Where no text is matched by two variants, a variant that matches a text
/// is the first that does.
pub proof fn lemma_match_is_first(model: EnumModel, text: Seq<char>, i: int)
    requires
        model.unambiguous(),
        0 <= i < model.variants.len(),
        model.variants[i].accepts(text),
    ensures
        model.first_match(text) == Some(i),
{
    assert(model.is_first_match(text, i)) by {
        assert forall|j: int| 0 <= j < i implies !(#[trigger] model.variants[j]).accepts(text) by {
            if model.variants[j].accepts(text) {
                assert(model.variants[i].accepts(text));
            }
        }
    }
    let c = choose|c: int| model.is_first_match(text, c);
    if c < i {
        assert(model.variants[c].accepts(text));
    } else if i < c {
        assert(model.variants[i].accepts(text));
    }
}

/// Writing and parsing again gives the variant back. In a validated
/// enumeration every variant that takes part in parsing is parsed, from the
/// string it is written as, to itself with neutral fields.
pub proof fn round_trip(model: EnumModel, tag: int)
    requires
        model.wf(),
        0 <= tag < model.variants.len(),
        !model.variants[tag].is_disabled,
    ensures
        model.parse(model.serialize(tag)) == Ok::<InstanceModel, ParseError>(neutral(tag)),
        parser_of(model).parse(canonical_strings(model)[tag]) == Ok::<InstanceModel, ParseError>(
            neutral(tag),
        ),
{
    assert(model.variants[tag].wf());
    lemma_match_is_first(model, model.serialize(tag), tag);
    lemma_parser_agrees(model, model.serialize(tag));
}

/// The round trip by name. A variant without annotations, in an enumeration
/// that validation lets through, is written as its name, and its name is
/// parsed to the variant with neutral fields.
pub proof fn round_trip_by_name(raw: Seq<RawVariantModel>, tag: int)
    requires
        well_declared(raw),
        describe_enum(raw) is Ok,
        0 <= tag < raw.len(),
        raw[tag].annotations.len() == 0,
    ensures
        ({
            let model = describe_enum(raw)->Ok_0;
            &&& model.serialize(tag) == raw[tag].name
            &&& model.parse(raw[tag].name) == Ok::<InstanceModel, ParseError>(neutral(tag))
            &&& parser_of(model).parse(canonical_strings(model)[tag]) == Ok::<
                InstanceModel,
                ParseError,
            >(neutral(tag))
        }),
{
    validated_is_well_formed(raw);
    plain_variant(raw[tag]);
    round_trip(describe_enum(raw)->Ok_0, tag);
}

/// The default variant catches what nothing matches. In a validated
/// enumeration with a default variant, every text that no variant matches
/// is parsed to the default variant holding that very text.
pub proof fn default_catches(model: EnumModel, default: int, text: Seq<char>)
    requires
        model.wf(),
        0 <= default < model.variants.len(),
        model.variants[default].is_default,
        forall|i: int| 0 <= i < model.variants.len() ==> !(#[trigger] model.variants[i]).accepts(text),
    ensures
        model.parse(text) == Ok::<InstanceModel, ParseError>(
            InstanceModel { tag: default, captured: Some(text) },
        ),
        parser_of(model).parse(text) == model.parse(text),
{
    assert(model.is_first_default(default)) by {
        assert forall|j: int| 0 <= j < default implies !(#[trigger] model.variants[j]).is_default by {
            if model.variants[j].is_default {
                assert(model.variants[default].is_default);
            }
        }
    }
    lemma_default_is_first(model, default);
    lemma_parser_agrees(model, text);
}

/// Without a default variant, a text that no variant matches names no
/// variant.
pub proof fn unmatched_fails(model: EnumModel, text: Seq<char>)
    requires
        model.wf(),
        forall|i: int| 0 <= i < model.variants.len() ==> !(#[trigger] model.variants[i]).is_default,
        forall|i: int| 0 <= i < model.variants.len() ==> !(#[trigger] model.variants[i]).accepts(text),
    ensures
        model.parse(text) == Err::<InstanceModel, ParseError>(ParseError::VariantNotFound),
        parser_of(model).parse(text) == model.parse(text),
{
    lemma_parser_agrees(model, text);
}

/// Where some arm has the string `text`, there is a first such arm.
pub proof fn lemma_first_arm_exists(table: ParserModel, text: Seq<char>, k: int)
    requires
        0 <= k < table.arms.len(),
        table.arms[k].text == text,
    ensures
        exists|f: int| table.is_first_arm(text, f),
    decreases k,
{
    if exists|j: int| 0 <= j < k && (#[trigger] table.arms[j]).text == text {
        let j = choose|j: int| 0 <= j < k && (#[trigger] table.arms[j]).text == text;
        lemma_first_arm_exists(table, text, j);
    } else {
        assert(table.is_first_arm(text, k));
    }
}

impl Parser {
    /// Compiles the parse table of an enumeration.
    pub fn generate(descriptor: &EnumDescriptor) -> (r: Parser)
        ensures
            r@ == parser_of(descriptor@),
            forall|text: Seq<char>| #[trigger] r@.parse(text) == descriptor@.parse(text),
    {
        let variants = descriptor.variants();
        let ghost model = descriptor@;
        let mut arms: Vec<Arm> = Vec::new();
        let mut fallback: Option<usize> = None;
        let mut i: usize = 0;
        proof {
            assert(model.variants.take(0) =~= Seq::empty());
            assert(arms.deep_view() =~= Seq::empty());
        }
        while i < variants.len()
            invariant
                i <= variants.len(),
                variants.deep_view() == model.variants,
                arms.deep_view() == arms_of(model.variants.take(i as int)),
                match fallback {
                    Some(d) => model.is_first_default(d as int) && d < i,
                    None => forall|j: int| 0 <= j < i ==> !(#[trigger] model.variants[j]).is_default,
                },
            decreases variants.len() - i,
        {
            proof {
                assert(model.variants.take(i + 1).drop_last() =~= model.variants.take(i as int));
                assert(model.variants.take(i + 1).last() == model.variants[i as int]);
            }
            let ghost head = arms.deep_view();
            let ghost own = arms_of_variant(model.variants[i as int], i as int);
            if !variants[i].is_disabled {
                let mut a: usize = 0;
                assert(arms.deep_view() =~= head + own.take(0));
                while a < variants[i].serializations.len()
                    invariant
                        i < variants.len(),
                        a <= variants[i as int].serializations.len(),
                        variants.deep_view() == model.variants,
                        !variants[i as int].is_disabled,
                        own == arms_of_variant(model.variants[i as int], i as int),
                        arms.deep_view() == head + own.take(a as int),
                    decreases variants[i as int].serializations.len() - a,
                {
                    let ghost before = arms.deep_view();
                    arms.push(Arm { text: variants[i].serializations[a].clone(), tag: i });
                    proof {
                        assert(model.variants[i as int] == variants@[i as int]@);
                        assert(arms.deep_view() =~= before.push(own[a as int]));
                        assert(head + own.take(a + 1) =~= (head + own.take(a as int)).push(
                            own[a as int],
                        ));
                    }
                    a += 1;
                }
                proof {
                    assert(model.variants[i as int] == variants@[i as int]@);
                    assert(own.take(a as int) =~= own);
                }
            } else {
                assert(model.variants[i as int] == variants@[i as int]@);
                assert(head + own =~= head);
            }
            if fallback.is_none() && variants[i].is_default {
                assert(model.variants[i as int] == variants@[i as int]@);
                fallback = Some(i);
            }
            i += 1;
        }
        proof {
            assert(model.variants.take(variants.len() as int) =~= model.variants);
            match fallback {
                Some(d) => {
                    lemma_default_is_first(model, d as int);
                },
                None => {},
            }
            assert forall|text: Seq<char>| #[trigger]
                parser_of(model).parse(text) == model.parse(text) by {
                lemma_parser_agrees(model, text);
            }
        }
        Parser { arms, fallback }
    }

    /// Turns a text into a variant: exact, case-sensitive, untrimmed. The
    /// first arm with the text decides; with no such arm the fallback variant
    /// takes the text as its payload; with no fallback the text names no
    /// variant.
    pub fn parse(&self, text: &str) -> (r: Result<Instance, ParseError>)
        ensures
            match r {
                Ok(instance) => self@.parse(text@) == Ok::<InstanceModel, ParseError>(instance@),
                Err(error) => self@.parse(text@) == Err::<InstanceModel, ParseError>(error),
            },
    {
        let mut k: usize = 0;
        while k < self.arms.len()
            invariant
                k <= self.arms.len(),
                forall|j: int| 0 <= j < k ==> (#[trigger] self@.arms[j]).text != text@,
            decreases self.arms.len() - k,
        {
            if same_text(self.arms[k].text.as_str(), text) {
                proof {
                    assert(self@.arms[k as int] == self.arms@[k as int]@);
                    assert(self@.is_first_arm(text@, k as int));
                    let c = choose|c: int| self@.is_first_arm(text@, c);
                    if c < k {
                        assert(self@.arms[c].text == text@);
                    } else if k < c {
                        assert(self@.arms[k as int].text == text@);
                    }
                }
                return Ok(Instance::neutral(self.arms[k].tag));
            }
            proof {
                assert(self@.arms[k as int] == self.arms@[k as int]@);
            }
            k += 1;
        }
        match self.fallback {
            Some(d) => Ok(Instance { tag: d, captured: Some(text.to_owned()) }),
            None => Err(ParseError::VariantNotFound),
        }
    }
}

/// A default variant with no default variant before it is the default
/// variant of the enumeration.
pub proof fn lemma_default_is_first(model: EnumModel, d: int)
    requires
        model.is_first_default(d),
    ensures
        model.default_variant() == Some(d),
{
    let c = choose|c: int| model.is_first_default(c);
    if c < d {
        assert(!model.variants[c].is_default);
    } else if d < c {
        assert(!model.variants[d].is_default);
    }
}

/// The serialize artifact: the canonical string of every variant, by tag.
#[derive(Debug, Clone, PartialEq, Eq)]
pub struct Serializer {
    pub strings: Vec<String>,
}

impl View for Serializer {
    type V = Seq<Seq<char>>;

    open spec fn view(&self) -> Seq<Seq<char>> {
        self.strings.deep_view()
    }
}

/// The canonical strings of an enumeration, in declaration order.
pub open spec fn canonical_strings(model: EnumModel) -> Seq<Seq<char>> {
    Seq::new(model.variants.len(), |i: int| model.serialize(i))
}

impl Serializer {
    /// Compiles the table of canonical strings. Disabled variants have
    /// theirs too: they are values of the enumeration like the others.
    pub fn generate(descriptor: &EnumDescriptor) -> (r: Serializer)
        ensures
            r@ == canonical_strings(descriptor@),
    {
        let variants = descriptor.variants();
        let ghost model = descriptor@;
        let mut strings: Vec<String> = Vec::new();
        let mut i: usize = 0;
        while i < variants.len()
            invariant
                i <= variants.len(),
                variants.deep_view() == model.variants,
                strings.len() == i,
                forall|j: int| 0 <= j < i ==> #[trigger] strings.deep_view()[j] == model.serialize(j),
            decreases variants.len() - i,
        {
            let ghost before = strings.deep_view();
            strings.push(variants[i].canonical_string.clone());
            proof {
                assert(model.variants[i as int] == variants@[i as int]@);
                assert(strings.deep_view() =~= before.push(model.serialize(i as int)));
            }
            i += 1;
        }
        proof {
            assert(strings.deep_view() =~= canonical_strings(model));
        }
        Serializer { strings }
    }

    /// The number of variants that the table covers.
    pub fn len(&self) -> (r: usize)
        ensures
            r == self@.len(),
    {
        self.strings.len()
    }

    /// The canonical string of the variant of `instance`, borrowed from the
    /// table. Only the tag is read: the payload plays no part.
    pub fn as_str(&self, instance: &Instance) -> (r: &str)
        requires
            instance.tag < self@.len(),
        ensures
            r@ == self@[instance.tag as int],
    {
        self.strings[instance.tag].as_str()
    }

    /// The canonical string of the variant of `instance`, as an owned string.
    pub fn to_string(&self, instance: &Instance) -> (r: String)
        requires
            instance.tag < self@.len(),
        ensures
            r@ == self@[instance.tag as int],
    {
        self.strings[instance.tag].clone()
    }
}

} // verus!
