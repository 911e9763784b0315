//! The message generator: the descriptive texts of every variant, by tag.

use crate::descriptor::EnumDescriptor;
use crate::model::{EnumModel, Instance};
use vstd::prelude::*;

verus! {

/// A type whose values carry descriptive texts, one set for each variant.
/// What the three functions return depends on the variant alone, never on
/// the values of its fields.
pub trait EnumMessage {
    /// The message of the variant, if one was authored.
    spec fn message(&self) -> Option<Seq<char>>;

    /// The detailed message of the variant.
    spec fn detailed_message(&self) -> Option<Seq<char>>;

    /// The strings that the variant matches when a text is parsed.
    spec fn serializations(&self) -> Seq<Seq<char>>;

    fn get_message(&self) -> (r: Option<&str>)
        ensures
            r.deep_view() == self.message(),
    ;

    /// Where no detailed message was authored, the message stands in for it.
    fn get_detailed_message(&self) -> (r: Option<&str>)
        ensures
            r.deep_view() == self.detailed_message(),
            self.message() is Some ==> r is Some,
    ;

    fn get_serializations(&self) -> (r: &[&str])
        ensures
            r.deep_view() == self.serializations(),
    ;
}

/// The texts of one variant.
#[derive(Debug, Clone, PartialEq, Eq)]
pub struct MessageRow {
    pub message: Option<String>,
    pub detailed_message: Option<String>,
}

/// The mathematical counterpart of [`MessageRow`].
pub struct MessageRowModel {
    pub message: Option<Seq<char>>,
    pub detailed_message: Option<Seq<char>>,
}

impl View for MessageRow {
    type V = MessageRowModel;

    open spec fn view(&self) -> MessageRowModel {
        MessageRowModel {
            message: self.message.deep_view(),
            detailed_message: self.detailed_message.deep_view(),
        }
    }
}

impl DeepView for MessageRow {
    type V = MessageRowModel;

    open spec fn deep_view(&self) -> MessageRowModel {
        self@
    }
}

/// The message artifact: one row for each variant, by tag.
#[derive(Debug, Clone, PartialEq, Eq)]
pub struct Messages {
    pub rows: Vec<MessageRow>,
}

impl View for Messages {
    type V = Seq<MessageRowModel>;

    open spec fn view(&self) -> Seq<MessageRowModel> {
        self.rows.deep_view()
    }
}

/// The message rows of an enumeration, in declaration order.
pub open spec fn messages_of(model: EnumModel) -> Seq<MessageRowModel> {
    Seq::new(
        model.variants.len(),
        |i: int|
            MessageRowModel {
                message: model.variants[i].message,
                detailed_message: model.variants[i].detailed_message,
            },
    )
}

/// The message that the rows hold for `tag`; none for a tag they do not
/// cover.
pub open spec fn message_at(rows: Seq<MessageRowModel>, tag: int) -> Option<Seq<char>> {
    if 0 <= tag < rows.len() {
        rows[tag].message
    } else {
        None
    }
}

/// The detailed message that the rows hold for `tag`; none for a tag they do
/// not cover.
pub open spec fn detailed_message_at(rows: Seq<MessageRowModel>, tag: int) -> Option<Seq<char>> {
    if 0 <= tag < rows.len() {
        rows[tag].detailed_message
    } else {
        None
    }
}

/// In the rows of a validated enumeration, a variant that has a message has
/// a detailed message too; a variant without either has neither.
pub proof fn detailed_message_falls_back(model: EnumModel, tag: int)
    requires
        model.wf(),
    ensures
        message_at(messages_of(model), tag) is Some ==> detailed_message_at(
            messages_of(model),
            tag,
        ) is Some,
        !(0 <= tag < model.variants.len()) ==> message_at(messages_of(model), tag) is None
            && detailed_message_at(messages_of(model), tag) is None,
{
    if 0 <= tag < model.variants.len() {
        assert(model.variants[tag].wf());
    }
}

fn borrowed(text: &Option<String>) -> (r: Option<&str>)
    ensures
        r.deep_view() == text.deep_view(),
{
    match text {
        Some(text) => Some(text.as_str()),
        None => None,
    }
}

fn copied(text: &Option<String>) -> (r: Option<String>)
    ensures
        r.deep_view() == text.deep_view(),
{
    match text {
        Some(text) => Some(text.clone()),
        None => None,
    }
}

impl Messages {
    /// Compiles the message rows of an enumeration.
    pub fn generate(descriptor: &EnumDescriptor) -> (r: Messages)
        ensures
            r@ == messages_of(descriptor@),
    {
        let variants = descriptor.variants();
        let ghost model = descriptor@;
        let mut rows: Vec<MessageRow> = Vec::new();
        let mut i: usize = 0;
        while i < variants.len()
            invariant
                i <= variants.len(),
                variants.deep_view() == model.variants,
                rows.len() == i,
                forall|j: int| 0 <= j < i ==> #[trigger] rows.deep_view()[j] == messages_of(model)[j],
            decreases variants.len() - i,
        {
            let ghost before = rows.deep_view();
            let row = MessageRow {
                message: copied(&variants[i].message),
                detailed_message: copied(&variants[i].detailed_message),
            };
            proof {
                assert(model.variants[i as int] == variants@[i as int]@);
                assert(row@ == messages_of(model)[i as int]);
            }
            rows.push(row);
            assert(rows.deep_view() =~= before.push(messages_of(model)[i as int]));
            i += 1;
        }
        proof {
            assert(rows.deep_view() =~= messages_of(model));
        }
        Messages { rows }
    }

    /// The message of the variant of `instance`. Only the tag is read.
    pub fn get_message(&self, instance: &Instance) -> (r: Option<&str>)
        ensures
            r.deep_view() == message_at(self@, instance.tag as int),
    {
        if instance.tag < self.rows.len() {
            assert(self@[instance.tag as int] == self.rows@[instance.tag as int]@);
            borrowed(&self.rows[instance.tag].message)
        } else {
            None
        }
    }

    /// The detailed message of the variant of `instance`. Only the tag is
    /// read.
    pub fn get_detailed_message(&self, instance: &Instance) -> (r: Option<&str>)
        ensures
            r.deep_view() == detailed_message_at(self@, instance.tag as int),
    {
        if instance.tag < self.rows.len() {
            assert(self@[instance.tag as int] == self.rows@[instance.tag as int]@);
            borrowed(&self.rows[instance.tag].detailed_message)
        } else {
            None
        }
    }
}

} // verus!
