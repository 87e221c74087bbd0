//! Log events as the loggers see them: where an event comes from, how severe
//! it is, and the fields that were recorded with it, each as the text that
//! stands for its value.

use vstd::prelude::*;
use crate::config::LevelFilter;

verus! {

/// What is known of an event before its fields are looked at.
#[derive(Clone, Debug, PartialEq, Eq)]
pub struct Metadata {
    /// The level of the event. `OFF` is the level of no event: a logger takes
    /// no event that claims it.
    pub level: LevelFilter,
    /// Where the event comes from.
    pub target: String,
}

/// A field of an event: its name, and its value as text.
#[derive(Clone, Debug, PartialEq, Eq)]
pub struct Field {
    pub name: String,
    pub value: String,
}

/// An event: its metadata and its fields, in the order in which they were
/// recorded.
#[derive(Clone, Debug, PartialEq, Eq)]
pub struct Event {
    pub metadata: Metadata,
    pub fields: Vec<Field>,
}

/// The name of the field that holds the message of an event.
pub const MESSAGE_FIELD_NAME: &'static str = "message";

/// The name of the field that holds the message of an event.
pub open spec fn message_name() -> Seq<char> {
    seq!['m', 'e', 's', 's', 'a', 'g', 'e']
}

/// The values of the fields with the name `name`, one after the other.
pub open spec fn values_of(fields: Seq<Field>, name: Seq<char>) -> Seq<char>
    decreases fields.len(),
{
    if fields.len() == 0 {
        Seq::empty()
    } else if fields.last().name@ == name {
        values_of(fields.drop_last(), name) + fields.last().value@
    } else {
        values_of(fields.drop_last(), name)
    }
}

/// The values of the fields with the name `name`, each on a line of its own.
pub open spec fn lines_of(fields: Seq<Field>, name: Seq<char>) -> Seq<char>
    decreases fields.len(),
{
    if fields.len() == 0 {
        Seq::empty()
    } else if fields.last().name@ == name {
        lines_of(fields.drop_last(), name) + fields.last().value@ + seq!['\n']
    } else {
        lines_of(fields.drop_last(), name)
    }
}

/// A field as `name=value`.
pub open spec fn pair(field: Field) -> Seq<char> {
    field.name@ + seq!['='] + field.value@
}

/// The fields with another name than `name`, each as `name=value`, with a
/// space between one and the next.
pub open spec fn others_of(fields: Seq<Field>, name: Seq<char>) -> Seq<char>
    decreases fields.len(),
{
    if fields.len() == 0 {
        Seq::empty()
    } else if fields.last().name@ == name {
        others_of(fields.drop_last(), name)
    } else if others_of(fields.drop_last(), name).len() == 0 {
        pair(fields.last())
    } else {
        others_of(fields.drop_last(), name) + seq![' '] + pair(fields.last())
    }
}

/// Whether a name is that of the field that holds the message.
pub fn is_message(name: &String) -> (r: bool)
    ensures
        r == (name@ == message_name()),
{
    let message = MESSAGE_FIELD_NAME.to_owned();
    proof {
        reveal_strlit("message");
        assert(message@ =~= message_name());
    }
    *name == message
}

} // verus!
