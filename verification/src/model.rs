//! The data model: users, the speaker lookup table, and transcript blocks.

use vstd::prelude::*;

verus! {

/// The mathematical model of a [`User`]: its field list, in order, with both
/// field names and field values as character sequences.
pub type UserFields = Seq<(Seq<char>, Seq<char>)>;

/// A user record: an open list of named string fields (for example `name`,
/// `key`, `color`, `avatar`) that a template may read.
#[derive(Debug, Clone)]
pub struct User {
    pub fields: Vec<(String, String)>,
}

impl View for User {
    type V = UserFields;

    open spec fn view(&self) -> UserFields {
        self.fields.deep_view()
    }
}

impl DeepView for User {
    type V = UserFields;

    open spec fn deep_view(&self) -> UserFields {
        self.view()
    }
}

/// The speaker lookup table: an ordered list of (speaker name, user record)
/// entries. Parsing resolves speaker tokens against it in order, first match
/// winning; rendering exposes its records, in table order, to the template.
#[derive(Debug, Clone)]
pub struct Config {
    pub people: Vec<(String, User)>,
}

impl Config {
    /// The model of the table: entries in order, with names and records
    /// replaced by their mathematical views.
    pub open spec fn view(&self) -> Seq<(Seq<char>, UserFields)> {
        self.people.deep_view()
    }
}

/// The mathematical model of a [`ChatlogBlock`].
pub enum BlockView {
    Timestamp { message: Seq<char> },
    Post { user: UserFields, message: Seq<char> },
}

/// One parsed unit of transcript output: either a freeform timestamp line or
/// a group of consecutive message lines attributed to one speaker.
#[derive(Debug, Clone)]
pub enum ChatlogBlock {
    Timestamp { message: String },
    Post { user: User, message: String },
}

impl View for ChatlogBlock {
    type V = BlockView;

    open spec fn view(&self) -> BlockView {
        match self {
            ChatlogBlock::Timestamp { message } => BlockView::Timestamp { message: message@ },
            ChatlogBlock::Post { user, message } => BlockView::Post {
                user: user@,
                message: message@,
            },
        }
    }
}

impl DeepView for ChatlogBlock {
    type V = BlockView;

    open spec fn deep_view(&self) -> BlockView {
        self.view()
    }
}

} // verus!
