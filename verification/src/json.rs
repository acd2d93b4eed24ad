//! Building the template context data: blocks and user records are turned
//! into JSON values whose shape is pinned down against an abstract model.

use vstd::prelude::*;
use vstd::string::StringExecFns;

use crate::model::BlockView;
use crate::model::ChatlogBlock;
use crate::model::Config;
use crate::model::User;
use crate::model::UserFields;

verus! {

#[verifier::external_type_specification]
#[verifier::external_body]
pub struct ExValue(serde_json::Value);

/// The abstract shape of a JSON value: text, a list, a record keyed by
/// field name, or some other kind of value that this library never
/// builds.
pub enum JsonRepr {
    Text(Seq<char>),
    List(Seq<JsonRepr>),
    Record(Map<Seq<char>, JsonRepr>),
    Other,
}

/// The abstract shape of a `serde_json::Value`.
pub uninterp spec fn json_repr(v: serde_json::Value) -> JsonRepr;

/// The record that a list of (name, value) pairs builds up, a later pair
/// overwriting an earlier one with the same name.
pub open spec fn record_of(ps: Seq<(Seq<char>, JsonRepr)>) -> Map<Seq<char>, JsonRepr>
    decreases ps.len(),
{
    if ps.len() == 0 {
        Map::empty()
    } else {
        record_of(ps.drop_last()).insert(ps.last().0, ps.last().1)
    }
}

/// Relies on `serde_json::Value::String`: wraps the text as a JSON string
/// value.
#[verifier::external_body]
fn json_text(s: &str) -> (v: serde_json::Value)
    ensures
        json_repr(v) == JsonRepr::Text(s@),
{
    serde_json::Value::String(s.to_string())
}

/// Relies on `serde_json::Value::Array`: wraps the values as a JSON array
/// in the given order.
#[verifier::external_body]
fn json_list(items: Vec<serde_json::Value>) -> (v: serde_json::Value)
    ensures
        json_repr(v) == JsonRepr::List(items@.map_values(|x: serde_json::Value| json_repr(x))),
{
    serde_json::Value::Array(items)
}

/// Relies on `serde_json::Value::Object` and `serde_json::Map`'s
/// `FromIterator`: builds a JSON object from the pairs, a later pair
/// overwriting an earlier one with the same key.
#[verifier::external_body]
fn json_record(pairs: Vec<(String, serde_json::Value)>) -> (v: serde_json::Value)
    ensures
        json_repr(v) == JsonRepr::Record(
            record_of(
                pairs@.map_values(|p: (String, serde_json::Value)| (p.0@, json_repr(p.1))),
            ),
        ),
{
    serde_json::Value::Object(pairs.into_iter().collect())
}

/// The JSON shape of a user record: an object with one field per entry.
pub open spec fn spec_user_json(fs: UserFields) -> JsonRepr {
    JsonRepr::Record(
        record_of(fs.map_values(|f: (Seq<char>, Seq<char>)| (f.0, JsonRepr::Text(f.1)))),
    )
}

/// The JSON shape of a block: an object tagged by a `type` field holding
/// `timestamp` or `post`, beside the block's own fields.
pub open spec fn spec_block_json(b: BlockView) -> JsonRepr {
    match b {
        BlockView::Timestamp { message } => JsonRepr::Record(
            record_of(
                seq![
                    ("type"@, JsonRepr::Text("timestamp"@)),
                    ("message"@, JsonRepr::Text(message)),
                ],
            ),
        ),
        BlockView::Post { user, message } => JsonRepr::Record(
            record_of(
                seq![
                    ("type"@, JsonRepr::Text("post"@)),
                    ("user"@, spec_user_json(user)),
                    ("message"@, JsonRepr::Text(message)),
                ],
            ),
        ),
    }
}

/// The JSON value for one user record.
fn user_to_json(u: &User) -> (v: serde_json::Value)
    ensures
        json_repr(v) == spec_user_json(u@),
{
    let mut pairs: Vec<(String, serde_json::Value)> = Vec::new();
    let mut i: usize = 0;
    while i < u.fields.len()
        invariant
            i <= u.fields.len(),
            pairs@.map_values(|p: (String, serde_json::Value)| (p.0@, json_repr(p.1))) == u@.take(
                i as int,
            ).map_values(|f: (Seq<char>, Seq<char>)| (f.0, JsonRepr::Text(f.1))),
        decreases u.fields.len() - i,
    {
        let ghost prev = pairs@.map_values(|p: (String, serde_json::Value)| (p.0@, json_repr(p.1)));
        let name = u.fields[i].0.clone();
        let value = json_text(u.fields[i].1.as_str());
        pairs.push((name, value));
        proof {
            assert(pairs@.map_values(|p: (String, serde_json::Value)| (p.0@, json_repr(p.1)))
                =~= prev.push((u@[i as int].0, JsonRepr::Text(u@[i as int].1))));
            assert(u@.take(i as int + 1).map_values(
                |f: (Seq<char>, Seq<char>)| (f.0, JsonRepr::Text(f.1)),
            ) =~= u@.take(i as int).map_values(
                |f: (Seq<char>, Seq<char>)| (f.0, JsonRepr::Text(f.1)),
            ).push((u@[i as int].0, JsonRepr::Text(u@[i as int].1))));
        }
        i = i + 1;
    }
    proof {
        assert(u@.take(u.fields.len() as int) =~= u@);
    }
    json_record(pairs)
}

/// The JSON value for one block.
fn block_to_json(b: &ChatlogBlock) -> (v: serde_json::Value)
    ensures
        json_repr(v) == spec_block_json(b@),
{
    match b {
        ChatlogBlock::Timestamp { message } => {
            let mut pairs: Vec<(String, serde_json::Value)> = Vec::new();
            let tag = String::from_str("type");
            pairs.push((tag, json_text("timestamp")));
            let label = String::from_str("message");
            pairs.push((label, json_text(message.as_str())));
            let v = json_record(pairs);
            proof {
                assert(pairs@.map_values(|p: (String, serde_json::Value)| (p.0@, json_repr(p.1)))
                    =~= seq![
                    ("type"@, JsonRepr::Text("timestamp"@)),
                    ("message"@, JsonRepr::Text(message@)),
                ]);
            }
            v
        },
        ChatlogBlock::Post { user, message } => {
            let mut pairs: Vec<(String, serde_json::Value)> = Vec::new();
            let tag = String::from_str("type");
            pairs.push((tag, json_text("post")));
            let user_label = String::from_str("user");
            pairs.push((user_label, user_to_json(user)));
            let message_label = String::from_str("message");
            pairs.push((message_label, json_text(message.as_str())));
            let v = json_record(pairs);
            proof {
                assert(pairs@.map_values(|p: (String, serde_json::Value)| (p.0@, json_repr(p.1)))
                    =~= seq![
                    ("type"@, JsonRepr::Text("post"@)),
                    ("user"@, spec_user_json(user@)),
                    ("message"@, JsonRepr::Text(message@)),
                ]);
            }
            v
        },
    }
}

/// The JSON value for the whole block sequence, in order.
pub fn blocks_to_json(blocks: &Vec<ChatlogBlock>) -> (v: serde_json::Value)
    ensures
        json_repr(v) == JsonRepr::List(
            blocks.deep_view().map_values(|b: BlockView| spec_block_json(b)),
        ),
{
    let mut items: Vec<serde_json::Value> = Vec::new();
    let mut i: usize = 0;
    while i < blocks.len()
        invariant
            i <= blocks.len(),
            items@.map_values(|x: serde_json::Value| json_repr(x)) == blocks.deep_view().take(
                i as int,
            ).map_values(|b: BlockView| spec_block_json(b)),
        decreases blocks.len() - i,
    {
        let ghost prev = items@.map_values(|x: serde_json::Value| json_repr(x));
        let v = block_to_json(&blocks[i]);
        items.push(v);
        proof {
            let dv = blocks.deep_view();
            assert(items@.map_values(|x: serde_json::Value| json_repr(x)) =~= prev.push(
                spec_block_json(dv[i as int]),
            ));
            assert(dv.take(i as int + 1).map_values(|b: BlockView| spec_block_json(b)) =~= dv.take(
                i as int,
            ).map_values(|b: BlockView| spec_block_json(b)).push(spec_block_json(dv[i as int])));
        }
        i = i + 1;
    }
    proof {
        assert(blocks.deep_view().take(blocks.len() as int) =~= blocks.deep_view());
    }
    json_list(items)
}

/// The JSON value for the table's user records, in table order.
pub fn users_to_json(config: &Config) -> (v: serde_json::Value)
    ensures
        json_repr(v) == JsonRepr::List(
            config.view().map_values(|p: (Seq<char>, UserFields)| spec_user_json(p.1)),
        ),
{
    let mut items: Vec<serde_json::Value> = Vec::new();
    let mut i: usize = 0;
    while i < config.people.len()
        invariant
            i <= config.people.len(),
            items@.map_values(|x: serde_json::Value| json_repr(x)) == config.view().take(
                i as int,
            ).map_values(|p: (Seq<char>, UserFields)| spec_user_json(p.1)),
        decreases config.people.len() - i,
    {
        let ghost prev = items@.map_values(|x: serde_json::Value| json_repr(x));
        let v = user_to_json(&config.people[i].1);
        items.push(v);
        proof {
            let pv = config.view();
            assert(items@.map_values(|x: serde_json::Value| json_repr(x)) =~= prev.push(
                spec_user_json(pv[i as int].1),
            ));
            assert(pv.take(i as int + 1).map_values(
                |p: (Seq<char>, UserFields)| spec_user_json(p.1),
            ) =~= pv.take(i as int).map_values(
                |p: (Seq<char>, UserFields)| spec_user_json(p.1),
            ).push(spec_user_json(pv[i as int].1)));
        }
        i = i + 1;
    }
    proof {
        assert(config.view().take(config.people.len() as int) =~= config.view());
    }
    json_list(items)
}

} // verus!
