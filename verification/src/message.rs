//! Where an incoming OwnTracks message goes: the location table, the
//! generic message table, or nowhere.

use vstd::prelude::*;
use crate::json::{json_string_member, read_string_member};
use crate::owntracks::{parse_topic, parse_topic_spec};
use crate::text::{opt_view, str_equals};

verus! {

/// What a payload is, by its `_type` member.
#[derive(Clone, Debug, PartialEq)]
pub enum MessageKind {
    /// The payload is not JSON; it is not stored.
    NotJson,
    /// `_type` is `"location"`: a location fix.
    Location,
    /// Any other message, with its `_type` when it has a string one.
    Message(Option<String>),
}

/// The type tag of a payload: its `_type` member, as `json_string_member`
/// reports it.
pub open spec fn json_type_tag(payload: Seq<char>) -> Option<Option<Seq<char>>> {
    json_string_member(payload, "_type"@)
}

/// Whether `k` is the kind that the type tag `tag` (as `json_type_tag`
/// reports it) calls for.
pub open spec fn kind_for_tag(k: MessageKind, tag: Option<Option<Seq<char>>>) -> bool {
    match tag {
        None => k is NotJson,
        Some(Some(t)) => if t == "location"@ {
            k is Location
        } else {
            k matches MessageKind::Message(m) && opt_view(m) == Some(t)
        },
        Some(None) => k matches MessageKind::Message(m) && m is None,
    }
}

/// The kind of a payload whose type tag has been read as `tag`.
pub fn kind_of_tag(tag: Option<Option<String>>) -> (k: MessageKind)
    ensures
        kind_for_tag(k, match tag {
            None => None,
            Some(t) => Some(opt_view(t)),
        }),
{
    match tag {
        None => MessageKind::NotJson,
        Some(None) => MessageKind::Message(None),
        Some(Some(t)) => {
            if str_equals(t.as_str(), "location") {
                MessageKind::Location
            } else {
                MessageKind::Message(Some(t))
            }
        },
    }
}

/// The kind of a payload.
pub fn message_kind(payload: &str) -> (k: MessageKind)
    ensures
        kind_for_tag(k, json_type_tag(payload@)),
{
    let tag = read_string_member(payload, "_type");
    kind_of_tag(tag)
}

/// Where a message published on the broker goes.
#[derive(Clone, Debug, PartialEq)]
pub struct Publish {
    pub user: String,
    pub device: String,
    pub kind: MessageKind,
}

/// The routing of one publish: user and device from the topic, kind from
/// the payload.
pub fn route_publish(topic: &str, payload: &str) -> (r: Publish)
    ensures
        (r.user@, r.device@) == parse_topic_spec(topic@),
        kind_for_tag(r.kind, json_type_tag(payload@)),
{
    let (user, device) = parse_topic(topic);
    let kind = message_kind(payload);
    Publish { user, device, kind }
}

} // verus!
