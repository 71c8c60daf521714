//! The payload of a response: the members of one JSON object.

use crate::error::ServiceError;
use vstd::prelude::*;
use vstd::std_specs::cmp::PartialEqSpecImpl;
use vstd::string::*;

verus! {

/// `serde_json::Value`, a JSON value of any kind. Nothing inside it is seen
/// here: a payload carries such values and has them written out.
#[verifier::external_type_specification]
#[verifier::external_body]
pub struct ExJsonValue(serde_json::Value);

/// `serde_json::Error`, why a text was not read. Only that it came is used.
#[verifier::external_type_specification]
#[verifier::external_body]
pub struct ExJsonError(serde_json::Error);

/// The text that `serde_json` writes for a value: compact JSON, with no white
/// space between its tokens.
pub uninterp spec fn json_text(value: serde_json::Value) -> Seq<char>;

/// What `serde_json` reads from `body` as one JSON object: each key with the
/// JSON text of its value. `None` where it reads no object: for text that is
/// not JSON, for JSON of another kind, and for what the parser refuses, such
/// as a number out of range.
pub uninterp spec fn json_object(body: Seq<u8>) -> Option<Map<Seq<char>, Seq<char>>>;

/// One member of a JSON object.
#[derive(Debug, PartialEq)]
pub struct Member {
    pub key: String,
    pub value: serde_json::Value,
}

impl View for Member {
    type V = (Seq<char>, Seq<char>);

    open spec fn view(&self) -> (Seq<char>, Seq<char>) {
        (self.key@, json_text(self.value))
    }
}

/// The views of a list of members, in the list's order.
pub open spec fn member_views(members: Seq<Member>) -> Seq<(Seq<char>, Seq<char>)> {
    members.map_values(|member: Member| member@)
}

/// The mapping that a list of members stands for. Where a key occurs more
/// than once, its last occurrence counts.
pub open spec fn members_map(members: Seq<(Seq<char>, Seq<char>)>) -> Map<Seq<char>, Seq<char>>
    decreases members.len(),
{
    if members.len() == 0 {
        Map::empty()
    } else {
        members_map(members.drop_last()).insert(members.last().0, members.last().1)
    }
}

/// Calls `serde_json::from_slice` for a `HashMap` from `String` to
/// `serde_json::Value`, and hands out the entries of that map as members, in
/// no particular order. Claimed: whether the call succeeds, and which keys
/// and values it gives, depends on the bytes alone; that mapping is named
/// `json_object`.
#[verifier::external_body]
fn parse_object(body: &[u8]) -> (parsed: Result<Vec<Member>, serde_json::Error>)
    ensures
        match parsed {
            Ok(members) => json_object(body@) == Some(members_map(member_views(members@))),
            Err(_) => json_object(body@) is None,
        },
{
    serde_json::from_slice::<std::collections::HashMap<String, serde_json::Value>>(body).map(
        |fields| fields.into_iter().map(|(key, value)| Member { key, value }).collect(),
    )
}

/// Calls `to_string` on a `serde_json::Value`, whose `Display` writes the
/// value as compact JSON. Claimed: the text depends on the value alone; it is
/// named `json_text`.
#[verifier::external_body]
fn render_json(value: &serde_json::Value) -> (text: String)
    ensures
        text@ == json_text(*value),
{
    value.to_string()
}

/// A key that stands in no member is not in the mapping.
pub proof fn lemma_members_map_absent(members: Seq<(Seq<char>, Seq<char>)>, key: Seq<char>)
    requires
        forall|i: int| 0 <= i < members.len() ==> (#[trigger] members[i]).0 != key,
    ensures
        !members_map(members).contains_key(key),
    decreases members.len(),
{
    if members.len() > 0 {
        let front = members.drop_last();
        assert forall|i: int| 0 <= i < front.len() implies (#[trigger] front[i]).0 != key by {
            assert(front[i] == members[i]);
        }
        lemma_members_map_absent(front, key);
        assert(members.last() == members[members.len() - 1]);
    }
}

/// A key that stands in a member is in the mapping.
pub proof fn lemma_members_map_present(members: Seq<(Seq<char>, Seq<char>)>, at: int)
    requires
        0 <= at < members.len(),
    ensures
        members_map(members).contains_key(members[at].0),
    decreases members.len(),
{
    if at < members.len() - 1 {
        let front = members.drop_last();
        assert(front[at] == members[at]);
        lemma_members_map_present(front, at);
    }
}

/// The last member with a key gives the key's value in the mapping.
pub proof fn lemma_members_map_last(members: Seq<(Seq<char>, Seq<char>)>, at: int, key: Seq<char>)
    requires
        0 <= at < members.len(),
        members[at].0 == key,
        forall|i: int| at < i < members.len() ==> (#[trigger] members[i]).0 != key,
    ensures
        members_map(members).contains_key(key),
        members_map(members)[key] == members[at].1,
    decreases members.len(),
{
    let front = members.drop_last();
    if at == members.len() - 1 {
    } else {
        assert forall|i: int| at < i < front.len() implies (#[trigger] front[i]).0 != key by {
            assert(front[i] == members[i]);
        }
        assert(front[at] == members[at]);
        lemma_members_map_last(front, at, key);
        assert(members.last() == members[members.len() - 1]);
    }
}

/// Whether every key of `inner` has the same value in `outer`.
pub open spec fn map_included(
    inner: Map<Seq<char>, Seq<char>>,
    outer: Map<Seq<char>, Seq<char>>,
) -> bool {
    forall|key: Seq<char>| #[trigger]
        inner.contains_key(key) ==> outer.contains_key(key) && outer[key] == inner[key]
}

/// The members of a JSON object, as a mapping from keys to values.
#[derive(Debug)]
pub struct Payload {
    members: Vec<Member>,
}

impl View for Payload {
    type V = Map<Seq<char>, Seq<char>>;

    /// Each key with the compact JSON text of its value.
    closed spec fn view(&self) -> Map<Seq<char>, Seq<char>> {
        members_map(member_views(self.members@))
    }
}

impl Payload {
    /// The payload that a list of members stands for.
    pub fn from_members(members: Vec<Member>) -> (payload: Payload)
        ensures
            payload@ == members_map(member_views(members@)),
    {
        Payload { members }
    }

    /// The value under `key`, if the payload has one.
    pub fn get(&self, key: &str) -> (found: Option<&serde_json::Value>)
        ensures
            match found {
                Some(value) => self@.contains_key(key@) && self@[key@] == json_text(*value),
                None => !self@.contains_key(key@),
            },
    {
        let wanted = String::from_str(key);
        let ghost views = member_views(self.members@);
        let mut i: usize = self.members.len();
        while i > 0
            invariant
                i <= self.members.len(),
                wanted@ == key@,
                views == member_views(self.members@),
                forall|j: int| i <= j < views.len() ==> (#[trigger] views[j]).0 != key@,
            decreases i,
        {
            i -= 1;
            if self.members[i].key == wanted {
                proof {
                    assert(views[i as int] == self.members@[i as int]@);
                    lemma_members_map_last(views, i as int, key@);
                }
                return Some(&self.members[i].value);
            }
            proof {
                assert(views[i as int] == self.members@[i as int]@);
            }
        }
        proof {
            lemma_members_map_absent(views, key@);
        }
        None
    }

    /// Whether every key of this payload has the same value in `other`.
    pub fn included_in(&self, other: &Payload) -> (included: bool)
        ensures
            included == map_included(self@, other@),
    {
        let ghost views = member_views(self.members@);
        let mut i: usize = 0;
        while i < self.members.len()
            invariant
                i <= self.members.len(),
                views == member_views(self.members@),
                forall|j: int|
                    0 <= j < i ==> {
                        &&& self@.contains_key((#[trigger] views[j]).0)
                        &&& other@.contains_key(views[j].0)
                        &&& other@[views[j].0] == self@[views[j].0]
                    },
            decreases self.members.len() - i,
        {
            let key = self.members[i].key.as_str();
            proof {
                assert(views[i as int] == self.members@[i as int]@);
            }
            let same = match (self.render(key), other.render(key)) {
                (Some(mine), Some(theirs)) => mine == theirs,
                _ => false,
            };
            if !same {
                proof {
                    lemma_members_map_present(views, i as int);
                }
                return false;
            }
            i += 1;
        }
        proof {
            assert forall|key: Seq<char>| #[trigger]
                self@.contains_key(key) implies other@.contains_key(key) && other@[key]
                == self@[key] by {
                if forall|j: int| 0 <= j < views.len() ==> (#[trigger] views[j]).0 != key {
                    lemma_members_map_absent(views, key);
                }
            }
        }
        true
    }

    /// Whether the payload has a value under `key`.
    pub fn contains_key(&self, key: &str) -> (present: bool)
        ensures
            present == self@.contains_key(key@),
    {
        self.get(key).is_some()
    }

    /// The compact JSON text of the value under `key`, if the payload has one.
    pub fn render(&self, key: &str) -> (text: Option<String>)
        ensures
            match text {
                Some(t) => self@.contains_key(key@) && t@ == self@[key@],
                None => !self@.contains_key(key@),
            },
    {
        match self.get(key) {
            Some(value) => Some(render_json(value)),
            None => None,
        }
    }
}

impl PartialEq for Payload {
    /// Two payloads are equal where they hold the same keys with the same
    /// values, in whatever order their members stand.
    fn eq(&self, other: &Payload) -> (same: bool) {
        let same = self.included_in(other) && other.included_in(self);
        proof {
            if same {
                assert(self@ =~= other@);
            }
        }
        same
    }
}

impl PartialEqSpecImpl for Payload {
    open spec fn obeys_eq_spec() -> bool {
        true
    }

    open spec fn eq_spec(&self, other: &Payload) -> bool {
        self@ == other@
    }
}

/// What a fetch makes of a parsed body: the payload of a JSON object, and a
/// format error for anything else.
pub fn payload_from_parsed(parsed: Result<Vec<Member>, serde_json::Error>) -> (outcome: Result<
    Payload,
    ServiceError,
>)
    ensures
        match parsed {
            Ok(members) => outcome matches Ok(payload) && payload@ == members_map(
                member_views(members@),
            ),
            Err(_) => outcome matches Err(error) && error == ServiceError::ResponseFormat,
        },
{
    match parsed {
        Ok(members) => Ok(Payload::from_members(members)),
        Err(_) => Err(ServiceError::ResponseFormat),
    }
}

/// Reads a response body: the payload where the body is the text of one JSON
/// object, and a format error where it is not.
pub fn parse_payload(body: &[u8]) -> (outcome: Result<Payload, ServiceError>)
    ensures
        match outcome {
            Ok(payload) => json_object(body@) == Some(payload@),
            Err(error) => error == ServiceError::ResponseFormat && json_object(body@) is None,
        },
{
    payload_from_parsed(parse_object(body))
}

} // verus!
