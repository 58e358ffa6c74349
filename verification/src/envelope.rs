//! Wire shapes exchanged between the kernel and the front-ends: the text
//! envelope, its decoding from a JSON object, and the binary frame.

use serde_json::Value;
use uuid::Uuid;
use vstd::bytes::{spec_u32_to_le_bytes, spec_u64_to_le_bytes, u32_to_le_bytes, u64_to_le_bytes};
use vstd::prelude::*;
use vstd::slice::slice_to_vec;
use vstd::string::StringSliceAdditionalSpecFns;

verus! {

/// Asks the kernel for the entries of its root directory.
pub const GET_BASE_PATH_LIST_REQUEST: i32 = 1;

/// Asks the kernel for the entries below the path given as content.
pub const GET_CHILDREN_PATH_LIST_REQUEST: i32 = 2;

/// Carries chat or log text that every front-end should see.
pub const TRANSFER_DATA: i32 = 3;

/// Asks for the binary frame that announces a file transfer.
pub const REQUEST_TRANSFER_FILE: i32 = 4;

/// A text command or reply.
#[derive(Debug)]
pub struct Envelope {
    /// Correlation token of the request that this envelope belongs to.
    pub uuid: String,
    /// Opcode of the command.
    pub code: i32,
    /// Payload, whose meaning depends on the opcode.
    pub content: String,
    /// Tag of the payload's kind.
    pub content_type: i32,
}

/// What an [`Envelope`] holds, as mathematical values.
pub struct EnvelopeView {
    pub uuid: Seq<char>,
    pub code: i32,
    pub content: Seq<char>,
    pub content_type: i32,
}

impl View for Envelope {
    type V = EnvelopeView;

    open spec fn view(&self) -> EnvelopeView {
        EnvelopeView {
            uuid: self.uuid@,
            code: self.code,
            content: self.content@,
            content_type: self.content_type,
        }
    }
}

/// The value of one member of a JSON object, as far as envelopes use it.
#[derive(Debug)]
pub enum JsonScalar {
    /// A JSON string.
    Text(String),
    /// A JSON number that is an integer within the range of `i64`.
    Integer(i64),
    /// Anything else: null, a boolean, another number, an array, an object.
    Other,
}

/// What a [`JsonScalar`] holds, as mathematical values.
pub enum ScalarView {
    Text(Seq<char>),
    Integer(i64),
    Other,
}

impl View for JsonScalar {
    type V = ScalarView;

    open spec fn view(&self) -> ScalarView {
        match self {
            JsonScalar::Text(s) => ScalarView::Text(s@),
            JsonScalar::Integer(i) => ScalarView::Integer(*i),
            JsonScalar::Other => ScalarView::Other,
        }
    }
}

/// One member of a JSON object.
#[derive(Debug)]
pub struct JsonMember {
    pub key: String,
    pub value: JsonScalar,
}

/// What a [`JsonMember`] holds, as mathematical values.
pub struct MemberView {
    pub key: Seq<char>,
    pub value: ScalarView,
}

impl View for JsonMember {
    type V = MemberView;

    open spec fn view(&self) -> MemberView {
        MemberView { key: self.key@, value: self.value@ }
    }
}

/// The views of a list of members, in order.
pub open spec fn member_views(members: Seq<JsonMember>) -> Seq<MemberView> {
    Seq::new(members.len(), |i: int| members[i]@)
}

/// The members of the JSON object that `text` spells, or `None` where `text`
/// is not a JSON document or the document is not an object.
pub uninterp spec fn json_object_members(text: Seq<char>) -> Option<Seq<MemberView>>;

/// Parses `text` with `serde_json::from_str` into a `serde_json::Value` and
/// hands out the members of the object it found. The contract only names the
/// outcome: it is a function of the text, `None` when the parser fails or the
/// document is no object.
#[verifier::external_body]
fn parse_object(text: &str) -> (out: Option<Vec<JsonMember>>)
    ensures
        out is Some == json_object_members(text@) is Some,
        out matches Some(members) ==> json_object_members(text@) == Some(member_views(members@)),
{
    match serde_json::from_str::<Value>(text) {
        Ok(Value::Object(map)) => Some(map.into_iter().map(|(key, value)| JsonMember {
            key,
            value: match value {
                Value::String(s) => JsonScalar::Text(s),
                Value::Number(n) => n.as_i64().map_or(JsonScalar::Other, JsonScalar::Integer),
                _ => JsonScalar::Other,
            },
        }).collect()),
        _ => None,
    }
}

/// The value of the first member named `key`, if there is one.
pub open spec fn member_value(members: Seq<MemberView>, key: Seq<char>) -> Option<ScalarView>
    decreases members.len(),
{
    if members.len() == 0 {
        None
    } else if members[0].key == key {
        Some(members[0].value)
    } else {
        member_value(members.drop_first(), key)
    }
}

/// The string that the member `key` holds, if it holds one.
pub open spec fn text_member(members: Seq<MemberView>, key: Seq<char>) -> Option<Seq<char>> {
    match member_value(members, key) {
        Some(ScalarView::Text(s)) => Some(s),
        _ => None,
    }
}

/// The integer that the member `key` holds, if it holds one that fits `i32`.
pub open spec fn integer_member(members: Seq<MemberView>, key: Seq<char>) -> Option<i32> {
    match member_value(members, key) {
        Some(ScalarView::Integer(i)) => if i32::MIN <= i <= i32::MAX {
            Some(i as i32)
        } else {
            None
        },
        _ => None,
    }
}

/// The envelope that an object with these members spells: all four fields
/// must be present with the right kind of value.
pub open spec fn envelope_of_members(members: Seq<MemberView>) -> Option<EnvelopeView> {
    match (
        text_member(members, "uuid"@),
        integer_member(members, "code"@),
        text_member(members, "content"@),
        integer_member(members, "content_type"@),
    ) {
        (Some(uuid), Some(code), Some(content), Some(content_type)) => Some(
            EnvelopeView { uuid, code, content, content_type },
        ),
        _ => None,
    }
}

/// The envelope that `text` decodes to, if it decodes.
pub open spec fn decoded(text: Seq<char>) -> Option<EnvelopeView> {
    match json_object_members(text) {
        Some(members) => envelope_of_members(members),
        None => None,
    }
}

fn find_member<'a>(members: &'a Vec<JsonMember>, key: &str) -> (out: Option<&'a JsonScalar>)
    ensures
        out is Some == member_value(member_views(members@), key@) is Some,
        out matches Some(value) ==> member_value(member_views(members@), key@) == Some(value@),
{
    let wanted = String::from_str(key);
    let ghost all = member_views(members@);
    let mut i: usize = 0;
    assert(all.skip(0) =~= all);
    while i < members.len()
        invariant
            i <= members.len(),
            wanted@ == key@,
            all == member_views(members@),
            member_value(all, key@) == member_value(all.skip(i as int), key@),
        decreases members.len() - i,
    {
        proof {
            assert(all.skip(i as int)[0] == members@[i as int]@);
            assert(all.skip(i as int).drop_first() =~= all.skip(i + 1));
        }
        if members[i].key == wanted {
            return Some(&members[i].value);
        }
        i += 1;
    }
    assert(all.skip(i as int).len() == 0);
    None
}

fn find_text(members: &Vec<JsonMember>, key: &str) -> (out: Option<String>)
    ensures
        out is Some == text_member(member_views(members@), key@) is Some,
        out matches Some(s) ==> text_member(member_views(members@), key@) == Some(s@),
{
    match find_member(members, key) {
        Some(JsonScalar::Text(s)) => Some(s.clone()),
        _ => None,
    }
}

fn find_integer(members: &Vec<JsonMember>, key: &str) -> (out: Option<i32>)
    ensures
        out == integer_member(member_views(members@), key@),
{
    match find_member(members, key) {
        Some(JsonScalar::Integer(i)) => {
            let i: i64 = *i;
            if -2147483648 <= i && i <= 2147483647 {
                Some(i as i32)
            } else {
                None
            }
        },
        _ => None,
    }
}

/// The view of an optional envelope.
pub open spec fn optional_view(envelope: Option<Envelope>) -> Option<EnvelopeView> {
    match envelope {
        Some(e) => Some(e@),
        None => None,
    }
}

impl Envelope {
    /// Builds the envelope that the members of a JSON object spell. Members
    /// other than the four fields are ignored.
    pub fn from_members(members: &Vec<JsonMember>) -> (out: Option<Envelope>)
        ensures
            optional_view(out) == envelope_of_members(member_views(members@)),
    {
        let uuid = find_text(members, "uuid");
        let code = find_integer(members, "code");
        let content = find_text(members, "content");
        let content_type = find_integer(members, "content_type");
        match (uuid, code, content, content_type) {
            (Some(uuid), Some(code), Some(content), Some(content_type)) => Some(
                Envelope { uuid, code, content, content_type },
            ),
            _ => None,
        }
    }

    /// Decodes the JSON object `text` into an envelope. `None` means that
    /// `text` is no JSON object or lacks a field of the right kind. Where
    /// the text names a member twice, the parser hands out one member of
    /// that name, and this is the one that counts.
    pub fn decode(text: &str) -> (out: Option<Envelope>)
        ensures
            optional_view(out) == decoded(text@),
    {
        match parse_object(text) {
            Some(members) => Envelope::from_members(&members),
            None => None,
        }
    }
}

/// One frame of a binary transfer.
#[derive(Debug)]
pub struct BinaryFrame {
    /// Names the transfer that the frame belongs to.
    pub content_id: String,
    /// Position of the frame within its transfer, counted from zero.
    pub seq: u32,
    /// The bytes carried.
    pub payload: Vec<u8>,
}

/// The bytes that stand for a frame on the wire: the length of the content
/// identifier in bytes as eight little-endian bytes, the identifier in UTF-8,
/// the sequence number as four little-endian bytes, then the payload.
pub open spec fn frame_bytes(content_id: Seq<char>, seq: u32, payload: Seq<u8>) -> Seq<u8> {
    let id = vstd::utf8::encode_utf8(content_id);
    spec_u64_to_le_bytes(id.len() as u64) + id + spec_u32_to_le_bytes(seq) + payload
}

impl BinaryFrame {
    /// The frame that opens a transfer: sequence number zero, and as payload
    /// the UTF-8 bytes of `content`.
    pub fn opening(content_id: String, content: &str) -> (out: BinaryFrame)
        ensures
            out.content_id@ == content_id@,
            out.seq == 0,
            out.payload@ == vstd::utf8::encode_utf8(content@),
    {
        BinaryFrame { content_id, seq: 0, payload: slice_to_vec(content.as_bytes()) }
    }

    /// The frame as bytes for the wire.
    pub fn to_bytes(&self) -> (out: Vec<u8>)
        ensures
            out@ == frame_bytes(self.content_id@, self.seq, self.payload@),
    {
        let id = self.content_id.as_str().as_bytes();
        let mut out = u64_to_le_bytes(id.len() as u64);
        let mut id_bytes = slice_to_vec(id);
        let mut seq_bytes = u32_to_le_bytes(self.seq);
        let mut payload = self.payload.clone();
        out.append(&mut id_bytes);
        out.append(&mut seq_bytes);
        out.append(&mut payload);
        assert(out@ =~= frame_bytes(self.content_id@, self.seq, self.payload@));
        out
    }
}

/// Draws a fresh random identifier with `uuid::Uuid::new_v4` and writes it in
/// the hyphenated form. Nothing is claimed of the outcome.
#[verifier::external_body]
pub(crate) fn fresh_token() -> (out: String) {
    Uuid::new_v4().to_string()
}

} // verus!
