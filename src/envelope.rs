//! The signaling envelope `{ "id": .., "<tag>": { .. } }` and its codec.
//!
//! Decoding matches the shapes in a fixed order (`sdp`, then `ice`, then `changejam`) and ends
//! in an error where none matches; members it does not know are ignored.

use vstd::prelude::*;
use crate::json::{Json, json_fits, json_keeps, json_parsed, json_text, parse_json, render_json};

verus! {

/// Whether an SDP text is an offer or an answer.
#[derive(Clone, Copy, Debug, PartialEq, Eq, Structural)]
pub enum SdpKind {
    Offer,
    Answer,
}

/// What a peer says in one envelope.
#[derive(Clone, Debug, PartialEq, Eq)]
pub enum ClientMessage {
    Sdp { kind: SdpKind, sdp: String },
    Ice { candidate: String, mline: u32 },
    ChangeJam { path: String, date: String, tracks: Vec<String> },
}

/// One signaling message, addressed by session id.
#[derive(Clone, Debug, PartialEq, Eq)]
pub struct Envelope {
    pub id: String,
    pub message: ClientMessage,
}

/// Why bytes are not an envelope.
#[derive(Clone, Copy, Debug, PartialEq, Eq, Structural)]
pub enum CodecError {
    /// The bytes are not one JSON document.
    NotJson,
    /// The document is not an object.
    NotAnObject,
    /// The object has no string member `id`.
    MissingId,
    /// No payload shape matches.
    InvalidPayload,
    /// An `sdp` payload whose `type` is neither `offer` nor `answer`.
    UnknownSdpType,
}

/// A message as values: texts as character sequences.
pub enum MessageView {
    Sdp { kind: SdpKind, sdp: Seq<char> },
    Ice { candidate: Seq<char>, mline: u32 },
    ChangeJam { path: Seq<char>, date: Seq<char>, tracks: Seq<Seq<char>> },
}

/// An envelope as values.
pub struct EnvelopeView {
    pub id: Seq<char>,
    pub message: MessageView,
}

pub open spec fn texts_view(v: Seq<String>) -> Seq<Seq<char>> {
    v.map_values(|s: String| s@)
}

impl View for ClientMessage {
    type V = MessageView;

    open spec fn view(&self) -> MessageView {
        match self {
            ClientMessage::Sdp { kind, sdp } => MessageView::Sdp { kind: *kind, sdp: sdp@ },
            ClientMessage::Ice { candidate, mline } => MessageView::Ice {
                candidate: candidate@,
                mline: *mline,
            },
            ClientMessage::ChangeJam { path, date, tracks } => MessageView::ChangeJam {
                path: path@,
                date: date@,
                tracks: texts_view(tracks@),
            },
        }
    }
}

impl View for Envelope {
    type V = EnvelopeView;

    open spec fn view(&self) -> EnvelopeView {
        EnvelopeView { id: self.id@, message: self.message@ }
    }
}

pub open spec fn result_view(r: Result<Envelope, CodecError>) -> Result<EnvelopeView, CodecError> {
    match r {
        Ok(e) => Ok(e@),
        Err(c) => Err(c),
    }
}

/// The first member of `members` named `key`.
pub open spec fn member(members: Seq<(String, Json)>, key: Seq<char>) -> Option<Json>
    decreases members.len(),
{
    if members.len() == 0 {
        None
    } else if members[0].0@ == key {
        Some(members[0].1)
    } else {
        member(members.drop_first(), key)
    }
}

pub open spec fn text_member(members: Seq<(String, Json)>, key: Seq<char>) -> Option<Seq<char>> {
    match member(members, key) {
        Some(Json::Str(s)) => Some(s@),
        _ => None,
    }
}

pub open spec fn object_member(members: Seq<(String, Json)>, key: Seq<char>) -> Option<
    Seq<(String, Json)>,
> {
    match member(members, key) {
        Some(Json::Object(inner)) => Some(inner@),
        _ => None,
    }
}

pub open spec fn all_texts(items: Seq<Json>) -> bool {
    forall|i: int| 0 <= i < items.len() ==> #[trigger] items[i] is Str
}

pub open spec fn texts_of(items: Seq<Json>) -> Seq<Seq<char>> {
    items.map_values(|x: Json| x->Str_0@)
}

pub open spec fn sdp_kind_text(k: SdpKind) -> Seq<char> {
    match k {
        SdpKind::Offer => "offer"@,
        SdpKind::Answer => "answer"@,
    }
}

pub open spec fn sdp_kind_of(t: Seq<char>) -> Option<SdpKind> {
    if t == "offer"@ {
        Some(SdpKind::Offer)
    } else if t == "answer"@ {
        Some(SdpKind::Answer)
    } else {
        None
    }
}

pub open spec fn sdp_shape(members: Seq<(String, Json)>) -> Option<(Seq<char>, Seq<char>)> {
    match object_member(members, "sdp"@) {
        Some(inner) => match (text_member(inner, "type"@), text_member(inner, "sdp"@)) {
            (Some(t), Some(s)) => Some((t, s)),
            _ => None,
        },
        None => None,
    }
}

pub open spec fn ice_shape(members: Seq<(String, Json)>) -> Option<(Seq<char>, u32)> {
    match object_member(members, "ice"@) {
        Some(inner) => match (text_member(inner, "candidate"@), member(inner, "sdpMLineIndex"@)) {
            (Some(c), Some(Json::UInt(n))) => if n <= u32::MAX {
                Some((c, n as u32))
            } else {
                None
            },
            _ => None,
        },
        None => None,
    }
}

pub open spec fn jam_shape(members: Seq<(String, Json)>) -> Option<
    (Seq<char>, Seq<char>, Seq<Seq<char>>),
> {
    match object_member(members, "changejam"@) {
        Some(inner) => match (
            text_member(inner, "path"@),
            text_member(inner, "date"@),
            member(inner, "tracks"@),
        ) {
            (Some(p), Some(d), Some(Json::Array(items))) => if all_texts(items@) {
                Some((p, d, texts_of(items@)))
            } else {
                None
            },
            _ => None,
        },
        None => None,
    }
}

/// The payload of an envelope object: the first shape that matches, in the order sdp, ice,
/// changejam.
pub open spec fn message_of(members: Seq<(String, Json)>) -> Result<MessageView, CodecError> {
    match sdp_shape(members) {
        Some((t, s)) => match sdp_kind_of(t) {
            Some(k) => Ok(MessageView::Sdp { kind: k, sdp: s }),
            None => Err(CodecError::UnknownSdpType),
        },
        None => match ice_shape(members) {
            Some((c, n)) => Ok(MessageView::Ice { candidate: c, mline: n }),
            None => match jam_shape(members) {
                Some((p, d, t)) => Ok(MessageView::ChangeJam { path: p, date: d, tracks: t }),
                None => Err(CodecError::InvalidPayload),
            },
        },
    }
}

/// The envelope that a JSON document denotes.
pub open spec fn envelope_of_json(j: Json) -> Result<EnvelopeView, CodecError> {
    match j {
        Json::Object(members) => match text_member(members@, "id"@) {
            Some(id) => match message_of(members@) {
                Ok(m) => Ok(EnvelopeView { id, message: m }),
                Err(c) => Err(c),
            },
            None => Err(CodecError::MissingId),
        },
        _ => Err(CodecError::NotAnObject),
    }
}

/// The envelope that the bytes `b` denote.
pub open spec fn decoded(b: Seq<u8>) -> Result<EnvelopeView, CodecError> {
    match json_parsed(b) {
        Some(j) => envelope_of_json(j),
        None => Err(CodecError::NotJson),
    }
}

pub open spec fn is_text(j: Json, s: Seq<char>) -> bool {
    j is Str && j->Str_0@ == s
}

pub open spec fn is_member(m: (String, Json), key: Seq<char>, s: Seq<char>) -> bool {
    m.0@ == key && is_text(m.1, s)
}

/// The members of the payload object that the encoder writes for `m`.
pub open spec fn payload_tree(members: Seq<(String, Json)>, m: MessageView) -> bool {
    match m {
        MessageView::Sdp { kind, sdp } => {
            &&& members.len() == 2
            &&& is_member(members[0], "type"@, sdp_kind_text(kind))
            &&& is_member(members[1], "sdp"@, sdp)
        },
        MessageView::Ice { candidate, mline } => {
            &&& members.len() == 2
            &&& is_member(members[0], "candidate"@, candidate)
            &&& members[1].0@ == "sdpMLineIndex"@
            &&& members[1].1 == Json::UInt(mline as u64)
        },
        MessageView::ChangeJam { path, date, tracks } => {
            &&& members.len() == 3
            &&& is_member(members[0], "path"@, path)
            &&& is_member(members[1], "date"@, date)
            &&& members[2].0@ == "tracks"@
            &&& members[2].1 is Array
            &&& all_texts(members[2].1->Array_0@)
            &&& texts_of(members[2].1->Array_0@) == tracks
        },
    }
}

pub open spec fn payload_tag(m: MessageView) -> Seq<char> {
    match m {
        MessageView::Sdp { .. } => "sdp"@,
        MessageView::Ice { .. } => "ice"@,
        MessageView::ChangeJam { .. } => "changejam"@,
    }
}

/// The document that the encoder writes for `e`: `{"id": .., "<tag>": {..}}`.
pub open spec fn envelope_tree(j: Json, e: EnvelopeView) -> bool {
    &&& j is Object
    &&& j->Object_0@.len() == 2
    &&& is_member(j->Object_0@[0], "id"@, e.id)
    &&& j->Object_0@[1].0@ == payload_tag(e.message)
    &&& j->Object_0@[1].1 is Object
    &&& payload_tree(j->Object_0@[1].1->Object_0@, e.message)
}

/// Whether `b` is what the encoder writes for `e`.
pub open spec fn encodes(b: Seq<u8>, e: EnvelopeView) -> bool {
    exists|j: Json| envelope_tree(j, e) && #[trigger] json_text(j) == b
}


/// The document the encoder writes for an envelope reads back as that envelope, and survives
/// being written and read again unchanged.
pub proof fn lemma_envelope_tree_reads_back(j: Json, e: EnvelopeView)
    requires
        envelope_tree(j, e),
    ensures
        json_keeps(j),
        envelope_of_json(j) == Ok::<EnvelopeView, CodecError>(e),
{
    reveal_strlit("id");
    reveal_strlit("sdp");
    reveal_strlit("ice");
    reveal_strlit("changejam");
    reveal_strlit("type");
    reveal_strlit("offer");
    reveal_strlit("answer");
    reveal_strlit("candidate");
    reveal_strlit("sdpMLineIndex");
    reveal_strlit("path");
    reveal_strlit("date");
    reveal_strlit("tracks");
    reveal_with_fuel(member, 4);
    reveal_with_fuel(json_fits, 4);
    assert("offer"@ != "answer"@) by {
        assert("offer"@.len() != "answer"@.len());
    }
    assert("sdp"@ != "ice"@) by {
        assert("sdp"@[0] != "ice"@[0]);
    }
    assert("type"@ != "date"@) by {
        assert("type"@[0] != "date"@[0]);
    }
    assert("path"@ != "date"@) by {
        assert("path"@[0] != "date"@[0]);
    }
    assert("path"@ != "type"@) by {
        assert("path"@[0] != "type"@[0]);
    }
    assert("id"@ != "sdp"@) by {
        assert("id"@.len() != "sdp"@.len());
    }
    assert("id"@ != "ice"@) by {
        assert("id"@.len() != "ice"@.len());
    }
    assert("id"@ != "changejam"@) by {
        assert("id"@.len() != "changejam"@.len());
    }
    assert("type"@ != "sdp"@) by {
        assert("type"@.len() != "sdp"@.len());
    }
    assert("candidate"@ != "sdpMLineIndex"@) by {
        assert("candidate"@.len() != "sdpMLineIndex"@.len());
    }
    assert("path"@ != "tracks"@) by {
        assert("path"@.len() != "tracks"@.len());
    }
    assert("date"@ != "tracks"@) by {
        assert("date"@.len() != "tracks"@.len());
    }
    let members = j->Object_0@;
    let payload = members[1].1;
    let inner = payload->Object_0@;
    let tag = payload_tag(e.message);
    assert(members.drop_first()[0] == members[1]);
    assert(members.drop_first().drop_first().len() == 0);
    assert(member(members, "id"@) == Some(members[0].1));
    assert(text_member(members, "id"@) == Some(e.id));
    assert(member(members, tag) == Some(payload));
    assert(object_member(members, tag) == Some(inner));
    assert(inner.drop_first()[0] == inner[1]);
    match e.message {
        MessageView::Sdp { kind, sdp } => {
            assert(inner.drop_first().drop_first().len() == 0);
            assert(text_member(inner, "type"@) == Some(sdp_kind_text(kind)));
            assert(text_member(inner, "sdp"@) == Some(sdp));
            assert(sdp_kind_of(sdp_kind_text(kind)) == Some(kind));
            assert(sdp_shape(members) == Some((sdp_kind_text(kind), sdp)));
            assert(json_fits(payload, 126));
        },
        MessageView::Ice { candidate, mline } => {
            assert(inner.drop_first().drop_first().len() == 0);
            assert(sdp_shape(members) is None);
            assert(text_member(inner, "candidate"@) == Some(candidate));
            assert(member(inner, "sdpMLineIndex"@) == Some(Json::UInt(mline as u64)));
            assert(ice_shape(members) == Some((candidate, mline)));
            assert(json_fits(payload, 126));
        },
        MessageView::ChangeJam { path, date, tracks } => {
            assert(inner.drop_first().drop_first()[0] == inner[2]);
            assert(inner.drop_first().drop_first().drop_first().len() == 0);
            assert(sdp_shape(members) is None);
            assert(ice_shape(members) is None);
            assert(text_member(inner, "path"@) == Some(path));
            assert(text_member(inner, "date"@) == Some(date));
            assert(member(inner, "tracks"@) == Some(inner[2].1));
            assert(jam_shape(members) == Some((path, date, tracks)));
            let items = inner[2].1->Array_0@;
            assert forall|i: int| 0 <= i < items.len() implies #[trigger] json_fits(items[i], 124) by {
                assert(items[i] is Str);
            }
            assert(json_fits(inner[2].1, 125));
            assert(json_fits(payload, 126));
        },
    }
}

/// Whether two texts are equal.
fn same_text(a: &str, b: &str) -> (r: bool)
    ensures
        r == (a@ == b@),
{
    let x = String::from_str(a);
    let y = String::from_str(b);
    x == y
}

/// The first member of `members` named `key`.
fn find_member<'a>(members: &'a Vec<(String, Json)>, key: &str) -> (r: Option<&'a Json>)
    ensures
        match r {
            Some(x) => member(members@, key@) == Some(*x),
            None => member(members@, key@) is None,
        },
{
    let n = members.len();
    let mut i: usize = 0;
    assert(members@.subrange(0, n as int) =~= members@);
    while i < n
        invariant
            i <= n,
            n == members@.len(),
            member(members@, key@) == member(members@.subrange(i as int, n as int), key@),
        decreases n - i,
    {
        let rest = Ghost(members@.subrange(i as int, n as int));
        if same_text(members[i].0.as_str(), key) {
            return Some(&members[i].1);
        }
        assert(rest@.drop_first() =~= members@.subrange(i + 1, n as int));
        i += 1;
    }
    None
}

fn member_text(members: &Vec<(String, Json)>, key: &str) -> (r: Option<String>)
    ensures
        match r {
            Some(s) => text_member(members@, key@) == Some(s@),
            None => text_member(members@, key@) is None,
        },
{
    match find_member(members, key) {
        Some(Json::Str(s)) => Some(s.clone()),
        _ => None,
    }
}

fn member_object<'a>(members: &'a Vec<(String, Json)>, key: &str) -> (r: Option<
    &'a Vec<(String, Json)>,
>)
    ensures
        match r {
            Some(v) => object_member(members@, key@) == Some(v@),
            None => object_member(members@, key@) is None,
        },
{
    match find_member(members, key) {
        Some(Json::Object(inner)) => Some(inner),
        _ => None,
    }
}

/// The texts of `items`, where every item is a string.
fn texts_from(items: &Vec<Json>) -> (r: Option<Vec<String>>)
    ensures
        match r {
            Some(v) => all_texts(items@) && texts_view(v@) == texts_of(items@),
            None => !all_texts(items@),
        },
{
    let mut out: Vec<String> = Vec::new();
    let mut i: usize = 0;
    while i < items.len()
        invariant
            i <= items.len(),
            out@.len() == i,
            forall|k: int| 0 <= k < i ==> #[trigger] items@[k] is Str && out@[k]@ == items@[k]->Str_0@,
        decreases items.len() - i,
    {
        match &items[i] {
            Json::Str(s) => out.push(s.clone()),
            _ => return None,
        }
        i += 1;
    }
    assert(texts_view(out@) =~= texts_of(items@));
    Some(out)
}

fn sdp_fields(members: &Vec<(String, Json)>) -> (r: Option<(String, String)>)
    ensures
        match r {
            Some((t, s)) => sdp_shape(members@) == Some((t@, s@)),
            None => sdp_shape(members@) is None,
        },
{
    let inner = match member_object(members, "sdp") {
        Some(inner) => inner,
        None => return None,
    };
    match (member_text(inner, "type"), member_text(inner, "sdp")) {
        (Some(t), Some(s)) => Some((t, s)),
        _ => None,
    }
}

fn ice_fields(members: &Vec<(String, Json)>) -> (r: Option<(String, u32)>)
    ensures
        match r {
            Some((c, n)) => ice_shape(members@) == Some((c@, n)),
            None => ice_shape(members@) is None,
        },
{
    let inner = match member_object(members, "ice") {
        Some(inner) => inner,
        None => return None,
    };
    let candidate = match member_text(inner, "candidate") {
        Some(c) => c,
        None => return None,
    };
    match find_member(inner, "sdpMLineIndex") {
        Some(Json::UInt(n)) => if *n <= u32::MAX as u64 {
            Some((candidate, *n as u32))
        } else {
            None
        },
        _ => None,
    }
}

fn jam_fields(members: &Vec<(String, Json)>) -> (r: Option<(String, String, Vec<String>)>)
    ensures
        match r {
            Some((p, d, t)) => jam_shape(members@) == Some((p@, d@, texts_view(t@))),
            None => jam_shape(members@) is None,
        },
{
    let inner = match member_object(members, "changejam") {
        Some(inner) => inner,
        None => return None,
    };
    let path = match member_text(inner, "path") {
        Some(p) => p,
        None => return None,
    };
    let date = match member_text(inner, "date") {
        Some(d) => d,
        None => return None,
    };
    match find_member(inner, "tracks") {
        Some(Json::Array(items)) => match texts_from(items) {
            Some(tracks) => Some((path, date, tracks)),
            None => None,
        },
        _ => None,
    }
}

fn message_from_members(members: &Vec<(String, Json)>) -> (r: Result<ClientMessage, CodecError>)
    ensures
        match r {
            Ok(m) => message_of(members@) == Ok::<MessageView, CodecError>(m@),
            Err(c) => message_of(members@) == Err::<MessageView, CodecError>(c),
        },
{
    if let Some((t, sdp)) = sdp_fields(members) {
        if same_text(t.as_str(), "offer") {
            return Ok(ClientMessage::Sdp { kind: SdpKind::Offer, sdp });
        } else if same_text(t.as_str(), "answer") {
            return Ok(ClientMessage::Sdp { kind: SdpKind::Answer, sdp });
        } else {
            return Err(CodecError::UnknownSdpType);
        }
    }
    if let Some((candidate, mline)) = ice_fields(members) {
        return Ok(ClientMessage::Ice { candidate, mline });
    }
    match jam_fields(members) {
        Some((path, date, tracks)) => Ok(ClientMessage::ChangeJam { path, date, tracks }),
        None => Err(CodecError::InvalidPayload),
    }
}

/// Reads an envelope out of a JSON document.
pub fn envelope_from_json(j: &Json) -> (r: Result<Envelope, CodecError>)
    ensures
        result_view(r) == envelope_of_json(*j),
{
    match j {
        Json::Object(members) => {
            let id = match member_text(members, "id") {
                Some(id) => id,
                None => return Err(CodecError::MissingId),
            };
            match message_from_members(members) {
                Ok(message) => Ok(Envelope { id, message }),
                Err(c) => Err(c),
            }
        },
        _ => Err(CodecError::NotAnObject),
    }
}

fn text_json(s: &str) -> (r: Json)
    ensures
        is_text(r, s@),
{
    Json::Str(String::from_str(s))
}

/// The document for an envelope: `{"id": .., "<tag>": {..}}`.
pub fn envelope_to_json(e: &Envelope) -> (r: Json)
    ensures
        envelope_tree(r, e@),
{
    let mut inner: Vec<(String, Json)> = Vec::new();
    let tag = match &e.message {
        ClientMessage::Sdp { kind, sdp } => {
            let kind_text = match kind {
                SdpKind::Offer => "offer",
                SdpKind::Answer => "answer",
            };
            inner.push((String::from_str("type"), text_json(kind_text)));
            inner.push((String::from_str("sdp"), Json::Str(sdp.clone())));
            assert(is_member(inner@[0], "type"@, sdp_kind_text(*kind)));
            assert(is_member(inner@[1], "sdp"@, sdp@));
            "sdp"
        },
        ClientMessage::Ice { candidate, mline } => {
            inner.push((String::from_str("candidate"), Json::Str(candidate.clone())));
            inner.push((String::from_str("sdpMLineIndex"), Json::UInt(*mline as u64)));
            assert(is_member(inner@[0], "candidate"@, candidate@));
            "ice"
        },
        ClientMessage::ChangeJam { path, date, tracks } => {
            let mut items: Vec<Json> = Vec::new();
            let mut i: usize = 0;
            while i < tracks.len()
                invariant
                    i <= tracks.len(),
                    items@.len() == i,
                    forall|k: int| 0 <= k < i ==> #[trigger] is_text(items@[k], tracks@[k]@),
                decreases tracks.len() - i,
            {
                items.push(Json::Str(tracks[i].clone()));
                i += 1;
            }
            assert forall|k: int| 0 <= k < items@.len() implies texts_of(items@)[k]
                == texts_view(tracks@)[k] by {
                assert(is_text(items@[k], tracks@[k]@));
            }
            assert(texts_of(items@) =~= texts_view(tracks@));
            inner.push((String::from_str("path"), Json::Str(path.clone())));
            inner.push((String::from_str("date"), Json::Str(date.clone())));
            let ghost items_view = items@;
            inner.push((String::from_str("tracks"), Json::Array(items)));
            assert(inner@[2].1->Array_0@ == items_view);
            assert(is_member(inner@[0], "path"@, path@));
            assert forall|k: int| 0 <= k < items_view.len() implies #[trigger] items_view[k] is Str by {
                assert(is_text(items_view[k], tracks@[k]@));
            }
            assert(payload_tree(inner@, e@.message));
            "changejam"
        },
    };
    let ghost inner_view = inner@;
    assert(payload_tree(inner_view, e@.message));
    let mut members: Vec<(String, Json)> = Vec::new();
    members.push((String::from_str("id"), Json::Str(e.id.clone())));
    assert(tag@ == payload_tag(e@.message));
    members.push((String::from_str(tag), Json::Object(inner)));
    Json::Object(members)
}

/// Reads an envelope from bytes. Bytes that `encode` wrote for an envelope read back as that
/// envelope.
pub fn decode(b: &[u8]) -> (r: Result<Envelope, CodecError>)
    ensures
        result_view(r) == decoded(b@),
        forall|e: EnvelopeView| #[trigger] encodes(b@, e) ==> result_view(r) == Ok::<
            EnvelopeView,
            CodecError,
        >(e),
{
    let r = match parse_json(b) {
        Some(j) => envelope_from_json(&j),
        None => Err(CodecError::NotJson),
    };
    proof {
        assert forall|e: EnvelopeView| #[trigger] encodes(b@, e) implies result_view(r) == Ok::<
            EnvelopeView,
            CodecError,
        >(e) by {
            let j = choose|j: Json| envelope_tree(j, e) && #[trigger] json_text(j) == b@;
            lemma_envelope_tree_reads_back(j, e);
        }
    }
    r
}

/// Writes an envelope as compact JSON. Never fails.
pub fn encode(e: &Envelope) -> (r: Vec<u8>)
    ensures
        encodes(r@, e@),
{
    let j = envelope_to_json(e);
    let r = render_json(&j);
    assert(envelope_tree(j, e@) && json_text(j) == r@);
    r
}

} // verus!
