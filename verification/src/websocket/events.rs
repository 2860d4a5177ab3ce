//! The messages that open a session with the topic subscription service.

use crate::text::{join, lemma_join_push};
use rand::distributions::Alphanumeric;
use rand::Rng;
use vstd::prelude::*;

verus! {

/// The length of a nonce that the client makes up.
pub const NONCE_LENGTH: usize = 18;

/// The topic the client listens to.
pub const TOPIC: &'static str = "predictions-user-v1.103033809";

/// The JSON string literal that stands for `text`: the text between double
/// quotes, with the characters escaped that JSON does not take as they are.
pub uninterp spec fn json_string(text: Seq<char>) -> Seq<char>;

/// Writes `text` as a JSON string literal with `serde_json::to_string`. The
/// result depends on the text alone and is given its name, [`json_string`].
/// For a `str` the serializer writes into a buffer in memory and has no way
/// to fail, so there is always a result.
#[verifier::external_body]
fn quote(text: &str) -> (quoted: String)
    ensures
        quoted@ == json_string(text@),
{
    serde_json::to_string(text).unwrap_or_default()
}

/// An ASCII letter or digit.
pub open spec fn is_alphanumeric(c: char) -> bool {
    ||| 'a' <= c <= 'z'
    ||| 'A' <= c <= 'Z'
    ||| '0' <= c <= '9'
}

/// A text of `count` ASCII letters and digits.
pub open spec fn is_alphanumeric_text(text: Seq<char>, count: nat) -> bool {
    &&& text.len() == count
    &&& forall|i: int| 0 <= i < text.len() ==> is_alphanumeric(#[trigger] text[i])
}

/// Draws `count` characters from `rand::distributions::Alphanumeric`, with
/// `rand::Rng::sample_iter` on the generator that `rand::thread_rng` hands
/// out. Each is an ASCII letter or digit; which ones they are, chance decides.
#[verifier::external_body]
fn random_alphanumeric(count: usize) -> (text: String)
    ensures
        is_alphanumeric_text(text@, count as nat),
{
    rand::thread_rng().sample_iter(&Alphanumeric).take(count).map(char::from).collect()
}

/// What a listen request asks for: the topics, and the token that allows it.
#[derive(Clone, Debug, PartialEq, Eq)]
pub struct RequestData {
    pub topics: Vec<String>,
    pub auth_token: String,
}

/// What a [`RequestData`] holds.
pub struct RequestDataView {
    pub topics: Seq<Seq<char>>,
    pub auth_token: Seq<char>,
}

impl View for RequestData {
    type V = RequestDataView;

    open spec fn view(&self) -> RequestDataView {
        RequestDataView { topics: self.topics.deep_view(), auth_token: self.auth_token@ }
    }
}

impl RequestData {
    pub fn new(topics: Vec<String>, auth_token: String) -> (data: Self)
        ensures
            data@ == (RequestDataView { topics: topics.deep_view(), auth_token: auth_token@ }),
    {
        Self { topics, auth_token }
    }
}

/// The liveness request of the topic subscription service.
#[derive(Clone, Debug, PartialEq, Eq)]
pub struct KeepaliveData {
    /// The message type, written under the key `type`.
    pub kind: String,
}

impl View for KeepaliveData {
    type V = Seq<char>;

    /// The message type.
    open spec fn view(&self) -> Seq<char> {
        self.kind@
    }
}

/// A request to the topic subscription service.
#[derive(Clone, Debug, PartialEq, Eq)]
pub struct Request {
    /// The message type, written under the key `type`.
    pub kind: String,
    /// The text by which the answer is matched to the request.
    pub nonce: String,
    pub data: RequestData,
}

/// What a [`Request`] holds.
pub struct RequestView {
    pub kind: Seq<char>,
    pub nonce: Seq<char>,
    pub data: RequestDataView,
}

impl View for Request {
    type V = RequestView;

    open spec fn view(&self) -> RequestView {
        RequestView { kind: self.kind@, nonce: self.nonce@, data: self.data@ }
    }
}

/// The JSON string literal of each text.
pub open spec fn json_strings(texts: Seq<Seq<char>>) -> Seq<Seq<char>> {
    texts.map_values(|text: Seq<char>| json_string(text))
}

/// The JSON object with the one key `type`, whose value `kind` is written as
/// it is given.
pub open spec fn keepalive_object(kind: Seq<char>) -> Seq<char> {
    "{\"type\":"@ + kind + "}"@
}

/// The JSON object with the keys `topics` and `auth_token`: the topics as a
/// list with a comma between each two. Every value is written as it is
/// given.
pub open spec fn data_object(topics: Seq<Seq<char>>, auth_token: Seq<char>) -> Seq<char> {
    "{\"topics\":["@ + join(topics, ","@) + "],\"auth_token\":"@ + auth_token + "}"@
}

/// The JSON object with the keys `type`, `nonce` and `data`, in this order.
/// Every value is written as it is given.
pub open spec fn request_object(kind: Seq<char>, nonce: Seq<char>, data: Seq<char>) -> Seq<char> {
    "{\"type\":"@ + kind + ",\"nonce\":"@ + nonce + ",\"data\":"@ + data + "}"@
}

/// The JSON object of a liveness request with the message type `kind`.
pub open spec fn keepalive_json(kind: Seq<char>) -> Seq<char> {
    keepalive_object(json_string(kind))
}

/// The JSON object of what a request asks for.
pub open spec fn data_json(data: RequestDataView) -> Seq<char> {
    data_object(json_strings(data.topics), json_string(data.auth_token))
}

/// The JSON object of a request: its type, its nonce and its data, in this
/// order.
pub open spec fn request_json(request: RequestView) -> Seq<char> {
    request_object(
        json_string(request.kind),
        json_string(request.nonce),
        data_json(request.data),
    )
}

/// The JSON object of a liveness request around `kind`, the message type as
/// a JSON string literal.
pub fn keepalive_text(kind: &str) -> (json: String)
    ensures
        json@ == keepalive_object(kind@),
{
    let mut json = String::from_str("{\"type\":");
    json.append(kind);
    json.append("}");
    json
}

/// The JSON object of what a request asks for, around the topics and the
/// token, each as a JSON string literal.
pub fn data_text(topics: &Vec<String>, auth_token: &str) -> (json: String)
    ensures
        json@ == data_object(topics.deep_view(), auth_token@),
{
    let mut json = String::from_str("{\"topics\":[");
    let ghost head = json@;
    let mut at: usize = 0;
    assert(topics.deep_view().take(0) =~= Seq::<Seq<char>>::empty());
    assert(json@ =~= head + join(topics.deep_view().take(0), ","@));
    while at < topics.len()
        invariant
            at <= topics.len(),
            json@ == head + join(topics.deep_view().take(at as int), ","@),
        decreases topics.len() - at,
    {
        let ghost before = topics.deep_view().take(at as int);
        let ghost item = topics[at as int]@;
        proof {
            assert(before.push(item) =~= topics.deep_view().take(at + 1));
            if at > 0 {
                lemma_join_push(before, item, ","@);
            } else {
                assert(before.push(item) =~= seq![item]);
            }
        }
        if at > 0 {
            json.append(",");
        }
        json.append(topics[at].as_str());
        assert(json@ =~= head + join(topics.deep_view().take(at + 1), ","@));
        at += 1;
    }
    assert(topics.deep_view().take(at as int) =~= topics.deep_view());
    json.append("],\"auth_token\":");
    json.append(auth_token);
    json.append("}");
    json
}

/// The JSON object of a request around its type and its nonce, each as a
/// JSON string literal, and its data, as a JSON object.
pub fn request_text(kind: &str, nonce: &str, data: &str) -> (json: String)
    ensures
        json@ == request_object(kind@, nonce@, data@),
{
    let mut json = String::from_str("{\"type\":");
    json.append(kind);
    json.append(",\"nonce\":");
    json.append(nonce);
    json.append(",\"data\":");
    json.append(data);
    json.append("}");
    json
}

impl KeepaliveData {
    /// The liveness request: its message type is `PING`.
    pub fn new() -> (data: Self)
        ensures
            data@ == "PING"@,
    {
        Self { kind: String::from_str("PING") }
    }

    /// The request as a JSON object.
    pub fn to_string(&self) -> (json: String)
        ensures
            json@ == keepalive_json(self@),
    {
        keepalive_text(quote(self.kind.as_str()).as_str())
    }
}

impl RequestData {
    /// The data as a JSON object.
    pub fn to_string(&self) -> (json: String)
        ensures
            json@ == data_json(self@),
    {
        let mut quoted: Vec<String> = Vec::new();
        let mut at: usize = 0;
        while at < self.topics.len()
            invariant
                at <= self.topics.len(),
                quoted.len() == at,
                forall|i: int|
                    0 <= i < at ==> (#[trigger] quoted[i])@ == json_string(self.topics[i]@),
            decreases self.topics.len() - at,
        {
            quoted.push(quote(self.topics[at].as_str()));
            at += 1;
        }
        assert(quoted.deep_view() =~= json_strings(self.topics.deep_view()));
        data_text(&quoted, quote(self.auth_token.as_str()).as_str())
    }
}

impl Request {
    /// The request of type `kind` for `topics`. Without a nonce of the
    /// caller's it gets a fresh one of [`NONCE_LENGTH`] letters and digits.
    pub fn new(kind: &str, nonce: Option<String>, topics: Vec<String>, auth_token: String) -> (request:
        Self)
        ensures
            request@.kind == kind@,
            request@.data == (RequestDataView {
                topics: topics.deep_view(),
                auth_token: auth_token@,
            }),
            match nonce {
                Some(given) => request@.nonce == given@,
                None => is_alphanumeric_text(request@.nonce, NONCE_LENGTH as nat),
            },
    {
        Self {
            kind: String::from_str(kind),
            nonce: match nonce {
                Some(given) => given,
                None => Self::generate_nonce(),
            },
            data: RequestData::new(topics, auth_token),
        }
    }

    /// The two messages that open a session, in the order in which they are
    /// sent: the liveness request, then the request to listen to `topics`
    /// under a fresh nonce.
    pub fn init_event(topics: Vec<&str>, auth_token: String) -> (messages: Vec<String>)
        ensures
            messages.len() == 2,
            messages[0]@ == keepalive_json("PING"@),
            exists|nonce: Seq<char>|
                is_alphanumeric_text(nonce, NONCE_LENGTH as nat) && messages[1]@ == request_json(
                    RequestView {
                        kind: "data"@,
                        nonce,
                        data: RequestDataView {
                            topics: topics@.map_values(|topic: &str| topic@),
                            auth_token: auth_token@,
                        },
                    },
                ),
    {
        let mut owned: Vec<String> = Vec::new();
        let mut at: usize = 0;
        while at < topics.len()
            invariant
                at <= topics.len(),
                owned.len() == at,
                forall|i: int| 0 <= i < at ==> (#[trigger] owned[i])@ == topics[i]@,
            decreases topics.len() - at,
        {
            owned.push(String::from_str(topics[at]));
            at += 1;
        }
        assert(owned.deep_view() =~= topics@.map_values(|topic: &str| topic@));
        let keepalive = KeepaliveData::new().to_string();
        let request = Request::new("data", None, owned, auth_token);
        let mut messages: Vec<String> = Vec::new();
        messages.push(keepalive);
        messages.push(request.to_string());
        assert(messages[1]@ == request_json(request@));
        messages
    }

    /// A fresh nonce: [`NONCE_LENGTH`] ASCII letters and digits.
    pub fn generate_nonce() -> (nonce: String)
        ensures
            is_alphanumeric_text(nonce@, NONCE_LENGTH as nat),
    {
        random_alphanumeric(NONCE_LENGTH)
    }

    /// The request as a JSON object.
    pub fn to_string(&self) -> (json: String)
        ensures
            json@ == request_json(self@),
    {
        request_text(
            quote(self.kind.as_str()).as_str(),
            quote(self.nonce.as_str()).as_str(),
            self.data.to_string().as_str(),
        )
    }
}

/// The token that the session with the topic subscription service is opened
/// with.
pub const EVENT_TOKEN: &'static str = "NOPE";

/// The two messages that open the client's session with the topic
/// subscription service: it listens to [`TOPIC`].
pub fn open_event() -> (messages: Vec<String>)
    ensures
        messages.len() == 2,
        messages[0]@ == keepalive_json("PING"@),
        exists|nonce: Seq<char>|
            is_alphanumeric_text(nonce, NONCE_LENGTH as nat) && messages[1]@ == request_json(
                RequestView {
                    kind: "data"@,
                    nonce,
                    data: RequestDataView { topics: seq![TOPIC@], auth_token: EVENT_TOKEN@ },
                },
            ),
{
    let mut topics: Vec<&str> = Vec::new();
    topics.push(TOPIC);
    assert(topics@.map_values(|topic: &str| topic@) =~= seq![TOPIC@]);
    Request::init_event(topics, String::from_str(EVENT_TOKEN))
}

} // verus!
