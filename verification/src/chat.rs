//! Chat viewer bridge: turns text or JSON payloads received from upstream
//! dataflow nodes (ASR, LLM, ...) into chat messages for the UI, and keeps
//! the bridge's connection state.

use vstd::prelude::*;
use vstd::string::*;
use crate::text::{str_eq, opt_view, StringMap, lookup};
use crate::metrics::unix_ms;
use vstd::utf8::{valid_utf8, decode_utf8};

verus! {

/// Parameters attached to a dataflow event, as strings.
#[derive(Debug)]
pub struct EventMetadata {
    pub values: StringMap,
}

impl Default for EventMetadata {
    fn default() -> (r: Self)
        ensures
            r.values@ == Seq::<(Seq<char>, Seq<char>)>::empty(),
    {
        EventMetadata::new()
    }
}

impl EventMetadata {
    pub fn new() -> (r: Self)
        ensures
            r.values@ == Seq::<(Seq<char>, Seq<char>)>::empty(),
    {
        EventMetadata { values: StringMap::new() }
    }

    /// The parameters of an event, given as (name, text) pairs in order; a
    /// later pair replaces an earlier one with the same name.
    pub fn from_pairs(pairs: &Vec<(String, String)>) -> (r: Self)
        ensures
            forall|k: Seq<char>| #[trigger] lookup(r.values@, k) == last_value(pair_views(pairs@), k),
    {
        let ghost ps = pair_views(pairs@);
        let mut values = StringMap::new();
        let mut i: usize = 0;
        while i < pairs.len()
            invariant
                ps == pair_views(pairs@),
                i <= pairs.len(),
                forall|k: Seq<char>| #[trigger] lookup(values@, k) == last_value(ps.take(i as int), k),
            decreases pairs.len() - i,
        {
            let key = pairs[i].0.clone();
            let value = pairs[i].1.clone();
            assert(ps.take(i + 1).drop_last() =~= ps.take(i as int));
            assert(ps.take(i + 1).last() == (key@, value@));
            values.insert(key, value);
            i = i + 1;
        }
        assert(ps.take(pairs.len() as int) =~= ps);
        EventMetadata { values }
    }

    /// The value of a parameter.
    pub fn get(&self, key: &str) -> (r: Option<&str>)
        ensures
            match r {
                Some(v) => lookup(self.values@, key@) == Some(v@),
                None => lookup(self.values@, key@) is None,
            },
    {
        self.values.get(key)
    }

    /// The participant that sent the event, from the `participant_id` parameter.
    pub fn participant_id(&self) -> (r: Option<&str>)
        ensures
            match r {
                Some(v) => lookup(self.values@, "participant_id"@) == Some(v@),
                None => lookup(self.values@, "participant_id"@) is None,
            },
    {
        self.values.get("participant_id")
    }
}

/// The (name, text) pairs by their characters.
pub open spec fn pair_views(v: Seq<(String, String)>) -> Seq<(Seq<char>, Seq<char>)> {
    v.map_values(|p: (String, String)| (p.0@, p.1@))
}

/// The text of the last pair named `k`.
pub open spec fn last_value(ps: Seq<(Seq<char>, Seq<char>)>, k: Seq<char>) -> Option<Seq<char>>
    decreases ps.len(),
{
    if ps.len() == 0 {
        None
    } else if ps.last().0 == k {
        Some(ps.last().1)
    } else {
        last_value(ps.drop_last(), k)
    }
}

/// Who wrote a chat message.
#[derive(Debug, Clone, Copy, PartialEq, Eq, Structural)]
pub enum MessageRole {
    User,
    Assistant,
    System,
}

/// A chat message for display.
#[derive(Debug)]
pub struct ChatMessage {
    pub content: String,
    pub sender: String,
    pub role: MessageRole,
    pub timestamp: u64,
    pub is_streaming: bool,
    pub session_id: Option<String>,
}

/// The fields of a JSON chat payload that the bridge reads: each string
/// field present only when the member exists and is a JSON string, the
/// streaming flag only when it is a JSON boolean.
#[derive(Debug)]
pub struct ChatJsonFields {
    pub content: Option<String>,
    pub sender: Option<String>,
    pub role: Option<String>,
    pub is_streaming: Option<bool>,
    pub session_id: Option<String>,
}

/// The value of the JSON fields.
pub type JsonFieldsView = (
    Option<Seq<char>>,
    Option<Seq<char>>,
    Option<Seq<char>>,
    Option<bool>,
    Option<Seq<char>>,
);

/// The view of a parse result.
pub open spec fn fields_view(f: Option<ChatJsonFields>) -> Option<JsonFieldsView> {
    match f {
        Some(x) => Some(
            (
                opt_view(x.content),
                opt_view(x.sender),
                opt_view(x.role),
                x.is_streaming,
                opt_view(x.session_id),
            ),
        ),
        None => None,
    }
}

/// What `serde_json` finds in a text: `None` when the text is not JSON,
/// otherwise the members `content`, `sender`, `role`, `is_streaming` and
/// `session_id`, each present only when it is a JSON string (a JSON boolean
/// for `is_streaming`).
pub uninterp spec fn chat_json_fields(text: Seq<char>) -> Option<JsonFieldsView>;

/// Calls `serde_json::from_str::<serde_json::Value>` and reads the chat
/// members by indexing the value (a missing member, or a text that is not a
/// JSON object, reads as `null`) with `Value::as_str` and `Value::as_bool`.
/// The contract only names the result, which depends on the text alone.
#[verifier::external_body]
fn parse_chat_json(text: &str) -> (r: Option<ChatJsonFields>)
    ensures
        fields_view(r) == chat_json_fields(text@),
{
    let v: serde_json::Value = serde_json::from_str(text).ok()?;
    Some(ChatJsonFields {
        content: v["content"].as_str().map(str::to_string),
        sender: v["sender"].as_str().map(str::to_string),
        role: v["role"].as_str().map(str::to_string),
        is_streaming: v["is_streaming"].as_bool(),
        session_id: v["session_id"].as_str().map(str::to_string),
    })
}

/// The role named by a role string (`assistant` for anything unknown).
pub open spec fn role_of(r: Option<Seq<char>>) -> MessageRole {
    match r {
        Some(x) => if x == "user"@ {
            MessageRole::User
        } else if x == "system"@ {
            MessageRole::System
        } else {
            MessageRole::Assistant
        },
        None => MessageRole::Assistant,
    }
}

/// The first present value of two options.
pub open spec fn or_else(a: Option<Seq<char>>, b: Option<Seq<char>>) -> Option<Seq<char>> {
    match a {
        Some(x) => Some(x),
        None => b,
    }
}

/// The value of an option, or a default.
pub open spec fn or_default(a: Option<Seq<char>>, d: Seq<char>) -> Seq<char> {
    match a {
        Some(x) => x,
        None => d,
    }
}

/// The message built from a payload: with the JSON fields when the text is
/// JSON, from the event parameters otherwise. Returns the content, sender,
/// role, streaming flag and session.
pub open spec fn message_spec(
    text: Seq<char>,
    source: Seq<char>,
    meta: Seq<(Seq<char>, Seq<char>)>,
    fields: Option<JsonFieldsView>,
) -> (Seq<char>, Seq<char>, MessageRole, bool, Option<Seq<char>>) {
    match fields {
        Some(f) => (
            or_default(f.0, text),
            or_default(or_else(f.1, lookup(meta, "participant_id"@)), source),
            role_of(f.2),
            match f.3 {
                Some(b) => b,
                None => false,
            },
            or_else(f.4, lookup(meta, "session_id"@)),
        ),
        None => (
            text,
            or_default(lookup(meta, "participant_id"@), source),
            role_of(lookup(meta, "role"@)),
            lookup(meta, "is_streaming"@) == Some("true"@),
            lookup(meta, "session_id"@),
        ),
    }
}

/// The parts of a message.
pub open spec fn message_parts(m: ChatMessage) -> (Seq<char>, Seq<char>, MessageRole, bool, Option<
    Seq<char>,
>) {
    (m.content@, m.sender@, m.role, m.is_streaming, opt_view(m.session_id))
}

/// The role of a role string.
fn role_from(r: Option<&str>) -> (m: MessageRole)
    ensures
        m == role_of(
            match r {
                Some(x) => Some(x@),
                None => None,
            },
        ),
{
    match r {
        Some(x) => if str_eq(x, "user") {
            MessageRole::User
        } else if str_eq(x, "system") {
            MessageRole::System
        } else {
            MessageRole::Assistant
        },
        None => MessageRole::Assistant,
    }
}

/// The view of an optional string slice.
pub open spec fn opt_str_view(a: Option<&str>) -> Option<Seq<char>> {
    match a {
        Some(x) => Some(x@),
        None => None,
    }
}

/// Copies an optional string slice into an owned string.
fn opt_to_string(a: Option<&str>) -> (r: Option<String>)
    ensures
        opt_view(r) == opt_str_view(a),
{
    match a {
        Some(x) => Some(x.to_owned()),
        None => None,
    }
}

/// Builds the message for a payload from its parsed JSON fields (or their
/// absence) and the event parameters.
pub fn message_from_parts(
    text: &str,
    source: &str,
    metadata: &EventMetadata,
    fields: Option<ChatJsonFields>,
    timestamp: u64,
) -> (m: ChatMessage)
    ensures
        message_parts(m) == message_spec(text@, source@, metadata.values@, fields_view(fields)),
        m.timestamp == timestamp,
{
    match fields {
        Some(f) => {
            let content = match f.content {
                Some(c) => c,
                None => text.to_owned(),
            };
            let sender = match f.sender {
                Some(s) => s,
                None => match metadata.participant_id() {
                    Some(p) => p.to_owned(),
                    None => source.to_owned(),
                },
            };
            let role = match &f.role {
                Some(r) => role_from(Some(r.as_str())),
                None => role_from(None),
            };
            let is_streaming = match f.is_streaming {
                Some(b) => b,
                None => false,
            };
            let session_id = match f.session_id {
                Some(s) => Some(s),
                None => opt_to_string(metadata.get("session_id")),
            };
            ChatMessage { content, sender, role, timestamp, is_streaming, session_id }
        },
        None => {
            let role = role_from(metadata.get("role"));
            let sender = match metadata.participant_id() {
                Some(p) => p.to_owned(),
                None => source.to_owned(),
            };
            let is_streaming = match metadata.get("is_streaming") {
                Some(s) => str_eq(s, "true"),
                None => false,
            };
            let session_id = opt_to_string(metadata.get("session_id"));
            ChatMessage { content: text.to_owned(), sender, role, timestamp, is_streaming, session_id }
        },
    }
}

/// The data of an input event as the bridge reads it: a column of strings,
/// a column of large strings, raw bytes, or a column of another type.
#[derive(Debug)]
pub enum PayloadData {
    Utf8(Vec<String>),
    LargeUtf8(Vec<String>),
    UInt8(Vec<u8>),
    Other,
}

/// The text carried by an input event: the first string of a string
/// column, or the bytes when they are valid UTF-8.
pub open spec fn payload_text(d: PayloadData) -> Option<Seq<char>> {
    match d {
        PayloadData::Utf8(v) => if v.len() > 0 {
            Some(v@[0]@)
        } else {
            None
        },
        PayloadData::LargeUtf8(v) => if v.len() > 0 {
            Some(v@[0]@)
        } else {
            None
        },
        PayloadData::UInt8(b) => if valid_utf8(b@) {
            Some(decode_utf8(b@))
        } else {
            None
        },
        PayloadData::Other => None,
    }
}

/// Calls `String::from_utf8`: the text the bytes encode when they are valid
/// UTF-8, nothing otherwise.
#[verifier::external_body]
fn utf8_text(bytes: Vec<u8>) -> (r: Option<String>)
    ensures
        match r {
            Some(s) => valid_utf8(bytes@) && s@ == decode_utf8(bytes@),
            None => !valid_utf8(bytes@),
        },
{
    String::from_utf8(bytes).ok()
}

/// A copy of a byte vector.
fn copy_bytes(b: &Vec<u8>) -> (r: Vec<u8>)
    ensures
        r@ == b@,
{
    let mut r: Vec<u8> = Vec::new();
    let mut i: usize = 0;
    while i < b.len()
        invariant
            i <= b.len(),
            r@ == b@.take(i as int),
        decreases b.len() - i,
    {
        r.push(b[i]);
        i = i + 1;
        assert(r@ =~= b@.take(i as int));
    }
    assert(b@.take(b.len() as int) =~= b@);
    r
}

/// The text carried by an input event.
pub fn extract_string(data: &PayloadData) -> (r: Option<String>)
    ensures
        opt_view(r) == payload_text(*data),
{
    match data {
        PayloadData::Utf8(v) => if v.len() > 0 {
            Some(v[0].clone())
        } else {
            None
        },
        PayloadData::LargeUtf8(v) => if v.len() > 0 {
            Some(v[0].clone())
        } else {
            None
        },
        PayloadData::UInt8(b) => utf8_text(copy_bytes(b)),
        PayloadData::Other => None,
    }
}

/// Connection state of a bridge.
#[derive(Debug, Clone, Copy, PartialEq, Eq, Structural)]
pub enum BridgeState {
    Disconnected,
    Connecting,
    Connected,
    Error,
}

/// Errors of bridge operations.
#[derive(Debug, Clone, Copy, PartialEq, Eq, Structural)]
pub enum BridgeError {
    AlreadyConnected,
}

/// Chat viewer bridge: receives chat messages from the dataflow and surfaces
/// them in the UI. The event loop thread is run by the caller, which reports
/// the loop's progress back through the `on_*` methods.
#[derive(Debug)]
pub struct ChatViewerBridge {
    node_id: String,
    state: BridgeState,
}

impl ChatViewerBridge {
    /// The node identifier.
    pub closed spec fn spec_node_id(&self) -> Seq<char> {
        self.node_id@
    }

    /// The current state.
    pub closed spec fn spec_state(&self) -> BridgeState {
        self.state
    }

    /// A disconnected bridge for the given dataflow node.
    pub fn new(node_id: &str) -> (r: Self)
        ensures
            r.spec_node_id() == node_id@,
            r.spec_state() == BridgeState::Disconnected,
    {
        ChatViewerBridge { node_id: node_id.to_owned(), state: BridgeState::Disconnected }
    }

    pub fn node_id(&self) -> (r: &str)
        ensures
            r@ == self.spec_node_id(),
    {
        self.node_id.as_str()
    }

    pub fn state(&self) -> (r: BridgeState)
        ensures
            r == self.spec_state(),
    {
        self.state
    }

    pub fn is_connected(&self) -> (r: bool)
        ensures
            r == (self.spec_state() == BridgeState::Connected),
    {
        self.state == BridgeState::Connected
    }

    /// Starts connecting: refused when already connected; otherwise the
    /// bridge is connecting and the caller starts the event loop thread.
    pub fn connect(&mut self) -> (r: Result<(), BridgeError>)
        ensures
            final(self).spec_node_id() == old(self).spec_node_id(),
            old(self).spec_state() == BridgeState::Connected ==> r == Err::<(), BridgeError>(
                BridgeError::AlreadyConnected,
            ) && final(self).spec_state() == BridgeState::Connected,
            old(self).spec_state() != BridgeState::Connected ==> r is Ok && final(self).spec_state()
                == BridgeState::Connecting,
    {
        if self.is_connected() {
            return Err(BridgeError::AlreadyConnected);
        }
        self.state = BridgeState::Connecting;
        Ok(())
    }

    /// The event loop attached to the dataflow node (or failed to).
    pub fn on_node_init(&mut self, ok: bool)
        ensures
            final(self).spec_node_id() == old(self).spec_node_id(),
            final(self).spec_state() == if ok {
                BridgeState::Connected
            } else {
                BridgeState::Error
            },
    {
        self.state = if ok {
            BridgeState::Connected
        } else {
            BridgeState::Error
        };
    }

    /// Disconnects; the caller stops and joins the event loop thread.
    pub fn disconnect(&mut self) -> (r: Result<(), BridgeError>)
        ensures
            final(self).spec_node_id() == old(self).spec_node_id(),
            final(self).spec_state() == BridgeState::Disconnected,
            r is Ok,
    {
        self.state = BridgeState::Disconnected;
        Ok(())
    }

    /// The chat viewer is receive-only: sending does nothing.
    pub fn send(&self, _output_id: &str) -> (r: Result<(), BridgeError>)
        ensures
            r is Ok,
    {
        Ok(())
    }

    /// The output identifiers of ASR/LLM nodes that the viewer accepts.
    pub fn expected_inputs(&self) -> (r: Vec<String>)
        ensures
            r@.map_values(|s: String| s@) == seq![
                "chat"@,
                "text"@,
                "asr_output"@,
                "llm_output"@,
                "transcript"@,
            ],
    {
        let mut r: Vec<String> = Vec::new();
        r.push("chat".to_owned());
        r.push("text".to_owned());
        r.push("asr_output".to_owned());
        r.push("llm_output".to_owned());
        r.push("transcript".to_owned());
        assert(r@.map_values(|s: String| s@) =~= seq![
            "chat"@,
            "text"@,
            "asr_output"@,
            "llm_output"@,
            "transcript"@,
        ]);
        r
    }

    /// The viewer has no outputs.
    pub fn expected_outputs(&self) -> (r: Vec<String>)
        ensures
            r@.len() == 0,
    {
        Vec::new()
    }

    /// The chat message for an input event of the dataflow: none when the
    /// event carries no text, otherwise the parsed text with the input's
    /// identifier as the fallback sender.
    pub fn handle_input(input_id: &str, metadata: &EventMetadata, data: &PayloadData) -> (r: Option<
        ChatMessage,
    >)
        ensures
            match payload_text(*data) {
                Some(t) => r matches Some(m) && message_parts(m) == message_spec(
                    t,
                    input_id@,
                    metadata.values@,
                    chat_json_fields(t),
                ),
                None => r is None,
            },
    {
        match extract_string(data) {
            Some(text) => Some(Self::parse_message(text.as_str(), input_id, metadata)),
            None => None,
        }
    }

    /// Parses a text payload into a chat message: JSON first (full or
    /// partial chat message), otherwise the whole text as content with the
    /// role, sender, streaming flag and session taken from the parameters.
    /// The timestamp is the current time.
    pub fn parse_message(text: &str, source: &str, metadata: &EventMetadata) -> (m: ChatMessage)
        ensures
            message_parts(m) == message_spec(text@, source@, metadata.values@, chat_json_fields(text@)),
    {
        let fields = parse_chat_json(text);
        let now = unix_ms();
        message_from_parts(text, source, metadata, fields, now)
    }
}

/// A text that is not JSON becomes the whole content; its sender is the
/// event's `participant_id` parameter (else the input's source), its role
/// is the `role` parameter's (`user`, `system`, else assistant), it streams
/// exactly when the `is_streaming` parameter is `true`, and its session is
/// the `session_id` parameter (none when absent).
pub proof fn lemma_plain_text_message(
    text: Seq<char>,
    source: Seq<char>,
    meta: Seq<(Seq<char>, Seq<char>)>,
)
    ensures
        message_spec(text, source, meta, None).0 == text,
        message_spec(text, source, meta, None).1 == match lookup(meta, "participant_id"@) {
            Some(p) => p,
            None => source,
        },
        lookup(meta, "role"@) == Some("user"@) ==> message_spec(text, source, meta, None).2
            == MessageRole::User,
        lookup(meta, "role"@) == Some("system"@) ==> message_spec(text, source, meta, None).2
            == MessageRole::System,
        lookup(meta, "role"@) != Some("user"@) && lookup(meta, "role"@) != Some("system"@)
            ==> message_spec(text, source, meta, None).2 == MessageRole::Assistant,
        message_spec(text, source, meta, None).3 <==> lookup(meta, "is_streaming"@) == Some(
            "true"@,
        ),
        message_spec(text, source, meta, None).4 == lookup(meta, "session_id"@),
{
    reveal_strlit("user");
    reveal_strlit("system");
    assert("user"@.len() != "system"@.len());
}

/// For a JSON payload, each string member that is present wins; the sender
/// falls back to the `participant_id` parameter and then the source, the
/// session to the `session_id` parameter, the content to the whole text.
pub proof fn lemma_json_message(
    text: Seq<char>,
    source: Seq<char>,
    meta: Seq<(Seq<char>, Seq<char>)>,
    f: JsonFieldsView,
)
    ensures
        message_spec(text, source, meta, Some(f)).0 == match f.0 {
            Some(c) => c,
            None => text,
        },
        message_spec(text, source, meta, Some(f)).1 == match f.1 {
            Some(s) => s,
            None => match lookup(meta, "participant_id"@) {
                Some(p) => p,
                None => source,
            },
        },
        message_spec(text, source, meta, Some(f)).3 == (f.3 == Some(true)),
        message_spec(text, source, meta, Some(f)).4 == match f.4 {
            Some(s) => Some(s),
            None => lookup(meta, "session_id"@),
        },
{
}

} // verus!
