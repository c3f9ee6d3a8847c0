//! The stream classifier: one JSON object per line, tagged by a `type`
//! field, turned into a closed union of events; malformed lines are
//! skipped; a run summary keeps the last result event's figures.
//!
//! The JSON reading itself is serde_json's. Each reading below is a
//! named function of the line text alone, so classification is a
//! function of the line: the same line always yields the same event.

use vstd::prelude::*;

use crate::text::spec_match_at;

verus! {

// ---------------------------------------------------------------------------
// Trusted readings of one line's JSON, each named.
// ---------------------------------------------------------------------------

/// The string at `key` of the JSON object on `line`, if the line is a
/// JSON object holding a string there.
pub uninterp spec fn spec_jl_str(line: Seq<char>, key: Seq<char>) -> Option<Seq<char>>;

/// Relies on serde_json's `from_str`, `Value::get` and `Value::as_str`:
/// the string field of the line's object, a function of the line alone.
#[verifier::external_body]
fn jl_str(line: &str, key: &str) -> (r: Option<String>)
    ensures
        r.deep_view() == spec_jl_str(line@, key@),
{
    serde_json::from_str::<serde_json::Value>(line).ok().and_then(
        |v| v.get(key).and_then(|x| x.as_str()).map(|s| s.to_string()),
    )
}

/// The unsigned number at `key` of the line's object.
pub uninterp spec fn spec_jl_u64(line: Seq<char>, key: Seq<char>) -> Option<u64>;

/// Relies on serde_json's `from_str`, `Value::get` and `Value::as_u64`:
/// the unsigned field of the line's object, a function of the line alone.
#[verifier::external_body]
fn jl_u64(line: &str, key: &str) -> (r: Option<u64>)
    ensures
        r == spec_jl_u64(line@, key@),
{
    serde_json::from_str::<serde_json::Value>(line).ok().and_then(
        |v| v.get(key).and_then(|x| x.as_u64()),
    )
}

/// The boolean at `key` of the line's object.
pub uninterp spec fn spec_jl_bool(line: Seq<char>, key: Seq<char>) -> Option<bool>;

/// Relies on serde_json's `from_str`, `Value::get` and `Value::as_bool`:
/// the boolean field of the line's object, a function of the line alone.
#[verifier::external_body]
fn jl_bool(line: &str, key: &str) -> (r: Option<bool>)
    ensures
        r == spec_jl_bool(line@, key@),
{
    serde_json::from_str::<serde_json::Value>(line).ok().and_then(
        |v| v.get(key).and_then(|x| x.as_bool()),
    )
}

/// The value at `key` of the line's object, serialized back to JSON text.
pub uninterp spec fn spec_jl_raw(line: Seq<char>, key: Seq<char>) -> Option<Seq<char>>;

/// Relies on serde_json's `from_str`, `Value::get` and `Value::to_string`:
/// the field's own JSON text, a function of the line alone.
#[verifier::external_body]
fn jl_raw(line: &str, key: &str) -> (r: Option<String>)
    ensures
        r.deep_view() == spec_jl_raw(line@, key@),
{
    serde_json::from_str::<serde_json::Value>(line).ok().and_then(
        |v| v.get(key).map(|x| x.to_string()),
    )
}

/// Whether the line's object holds a non-null value at `key`.
pub uninterp spec fn spec_jl_has(line: Seq<char>, key: Seq<char>) -> bool;

/// Relies on serde_json's `from_str`, `Value::get` and `Value::is_null`:
/// presence of a non-null field, a function of the line alone.
#[verifier::external_body]
fn jl_has(line: &str, key: &str) -> (r: bool)
    ensures
        r == spec_jl_has(line@, key@),
{
    serde_json::from_str::<serde_json::Value>(line).ok().and_then(
        |v| v.get(key).map(|x| !x.is_null()),
    ).unwrap_or(false)
}

/// The string at `k1.k2` of the line's object.
pub uninterp spec fn spec_jl_str2(line: Seq<char>, k1: Seq<char>, k2: Seq<char>) -> Option<
    Seq<char>,
>;

/// Relies on serde_json's `from_str`, `Value::get` and `Value::as_str`:
/// a nested string field, a function of the line alone.
#[verifier::external_body]
fn jl_str2(line: &str, k1: &str, k2: &str) -> (r: Option<String>)
    ensures
        r.deep_view() == spec_jl_str2(line@, k1@, k2@),
{
    serde_json::from_str::<serde_json::Value>(line).ok().and_then(
        |v| v.get(k1).and_then(|m| m.get(k2)).and_then(|x| x.as_str()).map(|s| s.to_string()),
    )
}

/// The JSON text at `k1.k2` of the line's object.
pub uninterp spec fn spec_jl_raw2(line: Seq<char>, k1: Seq<char>, k2: Seq<char>) -> Option<
    Seq<char>,
>;

/// Relies on serde_json's `from_str`, `Value::get` and `Value::to_string`:
/// a nested field's own JSON text, a function of the line alone.
#[verifier::external_body]
fn jl_raw2(line: &str, k1: &str, k2: &str) -> (r: Option<String>)
    ensures
        r.deep_view() == spec_jl_raw2(line@, k1@, k2@),
{
    serde_json::from_str::<serde_json::Value>(line).ok().and_then(
        |v| v.get(k1).and_then(|m| m.get(k2)).map(|x| x.to_string()),
    )
}

/// The length of the `message.content` array of the line's object.
pub uninterp spec fn spec_jl_content_len(line: Seq<char>) -> Option<u64>;

/// Relies on serde_json's `from_str`, `Value::get` and `Value::as_array`:
/// how many content blocks the line's message carries, a function of the
/// line alone.
#[verifier::external_body]
fn jl_content_len(line: &str) -> (r: Option<u64>)
    ensures
        r == spec_jl_content_len(line@),
        match r {
            Some(x) => x <= usize::MAX as u64,
            None => true,
        },
{
    serde_json::from_str::<serde_json::Value>(line).ok().and_then(
        |v| v.get("message").and_then(|m| m.get("content")).and_then(|c| c.as_array()).map(
            |a| a.len() as u64,
        ),
    )
}

/// The string at `key` of the `i`-th content block of the line's message.
pub uninterp spec fn spec_jl_block_str(line: Seq<char>, i: int, key: Seq<char>) -> Option<
    Seq<char>,
>;

/// Relies on serde_json's `from_str`, `Value::get` and `Value::as_str`:
/// a content block's string field, a function of the line alone.
#[verifier::external_body]
fn jl_block_str(line: &str, i: usize, key: &str) -> (r: Option<String>)
    ensures
        r.deep_view() == spec_jl_block_str(line@, i as int, key@),
{
    serde_json::from_str::<serde_json::Value>(line).ok().and_then(
        |v| v.get("message").and_then(|m| m.get("content")).and_then(|c| c.get(i)).and_then(
            |b| b.get(key).and_then(|x| x.as_str()).map(|s| s.to_string()),
        ),
    )
}

/// The JSON text at `key` of the `i`-th content block of the message.
pub uninterp spec fn spec_jl_block_raw(line: Seq<char>, i: int, key: Seq<char>) -> Option<
    Seq<char>,
>;

/// Relies on serde_json's `from_str`, `Value::get` and `Value::to_string`:
/// a content block field's own JSON text, a function of the line alone.
#[verifier::external_body]
fn jl_block_raw(line: &str, i: usize, key: &str) -> (r: Option<String>)
    ensures
        r.deep_view() == spec_jl_block_raw(line@, i as int, key@),
{
    serde_json::from_str::<serde_json::Value>(line).ok().and_then(
        |v| v.get("message").and_then(|m| m.get("content")).and_then(|c| c.get(i)).and_then(
            |b| b.get(key).map(|x| x.to_string()),
        ),
    )
}

} // verus!

verus! {

// ---------------------------------------------------------------------------
// The event union.
// ---------------------------------------------------------------------------

/// One content block of an assistant message.
#[derive(Debug, Clone, PartialEq)]
pub enum ContentBlock {
    Text { text: String },
    ToolUse { id: String, name: String, input_json: String },
    Other,
}

/// The model of a content block.
pub enum ContentBlockModel {
    Text { text: Seq<char> },
    ToolUse { id: Seq<char>, name: Seq<char>, input_json: Seq<char> },
    Other,
}

impl DeepView for ContentBlock {
    type V = ContentBlockModel;

    open spec fn deep_view(&self) -> ContentBlockModel {
        match self {
            ContentBlock::Text { ref text } => ContentBlockModel::Text { text: text@ },
            ContentBlock::ToolUse { ref id, ref name, ref input_json } => ContentBlockModel::ToolUse {
                id: id@,
                name: name@,
                input_json: input_json@,
            },
            ContentBlock::Other => ContentBlockModel::Other,
        }
    }
}

/// One content block of a user message.
#[derive(Debug, Clone, PartialEq)]
pub enum UserContentBlock {
    ToolResult { tool_use_id: String, content: String },
    Other,
}

/// The model of a user content block.
pub enum UserContentBlockModel {
    ToolResult { tool_use_id: Seq<char>, content: Seq<char> },
    Other,
}

impl DeepView for UserContentBlock {
    type V = UserContentBlockModel;

    open spec fn deep_view(&self) -> UserContentBlockModel {
        match self {
            UserContentBlock::ToolResult { ref tool_use_id, ref content } => {
                UserContentBlockModel::ToolResult { tool_use_id: tool_use_id@, content: content@ }
            },
            UserContentBlock::Other => UserContentBlockModel::Other,
        }
    }
}

/// A streaming delta.
#[derive(Debug, Clone, PartialEq)]
pub enum Delta {
    TextDelta { text: String },
    InputJsonDelta { partial_json: String },
    Other,
}

/// The model of a delta.
pub enum DeltaModel {
    TextDelta { text: Seq<char> },
    InputJsonDelta { partial_json: Seq<char> },
    Other,
}

impl DeepView for Delta {
    type V = DeltaModel;

    open spec fn deep_view(&self) -> DeltaModel {
        match self {
            Delta::TextDelta { ref text } => DeltaModel::TextDelta { text: text@ },
            Delta::InputJsonDelta { ref partial_json } => DeltaModel::InputJsonDelta {
                partial_json: partial_json@,
            },
            Delta::Other => DeltaModel::Other,
        }
    }
}

/// An assistant message: its content blocks.
#[derive(Debug, Clone, PartialEq)]
pub struct AssistantMessage {
    pub content: Vec<ContentBlock>,
}

/// A user message: its content blocks.
#[derive(Debug, Clone, PartialEq)]
pub struct UserMessage {
    pub content: Vec<UserContentBlock>,
}

/// A system event.
#[derive(Debug, Clone, PartialEq)]
pub struct SystemEvent {
    pub subtype: Option<String>,
    pub session_id: Option<String>,
}

/// An assistant event.
#[derive(Debug, Clone, PartialEq)]
pub struct AssistantEvent {
    pub message: Option<AssistantMessage>,
}

/// A user event.
#[derive(Debug, Clone, PartialEq)]
pub struct UserEvent {
    pub message: Option<UserMessage>,
}

/// A content block opening.
#[derive(Debug, Clone, PartialEq)]
pub struct ContentBlockStartEvent {
    pub index: Option<u64>,
    pub content_block: Option<ContentBlock>,
}

/// A streaming delta event.
#[derive(Debug, Clone, PartialEq)]
pub struct ContentBlockDeltaEvent {
    pub index: Option<u64>,
    pub delta: Option<Delta>,
}

/// A content block closing.
#[derive(Debug, Clone, PartialEq)]
pub struct ContentBlockStopEvent {
    pub index: Option<u64>,
}

/// The final result event. The cost is kept as the raw JSON text of its
/// field, so nothing of it is lost.
#[derive(Debug, Clone, PartialEq)]
pub struct ResultEvent {
    pub subtype: Option<String>,
    pub is_error: Option<bool>,
    pub duration_ms: Option<u64>,
    pub duration_api_ms: Option<u64>,
    pub num_turns: Option<u32>,
    pub result: Option<String>,
    pub cost_usd: Option<String>,
    pub session_id: Option<String>,
}

/// The model of a result event.
pub struct ResultEventModel {
    pub subtype: Option<Seq<char>>,
    pub is_error: Option<bool>,
    pub duration_ms: Option<u64>,
    pub duration_api_ms: Option<u64>,
    pub num_turns: Option<u32>,
    pub result: Option<Seq<char>>,
    pub cost_usd: Option<Seq<char>>,
    pub session_id: Option<Seq<char>>,
}

impl DeepView for ResultEvent {
    type V = ResultEventModel;

    open spec fn deep_view(&self) -> ResultEventModel {
        ResultEventModel {
            subtype: self.subtype.deep_view(),
            is_error: self.is_error,
            duration_ms: self.duration_ms,
            duration_api_ms: self.duration_api_ms,
            num_turns: self.num_turns,
            result: self.result.deep_view(),
            cost_usd: self.cost_usd.deep_view(),
            session_id: self.session_id.deep_view(),
        }
    }
}

/// An event of the stream protocol.
#[derive(Debug, Clone, PartialEq)]
pub enum StreamEvent {
    System(SystemEvent),
    Assistant(AssistantEvent),
    User(UserEvent),
    ContentBlockStart(ContentBlockStartEvent),
    ContentBlockDelta(ContentBlockDeltaEvent),
    ContentBlockStop(ContentBlockStopEvent),
    Result(ResultEvent),
    Unknown,
}

/// The model of a stream event.
pub enum StreamEventModel {
    System { subtype: Option<Seq<char>>, session_id: Option<Seq<char>> },
    Assistant { message: Option<Seq<ContentBlockModel>> },
    User { message: Option<Seq<UserContentBlockModel>> },
    ContentBlockStart { index: Option<u64>, content_block: Option<ContentBlockModel> },
    ContentBlockDelta { index: Option<u64>, delta: Option<DeltaModel> },
    ContentBlockStop { index: Option<u64> },
    Result(ResultEventModel),
    Unknown,
}

impl DeepView for StreamEvent {
    type V = StreamEventModel;

    open spec fn deep_view(&self) -> StreamEventModel {
        match self {
            StreamEvent::System(ref e) => StreamEventModel::System {
                subtype: e.subtype.deep_view(),
                session_id: e.session_id.deep_view(),
            },
            StreamEvent::Assistant(ref e) => StreamEventModel::Assistant {
                message: match e.message {
                    Some(ref msg) => Some(msg.content.deep_view()),
                    None => None,
                },
            },
            StreamEvent::User(ref e) => StreamEventModel::User {
                message: match e.message {
                    Some(ref msg) => Some(msg.content.deep_view()),
                    None => None,
                },
            },
            StreamEvent::ContentBlockStart(ref e) => StreamEventModel::ContentBlockStart {
                index: e.index,
                content_block: match e.content_block {
                    Some(ref b) => Some(b.deep_view()),
                    None => None,
                },
            },
            StreamEvent::ContentBlockDelta(ref e) => StreamEventModel::ContentBlockDelta {
                index: e.index,
                delta: match e.delta {
                    Some(ref d) => Some(d.deep_view()),
                    None => None,
                },
            },
            StreamEvent::ContentBlockStop(ref e) => StreamEventModel::ContentBlockStop {
                index: e.index,
            },
            StreamEvent::Result(ref e) => StreamEventModel::Result(e.deep_view()),
            StreamEvent::Unknown => StreamEventModel::Unknown,
        }
    }
}

} // verus!

verus! {

// ---------------------------------------------------------------------------
// Classification.
// ---------------------------------------------------------------------------

/// The classification of the `i`-th assistant content block: its tag
/// decides; a `text` block needs its text, a `tool_use` block its id,
/// name and input; a missing or non-string tag spoils the line; any
/// other tag is an opaque block.
pub open spec fn spec_block_of(line: Seq<char>, i: int) -> Option<ContentBlockModel> {
    match spec_jl_block_str(line, i, "type"@) {
        None => None,
        Some(t) => if t == "text"@ {
            match spec_jl_block_str(line, i, "text"@) {
                Some(x) => Some(ContentBlockModel::Text { text: x }),
                None => None,
            }
        } else if t == "tool_use"@ {
            match (
                spec_jl_block_str(line, i, "id"@),
                spec_jl_block_str(line, i, "name"@),
                spec_jl_block_raw(line, i, "input"@),
            ) {
                (Some(id), Some(name), Some(input)) => Some(
                    ContentBlockModel::ToolUse { id, name, input_json: input },
                ),
                _ => None,
            }
        } else {
            Some(ContentBlockModel::Other)
        },
    }
}

/// The classification of the `i`-th user content block.
pub open spec fn spec_user_block_of(line: Seq<char>, i: int) -> Option<UserContentBlockModel> {
    match spec_jl_block_str(line, i, "type"@) {
        None => None,
        Some(t) => if t == "tool_result"@ {
            match (
                spec_jl_block_str(line, i, "tool_use_id"@),
                spec_jl_block_str(line, i, "content"@),
            ) {
                (Some(tool_use_id), Some(content)) => Some(
                    UserContentBlockModel::ToolResult { tool_use_id, content },
                ),
                _ => None,
            }
        } else {
            Some(UserContentBlockModel::Other)
        },
    }
}

/// All assistant blocks from `i` to `n`, or nothing when one is spoiled.
pub open spec fn spec_blocks_from(line: Seq<char>, n: int, i: int) -> Option<
    Seq<ContentBlockModel>,
>
    decreases n - i when i <= n
{
    if i >= n {
        Some(Seq::empty())
    } else {
        match spec_block_of(line, i) {
            None => None,
            Some(b) => match spec_blocks_from(line, n, i + 1) {
                None => None,
                Some(rest) => Some(seq![b] + rest),
            },
        }
    }
}

/// All user blocks from `i` to `n`, or nothing when one is spoiled.
pub open spec fn spec_user_blocks_from(line: Seq<char>, n: int, i: int) -> Option<
    Seq<UserContentBlockModel>,
>
    decreases n - i when i <= n
{
    if i >= n {
        Some(Seq::empty())
    } else {
        match spec_user_block_of(line, i) {
            None => None,
            Some(b) => match spec_user_blocks_from(line, n, i + 1) {
                None => None,
                Some(rest) => Some(seq![b] + rest),
            },
        }
    }
}

/// An optional turn count: a number beyond `u32` is treated as absent.
pub open spec fn spec_opt_u32(line: Seq<char>, key: Seq<char>) -> Option<u32> {
    match spec_jl_u64(line, key) {
        Some(x) => if x <= u32::MAX as u64 {
            Some(x as u32)
        } else {
            None
        },
        None => None,
    }
}

/// The classification of one line. A line without a string `type` tag
/// is malformed (`None`); an unrecognized tag is the `Unknown` event; a
/// recognized tag builds its event from the line's fields. An
/// `assistant` or `user` line carrying a `message` needs a well-formed
/// content array, else the line is malformed; optional scalar fields
/// are absent when missing or oddly typed.
pub open spec fn spec_classify_line(line: Seq<char>) -> Option<StreamEventModel> {
    match spec_jl_str(line, "type"@) {
        None => None,
        Some(t) => if t == "system"@ {
            Some(
                StreamEventModel::System {
                    subtype: spec_jl_str(line, "subtype"@),
                    session_id: spec_jl_str(line, "session_id"@),
                },
            )
        } else if t == "assistant"@ {
            if !spec_jl_has(line, "message"@) {
                Some(StreamEventModel::Assistant { message: None })
            } else {
                match spec_jl_content_len(line) {
                    None => None,
                    Some(n) => match spec_blocks_from(line, n as int, 0) {
                        None => None,
                        Some(blocks) => Some(StreamEventModel::Assistant { message: Some(blocks) }),
                    },
                }
            }
        } else if t == "user"@ {
            if !spec_jl_has(line, "message"@) {
                Some(StreamEventModel::User { message: None })
            } else {
                match spec_jl_content_len(line) {
                    None => None,
                    Some(n) => match spec_user_blocks_from(line, n as int, 0) {
                        None => None,
                        Some(blocks) => Some(StreamEventModel::User { message: Some(blocks) }),
                    },
                }
            }
        } else if t == "content_block_start"@ {
            match spec_start_block(line) {
                None => None,
                Some(cb) => Some(
                    StreamEventModel::ContentBlockStart {
                        index: spec_jl_u64(line, "index"@),
                        content_block: cb,
                    },
                ),
            }
        } else if t == "content_block_delta"@ {
            match spec_delta_of(line) {
                None => None,
                Some(d) => Some(
                    StreamEventModel::ContentBlockDelta {
                        index: spec_jl_u64(line, "index"@),
                        delta: d,
                    },
                ),
            }
        } else if t == "content_block_stop"@ {
            Some(StreamEventModel::ContentBlockStop { index: spec_jl_u64(line, "index"@) })
        } else if t == "result"@ {
            Some(
                StreamEventModel::Result(
                    ResultEventModel {
                        subtype: spec_jl_str(line, "subtype"@),
                        is_error: spec_jl_bool(line, "is_error"@),
                        duration_ms: spec_jl_u64(line, "duration_ms"@),
                        duration_api_ms: spec_jl_u64(line, "duration_api_ms"@),
                        num_turns: spec_opt_u32(line, "num_turns"@),
                        result: spec_jl_str(line, "result"@),
                        cost_usd: spec_jl_raw(line, "cost_usd"@),
                        session_id: spec_jl_str(line, "session_id"@),
                    },
                ),
            )
        } else {
            Some(StreamEventModel::Unknown)
        },
    }
}

/// The opening event's block: absent without a `content_block` field; a
/// present one needs a tag and, per tag, its fields, else the line is
/// malformed (outer `None`).
pub open spec fn spec_start_block(line: Seq<char>) -> Option<Option<ContentBlockModel>> {
    if !spec_jl_has(line, "content_block"@) {
        Some(None)
    } else {
        match spec_jl_str2(line, "content_block"@, "type"@) {
            None => None,
            Some(t) => if t == "text"@ {
                match spec_jl_str2(line, "content_block"@, "text"@) {
                    Some(x) => Some(Some(ContentBlockModel::Text { text: x })),
                    None => None,
                }
            } else if t == "tool_use"@ {
                match (
                    spec_jl_str2(line, "content_block"@, "id"@),
                    spec_jl_str2(line, "content_block"@, "name"@),
                    spec_jl_raw2(line, "content_block"@, "input"@),
                ) {
                    (Some(id), Some(name), Some(input)) => Some(
                        Some(ContentBlockModel::ToolUse { id, name, input_json: input }),
                    ),
                    _ => None,
                }
            } else {
                Some(Some(ContentBlockModel::Other))
            },
        }
    }
}

/// The delta event's delta: absent without a `delta` field; a present
/// one needs a tag and, per tag, its field.
pub open spec fn spec_delta_of(line: Seq<char>) -> Option<Option<DeltaModel>> {
    if !spec_jl_has(line, "delta"@) {
        Some(None)
    } else {
        match spec_jl_str2(line, "delta"@, "type"@) {
            None => None,
            Some(t) => if t == "text_delta"@ {
                match spec_jl_str2(line, "delta"@, "text"@) {
                    Some(x) => Some(Some(DeltaModel::TextDelta { text: x })),
                    None => None,
                }
            } else if t == "input_json_delta"@ {
                match spec_jl_str2(line, "delta"@, "partial_json"@) {
                    Some(x) => Some(Some(DeltaModel::InputJsonDelta { partial_json: x })),
                    None => None,
                }
            } else {
                Some(Some(DeltaModel::Other))
            },
        }
    }
}

} // verus!

verus! {

/// Builds one assistant block, matching `spec_block_of`.
fn block_of(line: &str, i: usize) -> (r: Option<ContentBlock>)
    ensures
        match r {
            Some(b) => spec_block_of(line@, i as int) == Some(b.deep_view()),
            None => spec_block_of(line@, i as int) is None,
        },
{
    let t = match jl_block_str(line, i, "type") {
        Some(t) => t,
        None => {
            return None;
        },
    };
    proof {
        reveal_strlit("text");
        reveal_strlit("tool_use");
    }
    if t.as_str().unicode_len() == 4 && crate::text::match_at(&crate::text::to_chars(t.as_str()), 0, "text") {
        proof {
            assert(t@ =~= "text"@);
        }
        match jl_block_str(line, i, "text") {
            Some(x) => Some(ContentBlock::Text { text: x }),
            None => None,
        }
    } else if t.as_str().unicode_len() == 8 && crate::text::match_at(
        &crate::text::to_chars(t.as_str()),
        0,
        "tool_use",
    ) {
        proof {
            assert(t@ =~= "tool_use"@);
        }
        match (jl_block_str(line, i, "id"), jl_block_str(line, i, "name"), jl_block_raw(
            line,
            i,
            "input",
        )) {
            (Some(id), Some(name), Some(input)) => Some(
                ContentBlock::ToolUse { id, name, input_json: input },
            ),
            _ => None,
        }
    } else {
        proof {
            if t@ == "text"@ {
                assert(t@.len() == 4);
                assert(spec_match_at(t@, 0, "text"@)) by {
                    assert(forall|k: int| 0 <= k < 4 ==> t@[k] == "text"@[k]);
                }
            }
            if t@ == "tool_use"@ {
                assert(t@.len() == 8);
                assert(spec_match_at(t@, 0, "tool_use"@)) by {
                    assert(forall|k: int| 0 <= k < 8 ==> t@[k] == "tool_use"@[k]);
                }
            }
        }
        Some(ContentBlock::Other)
    }
}

/// Builds one user block, matching `spec_user_block_of`.
fn user_block_of(line: &str, i: usize) -> (r: Option<UserContentBlock>)
    ensures
        match r {
            Some(b) => spec_user_block_of(line@, i as int) == Some(b.deep_view()),
            None => spec_user_block_of(line@, i as int) is None,
        },
{
    let t = match jl_block_str(line, i, "type") {
        Some(t) => t,
        None => {
            return None;
        },
    };
    proof {
        reveal_strlit("tool_result");
    }
    if t.as_str().unicode_len() == 11 && crate::text::match_at(
        &crate::text::to_chars(t.as_str()),
        0,
        "tool_result",
    ) {
        proof {
            assert(t@ =~= "tool_result"@);
        }
        match (jl_block_str(line, i, "tool_use_id"), jl_block_str(line, i, "content")) {
            (Some(tool_use_id), Some(content)) => Some(
                UserContentBlock::ToolResult { tool_use_id, content },
            ),
            _ => None,
        }
    } else {
        proof {
            if t@ == "tool_result"@ {
                assert(t@.len() == 11);
                assert(spec_match_at(t@, 0, "tool_result"@)) by {
                    assert(forall|k: int| 0 <= k < 11 ==> t@[k] == "tool_result"@[k]);
                }
            }
        }
        Some(UserContentBlock::Other)
    }
}

/// Builds every assistant block, matching `spec_blocks_from`.
fn blocks_of(line: &str, n: u64) -> (r: Option<Vec<ContentBlock>>)
    requires
        n <= usize::MAX as u64,
    ensures
        match r {
            Some(v) => spec_blocks_from(line@, n as int, 0) == Some(v.deep_view()),
            None => spec_blocks_from(line@, n as int, 0) is None,
        },
{
    let mut out: Vec<ContentBlock> = Vec::new();
    let mut i: u64 = 0;
    proof {
        assert(out.deep_view() =~= Seq::<ContentBlockModel>::empty());
        match spec_blocks_from(line@, n as int, 0) {
            Some(rest) => {
                assert(out.deep_view() + rest =~= rest);
            },
            None => {},
        }
    }
    while i < n
        invariant
            i <= n,
            n <= usize::MAX as u64,
            match spec_blocks_from(line@, n as int, i as int) {
                Some(rest) => spec_blocks_from(line@, n as int, 0) == Some(out.deep_view() + rest),
                None => spec_blocks_from(line@, n as int, 0) is None,
            },
        decreases n - i,
    {
        let ghost d0 = out.deep_view();
        match block_of(line, i as usize) {
            Some(b) => {
                let ghost bm = b.deep_view();
                out.push(b);
                proof {
                    assert(out.deep_view() =~= d0.push(bm));
                    match spec_blocks_from(line@, n as int, i + 1) {
                        Some(rest2) => {
                            assert(spec_blocks_from(line@, n as int, i as int) == Some(
                                seq![bm] + rest2,
                            ));
                            assert(d0.push(bm) + rest2 =~= d0 + (seq![bm] + rest2));
                        },
                        None => {
                            assert(spec_blocks_from(line@, n as int, i as int) is None);
                        },
                    }
                }
            },
            None => {
                proof {
                    assert(spec_blocks_from(line@, n as int, i as int) is None);
                }
                return None;
            },
        }
        i = i + 1;
    }
    proof {
        assert(spec_blocks_from(line@, n as int, n as int) == Some(
            Seq::<ContentBlockModel>::empty(),
        ));
        assert(out.deep_view() + Seq::<ContentBlockModel>::empty() =~= out.deep_view());
    }
    Some(out)
}

/// Builds every user block, matching `spec_user_blocks_from`.
fn user_blocks_of(line: &str, n: u64) -> (r: Option<Vec<UserContentBlock>>)
    requires
        n <= usize::MAX as u64,
    ensures
        match r {
            Some(v) => spec_user_blocks_from(line@, n as int, 0) == Some(v.deep_view()),
            None => spec_user_blocks_from(line@, n as int, 0) is None,
        },
{
    let mut out: Vec<UserContentBlock> = Vec::new();
    let mut i: u64 = 0;
    proof {
        assert(out.deep_view() =~= Seq::<UserContentBlockModel>::empty());
        match spec_user_blocks_from(line@, n as int, 0) {
            Some(rest) => {
                assert(out.deep_view() + rest =~= rest);
            },
            None => {},
        }
    }
    while i < n
        invariant
            i <= n,
            n <= usize::MAX as u64,
            match spec_user_blocks_from(line@, n as int, i as int) {
                Some(rest) => spec_user_blocks_from(line@, n as int, 0) == Some(
                    out.deep_view() + rest,
                ),
                None => spec_user_blocks_from(line@, n as int, 0) is None,
            },
        decreases n - i,
    {
        let ghost d0 = out.deep_view();
        match user_block_of(line, i as usize) {
            Some(b) => {
                let ghost bm = b.deep_view();
                out.push(b);
                proof {
                    assert(out.deep_view() =~= d0.push(bm));
                    match spec_user_blocks_from(line@, n as int, i + 1) {
                        Some(rest2) => {
                            assert(spec_user_blocks_from(line@, n as int, i as int) == Some(
                                seq![bm] + rest2,
                            ));
                            assert(d0.push(bm) + rest2 =~= d0 + (seq![bm] + rest2));
                        },
                        None => {
                            assert(spec_user_blocks_from(line@, n as int, i as int) is None);
                        },
                    }
                }
            },
            None => {
                proof {
                    assert(spec_user_blocks_from(line@, n as int, i as int) is None);
                }
                return None;
            },
        }
        i = i + 1;
    }
    proof {
        assert(spec_user_blocks_from(line@, n as int, n as int) == Some(
            Seq::<UserContentBlockModel>::empty(),
        ));
        assert(out.deep_view() + Seq::<UserContentBlockModel>::empty() =~= out.deep_view());
    }
    Some(out)
}

} // verus!

verus! {

/// Classifies one line, matching `spec_classify_line`: nothing for a
/// malformed line, otherwise its event.
pub fn classify_line(line: &str) -> (r: Option<StreamEvent>)
    ensures
        match r {
            Some(e) => spec_classify_line(line@) == Some(e.deep_view()),
            None => spec_classify_line(line@) is None,
        },
{
    let t = match jl_str(line, "type") {
        Some(t) => t,
        None => {
            return None;
        },
    };
    if crate::text::str_eq(t.as_str(), "system") {
        Some(
            StreamEvent::System(
                SystemEvent {
                    subtype: jl_str(line, "subtype"),
                    session_id: jl_str(line, "session_id"),
                },
            ),
        )
    } else if crate::text::str_eq(t.as_str(), "assistant") {
        if !jl_has(line, "message") {
            Some(StreamEvent::Assistant(AssistantEvent { message: None }))
        } else {
            let n = match jl_content_len(line) {
                Some(n) => n,
                None => {
                    return None;
                },
            };
            match blocks_of(line, n) {
                Some(content) => Some(
                    StreamEvent::Assistant(
                        AssistantEvent { message: Some(AssistantMessage { content }) },
                    ),
                ),
                None => None,
            }
        }
    } else if crate::text::str_eq(t.as_str(), "user") {
        if !jl_has(line, "message") {
            Some(StreamEvent::User(UserEvent { message: None }))
        } else {
            let n = match jl_content_len(line) {
                Some(n) => n,
                None => {
                    return None;
                },
            };
            match user_blocks_of(line, n) {
                Some(content) => Some(
                    StreamEvent::User(UserEvent { message: Some(UserMessage { content }) }),
                ),
                None => None,
            }
        }
    } else if crate::text::str_eq(t.as_str(), "content_block_start") {
        let cb: Option<ContentBlock> = if !jl_has(line, "content_block") {
            None
        } else {
            let tag = match jl_str2(line, "content_block", "type") {
                Some(tag) => tag,
                None => {
                    return None;
                },
            };
            if crate::text::str_eq(tag.as_str(), "text") {
                match jl_str2(line, "content_block", "text") {
                    Some(x) => Some(ContentBlock::Text { text: x }),
                    None => {
                        return None;
                    },
                }
            } else if crate::text::str_eq(tag.as_str(), "tool_use") {
                match (
                    jl_str2(line, "content_block", "id"),
                    jl_str2(line, "content_block", "name"),
                    jl_raw2(line, "content_block", "input"),
                ) {
                    (Some(id), Some(name), Some(input)) => Some(
                        ContentBlock::ToolUse { id, name, input_json: input },
                    ),
                    _ => {
                        return None;
                    },
                }
            } else {
                Some(ContentBlock::Other)
            }
        };
        Some(
            StreamEvent::ContentBlockStart(
                ContentBlockStartEvent { index: jl_u64(line, "index"), content_block: cb },
            ),
        )
    } else if crate::text::str_eq(t.as_str(), "content_block_delta") {
        let d: Option<Delta> = if !jl_has(line, "delta") {
            None
        } else {
            let tag = match jl_str2(line, "delta", "type") {
                Some(tag) => tag,
                None => {
                    return None;
                },
            };
            if crate::text::str_eq(tag.as_str(), "text_delta") {
                match jl_str2(line, "delta", "text") {
                    Some(x) => Some(Delta::TextDelta { text: x }),
                    None => {
                        return None;
                    },
                }
            } else if crate::text::str_eq(tag.as_str(), "input_json_delta") {
                match jl_str2(line, "delta", "partial_json") {
                    Some(x) => Some(Delta::InputJsonDelta { partial_json: x }),
                    None => {
                        return None;
                    },
                }
            } else {
                Some(Delta::Other)
            }
        };
        Some(
            StreamEvent::ContentBlockDelta(
                ContentBlockDeltaEvent { index: jl_u64(line, "index"), delta: d },
            ),
        )
    } else if crate::text::str_eq(t.as_str(), "content_block_stop") {
        Some(StreamEvent::ContentBlockStop(ContentBlockStopEvent { index: jl_u64(line, "index") }))
    } else if crate::text::str_eq(t.as_str(), "result") {
        let num_turns: Option<u32> = match jl_u64(line, "num_turns") {
            Some(x) => {
                if x <= 0xffff_ffffu64 {
                    Some(x as u32)
                } else {
                    None
                }
            },
            None => None,
        };
        Some(
            StreamEvent::Result(
                ResultEvent {
                    subtype: jl_str(line, "subtype"),
                    is_error: jl_bool(line, "is_error"),
                    duration_ms: jl_u64(line, "duration_ms"),
                    duration_api_ms: jl_u64(line, "duration_api_ms"),
                    num_turns,
                    result: jl_str(line, "result"),
                    cost_usd: jl_raw(line, "cost_usd"),
                    session_id: jl_str(line, "session_id"),
                },
            ),
        )
    } else {
        Some(StreamEvent::Unknown)
    }
}

/// The run summary a stream yields.
#[derive(Debug, Clone, PartialEq)]
pub struct ProcessResult {
    pub exit_code: i32,
    pub duration_ms: Option<u64>,
    pub cost_usd: Option<String>,
    pub num_turns: Option<u32>,
    pub is_error: bool,
    pub result_text: Option<String>,
}

/// The model of a run summary.
pub struct ProcessResultModel {
    pub exit_code: i32,
    pub duration_ms: Option<u64>,
    pub cost_usd: Option<Seq<char>>,
    pub num_turns: Option<u32>,
    pub is_error: bool,
    pub result_text: Option<Seq<char>>,
}

impl DeepView for ProcessResult {
    type V = ProcessResultModel;

    open spec fn deep_view(&self) -> ProcessResultModel {
        ProcessResultModel {
            exit_code: self.exit_code,
            duration_ms: self.duration_ms,
            cost_usd: self.cost_usd.deep_view(),
            num_turns: self.num_turns,
            is_error: self.is_error,
            result_text: self.result_text.deep_view(),
        }
    }
}

/// The empty summary: exit code zero, nothing recorded.
pub open spec fn spec_empty_summary() -> ProcessResultModel {
    ProcessResultModel {
        exit_code: 0,
        duration_ms: None,
        cost_usd: None,
        num_turns: None,
        is_error: false,
        result_text: None,
    }
}

/// How one event changes the summary: a result event overwrites the
/// recorded figures (the last result wins); every other event leaves
/// the summary alone.
pub open spec fn spec_apply_event(acc: ProcessResultModel, e: StreamEventModel) -> ProcessResultModel {
    match e {
        StreamEventModel::Result(r) => ProcessResultModel {
            exit_code: acc.exit_code,
            duration_ms: r.duration_ms,
            cost_usd: r.cost_usd,
            num_turns: r.num_turns,
            is_error: match r.is_error {
                Some(b) => b,
                None => false,
            },
            result_text: r.result,
        },
        _ => acc,
    }
}

/// The events of the classifiable, non-blank lines, in line order.
pub open spec fn spec_classified(lines: Seq<Seq<char>>) -> Seq<StreamEventModel>
    decreases lines.len(),
{
    if lines.len() == 0 {
        Seq::empty()
    } else {
        let pre = spec_classified(lines.drop_last());
        if crate::text::spec_trim(lines.last()).len() == 0 {
            pre
        } else {
            match spec_classify_line(lines.last()) {
                Some(e) => pre.push(e),
                None => pre,
            }
        }
    }
}

/// The summary of a sequence of events.
pub open spec fn spec_summary_of(events: Seq<StreamEventModel>) -> ProcessResultModel
    decreases events.len(),
{
    if events.len() == 0 {
        spec_empty_summary()
    } else {
        spec_apply_event(spec_summary_of(events.drop_last()), events.last())
    }
}

/// Classifies a whole stream, line by line: blank lines are skipped,
/// malformed lines are skipped, every other line yields its event in
/// order, and the summary reflects the last result event.
pub fn process_lines(lines: &Vec<String>) -> (r: (Vec<StreamEvent>, ProcessResult))
    ensures
        r.0.deep_view() == spec_classified(lines.deep_view()),
        r.1.deep_view() == spec_summary_of(spec_classified(lines.deep_view())),
{
    let n = lines.len();
    let mut events: Vec<StreamEvent> = Vec::new();
    let mut summary = ProcessResult {
        exit_code: 0,
        duration_ms: None,
        cost_usd: None,
        num_turns: None,
        is_error: false,
        result_text: None,
    };
    let mut i: usize = 0;
    proof {
        assert(events.deep_view() =~= Seq::<StreamEventModel>::empty());
        assert(lines.deep_view().subrange(0, 0) =~= Seq::<Seq<char>>::empty());
    }
    while i < n
        invariant
            i <= n,
            n == lines@.len(),
            events.deep_view() == spec_classified(lines.deep_view().subrange(0, i as int)),
            summary.deep_view() == spec_summary_of(events.deep_view()),
        decreases n - i,
    {
        let ghost ld = lines.deep_view();
        let ghost pre = ld.subrange(0, i as int);
        let ghost post = ld.subrange(0, i + 1);
        proof {
            assert(post.drop_last() =~= pre);
            assert(post.last() == ld[i as int]);
            assert(lines.deep_view()[i as int] == lines@[i as int]@);
        }
        let chars = crate::text::to_chars(lines[i].as_str());
        let (a, b) = crate::text::trim_of(&chars);
        if a == b {
            proof {
                assert(crate::text::spec_trim(ld[i as int]).len() == 0);
            }
        } else {
            proof {
                assert(crate::text::spec_trim(ld[i as int]).len() != 0);
            }
            match classify_line(lines[i].as_str()) {
                Some(e) => {
                    let ghost e0 = events.deep_view();
                    let ghost s0 = summary.deep_view();
                    let ghost em = e.deep_view();
                    match &e {
                        StreamEvent::Result(r) => {
                            summary.duration_ms = r.duration_ms;
                            summary.cost_usd = r.cost_usd.clone();
                            summary.num_turns = r.num_turns;
                            summary.is_error = match r.is_error {
                                Some(b) => b,
                                None => false,
                            };
                            summary.result_text = r.result.clone();
                        },
                        _ => {},
                    }
                    events.push(e);
                    proof {
                        assert(events.deep_view() =~= e0.push(em));
                        assert(events.deep_view().drop_last() =~= e0);
                        assert(summary.deep_view() == spec_apply_event(s0, em));
                    }
                },
                None => {},
            }
        }
        i = i + 1;
    }
    proof {
        assert(lines.deep_view().subrange(0, n as int) =~= lines.deep_view());
    }
    (events, summary)
}

} // verus!

verus! {

/// Classification distributes over concatenation of line streams: the
/// events of two streams fed in order are the first stream's events
/// followed by the second's. Feeding the same line again thus yields a
/// structurally equal event again, in place.
pub proof fn lemma_classified_append(a: Seq<Seq<char>>, b: Seq<Seq<char>>)
    ensures
        spec_classified(a + b) == spec_classified(a) + spec_classified(b),
    decreases b.len(),
{
    if b.len() == 0 {
        assert(a + b =~= a);
        assert(spec_classified(a) + spec_classified(b) =~= spec_classified(a));
    } else {
        lemma_classified_append(a, b.drop_last());
        let whole = a + b;
        assert(whole.drop_last() =~= a + b.drop_last());
        assert(whole.last() == b.last());
        if crate::text::spec_trim(b.last()).len() == 0 {
            assert(spec_classified(whole) == spec_classified(a + b.drop_last()));
        } else {
            match spec_classify_line(b.last()) {
                Some(e) => {
                    assert(spec_classified(whole) == spec_classified(a + b.drop_last()).push(e));
                    assert(spec_classified(a) + spec_classified(b.drop_last()).push(e)
                        =~= spec_classified(a) + spec_classified(b));
                },
                None => {
                    assert(spec_classified(whole) == spec_classified(a + b.drop_last()));
                },
            }
        }
    }
}

} // verus!
