//! The voice-assistant session: the state the page shows (chat, transcript,
//! bot activity, event log, function calls) and how each event from the
//! server, the socket and the microphone voice detector changes it.
//!
//! The audio itself (decoding, resampling, energy meters, scheduling) works
//! in floating point and stays with the caller; each step here returns what
//! the caller must do to the audio graph.
use vstd::prelude::*;
use crate::json::{json_has_key, json_has_key_of, json_str_member, json_str_member_of};
use crate::text::{
    hex_span, is_blank, is_lower_hex, lemma_hex_digits, owned, padded_digits, push_padded, str_eq,
    trim, trimmed,
};

verus! {

// ---------------------------------------------------------------------------
// Data
// ---------------------------------------------------------------------------

/// What the assistant is doing, as shown by the orb and header.
#[derive(Clone, Copy, PartialEq, Eq, Structural, Debug)]
pub enum Activity {
    Idle,
    Listening,
    Processing,
    Speaking,
}

/// Connection status of the voice socket.
#[derive(Clone, Copy, PartialEq, Eq, Structural, Debug)]
pub enum ConnectionStatus {
    Idle,
    Connecting,
    Connected,
    Error,
}

impl ConnectionStatus {
    /// The label the page shows and matches on.
    pub fn as_str(&self) -> (r: &'static str)
        ensures
            r@ == status_label(*self),
    {
        match self {
            ConnectionStatus::Idle => "idle",
            ConnectionStatus::Connecting => "connecting",
            ConnectionStatus::Connected => "connected",
            ConnectionStatus::Error => "error",
        }
    }
}

pub open spec fn status_label(s: ConnectionStatus) -> Seq<char> {
    match s {
        ConnectionStatus::Idle => "idle"@,
        ConnectionStatus::Connecting => "connecting"@,
        ConnectionStatus::Connected => "connected"@,
        ConnectionStatus::Error => "error"@,
    }
}

/// One line of the chat transcript.
pub struct ChatMessage {
    pub id: String,
    pub role: String,
    pub text: String,
    pub final_msg: bool,
}

/// A tool call the assistant reported.
pub struct FunctionCall {
    pub id: String,
    pub name: String,
    pub state: String,
    pub payload: Option<String>,
}

/// One entry of the event log.
pub struct RaviEvent {
    pub id: String,
    pub ts: u64,
    pub event_type: String,
    pub detail: Option<String>,
}

/// A `server-message` payload as received.
pub struct ServerMessage {
    pub msg_type: String,
    pub data: String,
}

/// The members of an event's `data` object that the session reads, each
/// present only when it holds a value of the expected JSON type.
pub struct EventData {
    /// `data.text` when it is a string.
    pub text: Option<String>,
    /// `data.final` when it is a boolean.
    pub is_final: Option<bool>,
    /// `data.type` when it is a string.
    pub msg_type: Option<String>,
    /// `data.id` when it is a string.
    pub id: Option<String>,
    /// `data.function_name` when it is a string.
    pub function_name: Option<String>,
    /// `data.error` when it is a string.
    pub error: Option<String>,
    /// The whole `data` value, serialised as compact JSON.
    pub raw: String,
}

/// A RAVI protocol message: `{"label": .., "type": .., "id": .., "data": ..}`.
pub struct RaviEnvelope {
    pub label: String,
    pub msg_type: String,
    pub id: Option<String>,
    pub data: Option<EventData>,
}

/// The session state behind the voice page.
pub struct Pipeline {
    pub status: ConnectionStatus,
    pub activity: Activity,
    pub messages: Vec<ChatMessage>,
    pub transcript: String,
    pub turn_count: u32,
    pub interrupt_count: u32,
    pub buffered_ms: u32,
    pub last_error: Option<String>,
    pub function_calls: Vec<FunctionCall>,
    pub events: Vec<RaviEvent>,
    pub server_messages: Vec<ServerMessage>,
    pub bot_text: String,
    pub is_bot_speaking: bool,
    pub pipeline_texts: Vec<String>,
    pub user_speaking: bool,
    pub connect_trigger: u32,
    pub tasks_started: bool,
    /// The counter behind generated identifiers.
    pub next_uid: u64,
}

// ---------------------------------------------------------------------------
// Views
// ---------------------------------------------------------------------------

#[verifier::ext_equal]
pub struct ChatMessageView {
    pub id: Seq<char>,
    pub role: Seq<char>,
    pub text: Seq<char>,
    pub final_msg: bool,
}

#[verifier::ext_equal]
pub struct FunctionCallView {
    pub id: Seq<char>,
    pub name: Seq<char>,
    pub state: Seq<char>,
    pub payload: Option<Seq<char>>,
}

#[verifier::ext_equal]
pub struct RaviEventView {
    pub id: Seq<char>,
    pub ts: u64,
    pub event_type: Seq<char>,
    pub detail: Option<Seq<char>>,
}

#[verifier::ext_equal]
pub struct ServerMessageView {
    pub msg_type: Seq<char>,
    pub data: Seq<char>,
}

#[verifier::ext_equal]
pub struct EventDataView {
    pub text: Option<Seq<char>>,
    pub is_final: Option<bool>,
    pub msg_type: Option<Seq<char>>,
    pub id: Option<Seq<char>>,
    pub function_name: Option<Seq<char>>,
    pub error: Option<Seq<char>>,
    pub raw: Seq<char>,
}

#[verifier::ext_equal]
pub struct EnvelopeView {
    pub label: Seq<char>,
    pub msg_type: Seq<char>,
    pub id: Option<Seq<char>>,
    pub data: Option<EventDataView>,
}

#[verifier::ext_equal]
pub struct PipelineView {
    pub status: ConnectionStatus,
    pub activity: Activity,
    pub messages: Seq<ChatMessageView>,
    pub transcript: Seq<char>,
    pub turn_count: u32,
    pub interrupt_count: u32,
    pub buffered_ms: u32,
    pub last_error: Option<Seq<char>>,
    pub function_calls: Seq<FunctionCallView>,
    pub events: Seq<RaviEventView>,
    pub server_messages: Seq<ServerMessageView>,
    pub bot_text: Seq<char>,
    pub is_bot_speaking: bool,
    pub pipeline_texts: Seq<Seq<char>>,
    pub user_speaking: bool,
    pub connect_trigger: u32,
    pub tasks_started: bool,
    pub next_uid: u64,
}

pub open spec fn opt_view(o: Option<String>) -> Option<Seq<char>> {
    match o {
        Some(s) => Some(s@),
        None => None,
    }
}

impl View for ChatMessage {
    type V = ChatMessageView;

    open spec fn view(&self) -> ChatMessageView {
        ChatMessageView { id: self.id@, role: self.role@, text: self.text@, final_msg: self.final_msg }
    }
}

impl View for FunctionCall {
    type V = FunctionCallView;

    open spec fn view(&self) -> FunctionCallView {
        FunctionCallView {
            id: self.id@,
            name: self.name@,
            state: self.state@,
            payload: opt_view(self.payload),
        }
    }
}

impl View for RaviEvent {
    type V = RaviEventView;

    open spec fn view(&self) -> RaviEventView {
        RaviEventView {
            id: self.id@,
            ts: self.ts,
            event_type: self.event_type@,
            detail: opt_view(self.detail),
        }
    }
}

impl View for ServerMessage {
    type V = ServerMessageView;

    open spec fn view(&self) -> ServerMessageView {
        ServerMessageView { msg_type: self.msg_type@, data: self.data@ }
    }
}

impl View for EventData {
    type V = EventDataView;

    open spec fn view(&self) -> EventDataView {
        EventDataView {
            text: opt_view(self.text),
            is_final: self.is_final,
            msg_type: opt_view(self.msg_type),
            id: opt_view(self.id),
            function_name: opt_view(self.function_name),
            error: opt_view(self.error),
            raw: self.raw@,
        }
    }
}

impl View for RaviEnvelope {
    type V = EnvelopeView;

    open spec fn view(&self) -> EnvelopeView {
        EnvelopeView {
            label: self.label@,
            msg_type: self.msg_type@,
            id: opt_view(self.id),
            data: match self.data {
                Some(d) => Some(d@),
                None => None,
            },
        }
    }
}

pub open spec fn messages_view(v: Seq<ChatMessage>) -> Seq<ChatMessageView> {
    v.map_values(|m: ChatMessage| m@)
}

pub open spec fn calls_view(v: Seq<FunctionCall>) -> Seq<FunctionCallView> {
    v.map_values(|c: FunctionCall| c@)
}

pub open spec fn events_view(v: Seq<RaviEvent>) -> Seq<RaviEventView> {
    v.map_values(|e: RaviEvent| e@)
}

pub open spec fn server_messages_view(v: Seq<ServerMessage>) -> Seq<ServerMessageView> {
    v.map_values(|m: ServerMessage| m@)
}

pub open spec fn texts_view(v: Seq<String>) -> Seq<Seq<char>> {
    v.map_values(|s: String| s@)
}

impl View for Pipeline {
    type V = PipelineView;

    open spec fn view(&self) -> PipelineView {
        PipelineView {
            status: self.status,
            activity: self.activity,
            messages: messages_view(self.messages@),
            transcript: self.transcript@,
            turn_count: self.turn_count,
            interrupt_count: self.interrupt_count,
            buffered_ms: self.buffered_ms,
            last_error: opt_view(self.last_error),
            function_calls: calls_view(self.function_calls@),
            events: events_view(self.events@),
            server_messages: server_messages_view(self.server_messages@),
            bot_text: self.bot_text@,
            is_bot_speaking: self.is_bot_speaking,
            pipeline_texts: texts_view(self.pipeline_texts@),
            user_speaking: self.user_speaking,
            connect_trigger: self.connect_trigger,
            tasks_started: self.tasks_started,
            next_uid: self.next_uid,
        }
    }
}

// ---------------------------------------------------------------------------
// Identifiers and the event log
// ---------------------------------------------------------------------------

/// The identifier drawn from counter value `n`: eight or more lower-case
/// hexadecimal digits (`format!("{:08x}", n)`).
pub open spec fn uid_text(n: u64) -> Seq<char> {
    padded_digits(n as nat, 16, 8)
}

/// The counter after drawing one identifier (it wraps around).
pub open spec fn bump(n: u64) -> u64 {
    if n == u64::MAX {
        0
    } else {
        (n + 1) as u64
    }
}

/// Draws the next identifier from `counter`.
pub fn uid(counter: &mut u64) -> (r: String)
    ensures
        r@ == uid_text(*old(counter)),
        *final(counter) == bump(*old(counter)),
{
    let n = *counter;
    let mut s = String::new();
    push_padded(&mut s, n, 16, 8);
    *counter = n.wrapping_add(1);
    s
}

/// The session after drawing one identifier.
pub open spec fn after_uid(v: PipelineView) -> PipelineView {
    PipelineView { next_uid: bump(v.next_uid), ..v }
}

/// The session after logging one event at time `now`.
pub open spec fn logged(
    v: PipelineView,
    event_type: Seq<char>,
    detail: Option<Seq<char>>,
    now: u64,
) -> PipelineView {
    PipelineView {
        events: v.events.push(
            RaviEventView { id: uid_text(v.next_uid), ts: now, event_type, detail },
        ),
        next_uid: bump(v.next_uid),
        ..v
    }
}

/// Appends an entry to the event log, stamped with `now` (milliseconds).
pub fn log_event(pipeline: &mut Pipeline, event_type: &str, detail: Option<&str>, now: u64)
    ensures
        final(pipeline)@ == logged(
            old(pipeline)@,
            event_type@,
            match detail {
                Some(d) => Some(d@),
                None => None,
            },
            now,
        ),
{
    let id = uid(&mut pipeline.next_uid);
    let detail_owned: Option<String> = match detail {
        Some(d) => Some(owned(d)),
        None => None,
    };
    let ev = RaviEvent { id, ts: now, event_type: owned(event_type), detail: detail_owned };
    let ghost before = pipeline.events@;
    pipeline.events.push(ev);
    assert(events_view(pipeline.events@) == events_view(before).push(ev@));
}


// ---------------------------------------------------------------------------
// Chat transcript helpers
// ---------------------------------------------------------------------------

pub open spec fn text_or(o: Option<Seq<char>>, default: Seq<char>) -> Seq<char> {
    match o {
        Some(s) => s,
        None => default,
    }
}

/// Whether the transcript ends with an assistant reply still being written.
pub open spec fn has_open_reply(m: Seq<ChatMessageView>) -> bool {
    m.len() > 0 && m.last().role == "assistant"@ && !m.last().final_msg
}

/// The identifier a message takes: the one given, or a fresh one.
pub open spec fn id_or_fresh(v: PipelineView, given: Option<Seq<char>>) -> (Seq<char>, PipelineView) {
    match given {
        Some(id) => (id, v),
        None => (uid_text(v.next_uid), after_uid(v)),
    }
}

pub open spec fn with_message(v: PipelineView, m: ChatMessageView) -> PipelineView {
    PipelineView { messages: v.messages.push(m), ..v }
}

pub open spec fn with_last_message(v: PipelineView, m: ChatMessageView) -> PipelineView {
    PipelineView { messages: v.messages.update(v.messages.len() - 1, m), ..v }
}

fn take_id(pipeline: &mut Pipeline, given: &Option<String>) -> (r: String)
    ensures
        (r@, final(pipeline)@) == id_or_fresh(old(pipeline)@, opt_view(*given)),
{
    match given {
        Some(id) => id.clone(),
        None => uid(&mut pipeline.next_uid),
    }
}

fn open_reply(pipeline: &Pipeline) -> (r: bool)
    ensures
        r == has_open_reply(pipeline@.messages),
{
    let n = pipeline.messages.len();
    if n == 0 {
        return false;
    }
    let last = &pipeline.messages[n - 1];
    assert(pipeline@.messages.last() == last@);
    str_eq(last.role.as_str(), "assistant") && !last.final_msg
}

fn push_message(pipeline: &mut Pipeline, id: String, role: &str, text: String, final_msg: bool)
    ensures
        final(pipeline)@ == with_message(
            old(pipeline)@,
            ChatMessageView { id: id@, role: role@, text: text@, final_msg },
        ),
{
    let m = ChatMessage { id, role: owned(role), text, final_msg };
    let ghost before = pipeline.messages@;
    pipeline.messages.push(m);
    assert(messages_view(pipeline.messages@) == messages_view(before).push(m@));
}

fn replace_last_message(pipeline: &mut Pipeline, text: String, final_msg: bool)
    requires
        old(pipeline).messages@.len() > 0,
    ensures
        final(pipeline)@ == with_last_message(
            old(pipeline)@,
            ChatMessageView { text: text@, final_msg, ..old(pipeline)@.messages.last() },
        ),
{
    let ghost before = pipeline.messages@;
    let last = pipeline.messages.pop().unwrap();
    let m = ChatMessage { id: last.id, role: last.role, text, final_msg };
    pipeline.messages.push(m);
    assert(before.last() == last);
    assert(messages_view(pipeline.messages@) == messages_view(before).update(
        before.len() - 1,
        m@,
    ));
}

fn extend_last_message(pipeline: &mut Pipeline, more: &str)
    requires
        old(pipeline).messages@.len() > 0,
    ensures
        final(pipeline)@ == with_last_message(
            old(pipeline)@,
            ChatMessageView {
                text: old(pipeline)@.messages.last().text + more@,
                ..old(pipeline)@.messages.last()
            },
        ),
{
    let ghost before = pipeline.messages@;
    let mut last = pipeline.messages.pop().unwrap();
    assert(before.last() == last);
    last.text.append(more);
    let ghost lv = last@;
    pipeline.messages.push(last);
    assert(messages_view(pipeline.messages@) == messages_view(before).update(
        before.len() - 1,
        lv,
    ));
}


// ---------------------------------------------------------------------------
// RAVI events, one by one
// ---------------------------------------------------------------------------

/// `user-transcription`: show the partial text; a final one becomes a user
/// message and clears the partial text.
pub open spec fn user_transcription_step(
    v: PipelineView,
    id: Option<Seq<char>>,
    d: EventDataView,
    now: u64,
) -> PipelineView {
    let text = text_or(d.text, Seq::empty());
    let v1 = if d.is_final == Some(true) {
        let (mid, v0) = id_or_fresh(v, id);
        PipelineView {
            transcript: Seq::empty(),
            ..with_message(
                v0,
                ChatMessageView { id: mid, role: "user"@, text, final_msg: true },
            )
        }
    } else {
        PipelineView { transcript: text, ..v }
    };
    logged(v1, "user-transcription"@, Some(text), now)
}

/// `bot-llm-started`: the assistant is thinking; open an empty reply unless
/// one is already open.
pub open spec fn llm_started_step(v: PipelineView, now: u64) -> PipelineView {
    let v1 = PipelineView { activity: Activity::Processing, ..v };
    let v2 = if has_open_reply(v1.messages) {
        v1
    } else {
        with_message(
            after_uid(v1),
            ChatMessageView {
                id: uid_text(v1.next_uid),
                role: "assistant"@,
                text: Seq::empty(),
                final_msg: false,
            },
        )
    };
    logged(v2, "bot-llm-started"@, None, now)
}

/// `bot-llm-text`: the streamed text grows the live caption and the open
/// reply (opening one if needed).
pub open spec fn llm_text_step(v: PipelineView, d: EventDataView, now: u64) -> PipelineView {
    let text = text_or(d.text, Seq::empty());
    let v1 = PipelineView { bot_text: v.bot_text + text, ..v };
    let v2 = if has_open_reply(v1.messages) {
        with_last_message(
            v1,
            ChatMessageView { text: v1.messages.last().text + text, ..v1.messages.last() },
        )
    } else {
        with_message(
            after_uid(v1),
            ChatMessageView {
                id: uid_text(v1.next_uid),
                role: "assistant"@,
                text,
                final_msg: false,
            },
        )
    };
    logged(v2, "bot-llm-text"@, Some(text), now)
}

/// `bot-transcription`: the spoken reply is final; it replaces the open reply
/// or becomes a new one, and the live caption is cleared.
pub open spec fn bot_transcription_step(
    v: PipelineView,
    id: Option<Seq<char>>,
    d: EventDataView,
    now: u64,
) -> PipelineView {
    let text = text_or(d.text, Seq::empty());
    let (mid, v0) = id_or_fresh(v, id);
    let v1 = if has_open_reply(v0.messages) {
        with_last_message(
            v0,
            ChatMessageView { text, final_msg: true, ..v0.messages.last() },
        )
    } else {
        with_message(v0, ChatMessageView { id: mid, role: "assistant"@, text, final_msg: true })
    };
    logged(PipelineView { bot_text: Seq::empty(), ..v1 }, "bot-transcription"@, Some(text), now)
}

/// `error` and `error-response`: remember the error and log it under the
/// message's own type.
pub open spec fn error_step(
    v: PipelineView,
    kind: Seq<char>,
    d: EventDataView,
    now: u64,
) -> PipelineView {
    let err = text_or(d.error, "unknown"@);
    logged(PipelineView { last_error: Some(err), ..v }, kind, Some(err), now)
}

fn user_transcription(pipeline: &mut Pipeline, id: &Option<String>, d: &EventData, now: u64)
    ensures
        final(pipeline)@ == user_transcription_step(old(pipeline)@, opt_view(*id), d@, now),
{
    let text = match &d.text {
        Some(t) => t.clone(),
        None => String::new(),
    };
    pipeline.transcript = text.clone();
    let is_final = match d.is_final {
        Some(b) => b,
        None => false,
    };
    if is_final {
        let mid = take_id(pipeline, id);
        push_message(pipeline, mid, "user", text.clone(), true);
        pipeline.transcript = String::new();
    }
    log_event(pipeline, "user-transcription", Some(text.as_str()), now);
}

fn llm_started(pipeline: &mut Pipeline, now: u64)
    ensures
        final(pipeline)@ == llm_started_step(old(pipeline)@, now),
{
    pipeline.activity = Activity::Processing;
    if !open_reply(pipeline) {
        let id = uid(&mut pipeline.next_uid);
        push_message(pipeline, id, "assistant", String::new(), false);
    }
    log_event(pipeline, "bot-llm-started", None, now);
}

fn llm_text(pipeline: &mut Pipeline, d: &EventData, now: u64)
    ensures
        final(pipeline)@ == llm_text_step(old(pipeline)@, d@, now),
{
    let text = match &d.text {
        Some(t) => t.clone(),
        None => String::new(),
    };
    pipeline.bot_text.append(text.as_str());
    if open_reply(pipeline) {
        extend_last_message(pipeline, text.as_str());
    } else {
        let id = uid(&mut pipeline.next_uid);
        push_message(pipeline, id, "assistant", text.clone(), false);
    }
    log_event(pipeline, "bot-llm-text", Some(text.as_str()), now);
}

fn bot_transcription(pipeline: &mut Pipeline, id: &Option<String>, d: &EventData, now: u64)
    ensures
        final(pipeline)@ == bot_transcription_step(old(pipeline)@, opt_view(*id), d@, now),
{
    let text = match &d.text {
        Some(t) => t.clone(),
        None => String::new(),
    };
    let mid = take_id(pipeline, id);
    if open_reply(pipeline) {
        replace_last_message(pipeline, text.clone(), true);
    } else {
        push_message(pipeline, mid, "assistant", text.clone(), true);
    }
    pipeline.bot_text = String::new();
    log_event(pipeline, "bot-transcription", Some(text.as_str()), now);
}

fn record_error(pipeline: &mut Pipeline, kind: &str, d: &EventData, now: u64)
    ensures
        final(pipeline)@ == error_step(old(pipeline)@, kind@, d@, now),
{
    let err = match &d.error {
        Some(e) => e.clone(),
        None => owned("unknown"),
    };
    pipeline.last_error = Some(err.clone());
    log_event(pipeline, kind, Some(err.as_str()), now);
}


// ---------------------------------------------------------------------------
// Server messages and function calls
// ---------------------------------------------------------------------------

/// Whether `i` is the first position whose call has identifier `id`, or the
/// length when none has.
pub open spec fn first_call_at(calls: Seq<FunctionCallView>, id: Seq<char>, i: int) -> bool {
    &&& 0 <= i <= calls.len()
    &&& i < calls.len() ==> calls[i].id == id
    &&& forall|k: int| 0 <= k < i ==> calls[k].id != id
}

/// The first position whose call has identifier `id`, or the length when none has.
pub open spec fn first_call_with_id(calls: Seq<FunctionCallView>, id: Seq<char>) -> int {
    choose|i: int| first_call_at(calls, id, i)
}

proof fn lemma_first_call_unique(calls: Seq<FunctionCallView>, id: Seq<char>, i: int)
    requires
        first_call_at(calls, id, i),
    ensures
        first_call_with_id(calls, id) == i,
{
    let j = first_call_with_id(calls, id);
    assert(first_call_at(calls, id, j));
    if j < i {
        assert(calls[j].id != id);
    }
    if i < j {
        assert(calls[i].id != id);
    }
}

proof fn lemma_first_call_exists(calls: Seq<FunctionCallView>, id: Seq<char>, j: int)
    requires
        0 <= j <= calls.len(),
        forall|k: int| 0 <= k < j ==> calls[k].id != id,
    ensures
        first_call_at(calls, id, first_call_with_id(calls, id)),
    decreases calls.len() - j,
{
    if j == calls.len() || calls[j].id == id {
        assert(first_call_at(calls, id, j));
    } else {
        lemma_first_call_exists(calls, id, j + 1);
    }
}

pub open spec fn with_call(v: PipelineView, c: FunctionCallView) -> PipelineView {
    PipelineView { function_calls: v.function_calls.push(c), ..v }
}

/// `server-message`: keep the payload; the function-call messages also
/// track the call (a result completes the first call with the same
/// identifier, or records a completed one).
pub open spec fn server_message_step(v: PipelineView, d: EventDataView, now: u64) -> PipelineView {
    let kind = text_or(d.msg_type, "unknown"@);
    let v1 = PipelineView {
        server_messages: v.server_messages.push(ServerMessageView { msg_type: kind, data: d.raw }),
        ..v
    };
    let cid = text_or(d.id, Seq::empty());
    let name = text_or(d.function_name, Seq::empty());
    if kind == "function-call-start"@ || kind == "function-call-end"@ || kind
        == "function-call-raw-result"@ {
        logged(v1, kind, None, now)
    } else if kind == "function-call-in-progress"@ {
        logged(
            with_call(
                v1,
                FunctionCallView {
                    id: cid,
                    name,
                    state: "in-progress"@,
                    payload: Some(d.raw),
                },
            ),
            kind,
            None,
            now,
        )
    } else if kind == "function-call-result"@ {
        let i = first_call_with_id(v1.function_calls, cid);
        let v2 = if i < v1.function_calls.len() {
            PipelineView {
                function_calls: v1.function_calls.update(
                    i,
                    FunctionCallView { state: "completed"@, ..v1.function_calls[i] },
                ),
                ..v1
            }
        } else {
            with_call(
                v1,
                FunctionCallView { id: cid, name, state: "completed"@, payload: Some(d.raw) },
            )
        };
        logged(v2, kind, None, now)
    } else {
        v1
    }
}

fn find_call(pipeline: &Pipeline, id: &str) -> (r: usize)
    ensures
        first_call_at(pipeline@.function_calls, id@, r as int),
{
    let n = pipeline.function_calls.len();
    let mut i: usize = 0;
    while i < n
        invariant
            n == pipeline.function_calls@.len(),
            i <= n,
            forall|k: int| 0 <= k < i ==> (#[trigger] pipeline@.function_calls[k]).id != id@,
        decreases n - i,
    {
        if str_eq(pipeline.function_calls[i].id.as_str(), id) {
            return i;
        }
        i = i + 1;
    }
    i
}

fn push_call(pipeline: &mut Pipeline, c: FunctionCall)
    ensures
        final(pipeline)@ == with_call(old(pipeline)@, c@),
{
    let ghost before = pipeline.function_calls@;
    pipeline.function_calls.push(c);
    assert(calls_view(pipeline.function_calls@) == calls_view(before).push(c@));
}

fn complete_call(pipeline: &mut Pipeline, i: usize)
    requires
        i < old(pipeline).function_calls@.len(),
    ensures
        final(pipeline)@ == (PipelineView {
            function_calls: old(pipeline)@.function_calls.update(
                i as int,
                FunctionCallView { state: "completed"@, ..old(pipeline)@.function_calls[i as int] },
            ),
            ..old(pipeline)@
        }),
{
    let ghost before = pipeline.function_calls@;
    let old_call = pipeline.function_calls.remove(i);
    let c = FunctionCall {
        id: old_call.id,
        name: old_call.name,
        state: owned("completed"),
        payload: old_call.payload,
    };
    pipeline.function_calls.insert(i, c);
    assert(before[i as int] == old_call);
    assert(calls_view(pipeline.function_calls@) == calls_view(before).update(i as int, c@));
}

fn server_message(pipeline: &mut Pipeline, d: &EventData, now: u64)
    ensures
        final(pipeline)@ == server_message_step(old(pipeline)@, d@, now),
{
    let kind = match &d.msg_type {
        Some(t) => t.clone(),
        None => owned("unknown"),
    };
    let ghost before = pipeline.server_messages@;
    let sm = ServerMessage { msg_type: kind.clone(), data: d.raw.clone() };
    pipeline.server_messages.push(sm);
    assert(server_messages_view(pipeline.server_messages@) == server_messages_view(before).push(
        sm@,
    ));
    let cid = match &d.id {
        Some(t) => t.clone(),
        None => String::new(),
    };
    let name = match &d.function_name {
        Some(t) => t.clone(),
        None => String::new(),
    };
    let k = kind.as_str();
    if str_eq(k, "function-call-start") || str_eq(k, "function-call-end") || str_eq(
        k,
        "function-call-raw-result",
    ) {
        log_event(pipeline, k, None, now);
    } else if str_eq(k, "function-call-in-progress") {
        push_call(
            pipeline,
            FunctionCall {
                id: cid,
                name,
                state: owned("in-progress"),
                payload: Some(d.raw.clone()),
            },
        );
        log_event(pipeline, k, None, now);
    } else if str_eq(k, "function-call-result") {
        let i = find_call(pipeline, cid.as_str());
        proof {
            lemma_first_call_unique(pipeline@.function_calls, cid@, i as int);
        }
        if i < pipeline.function_calls.len() {
            complete_call(pipeline, i);
        } else {
            push_call(
                pipeline,
                FunctionCall {
                    id: cid,
                    name,
                    state: owned("completed"),
                    payload: Some(d.raw.clone()),
                },
            );
        }
        log_event(pipeline, k, None, now);
    }
}


// ---------------------------------------------------------------------------
// Dispatch
// ---------------------------------------------------------------------------

/// What one RAVI message does to the session.
pub open spec fn envelope_step(v: PipelineView, e: EnvelopeView, now: u64) -> PipelineView {
    let t = e.msg_type;
    if e.label != "ravi"@ {
        v
    } else if t == "bot-ready"@ || t == "bot-llm-stopped"@ {
        logged(v, t, None, now)
    } else if t == "user-started-speaking"@ || t == "user-stopped-speaking"@ {
        logged(v, t, Some("server"@), now)
    } else if t == "bot-llm-started"@ {
        llm_started_step(v, now)
    } else if t == "bot-started-speaking"@ {
        logged(
            PipelineView { activity: Activity::Speaking, is_bot_speaking: true, ..v },
            t,
            None,
            now,
        )
    } else if t == "bot-stopped-speaking"@ {
        logged(PipelineView { is_bot_speaking: false, ..v }, t, None, now)
    } else if t == "user-transcription"@ || t == "bot-llm-text"@ || t == "bot-transcription"@
        || t == "server-message"@ || t == "error"@ || t == "error-response"@ {
        match e.data {
            None => v,
            Some(d) => if t == "user-transcription"@ {
                user_transcription_step(v, e.id, d, now)
            } else if t == "bot-llm-text"@ {
                llm_text_step(v, d, now)
            } else if t == "bot-transcription"@ {
                bot_transcription_step(v, e.id, d, now)
            } else if t == "server-message"@ {
                server_message_step(v, d, now)
            } else {
                error_step(v, t, d, now)
            },
        }
    } else {
        logged(v, "unhandled: "@ + t, None, now)
    }
}

/// Applies one decoded RAVI message to the session.
pub fn apply_envelope(pipeline: &mut Pipeline, env: &RaviEnvelope, now: u64)
    ensures
        final(pipeline)@ == envelope_step(old(pipeline)@, env@, now),
{
    if !str_eq(env.label.as_str(), "ravi") {
        return;
    }
    let t = env.msg_type.as_str();
    if str_eq(t, "bot-ready") || str_eq(t, "bot-llm-stopped") {
        log_event(pipeline, t, None, now);
    } else if str_eq(t, "user-started-speaking") || str_eq(t, "user-stopped-speaking") {
        log_event(pipeline, t, Some("server"), now);
    } else if str_eq(t, "bot-llm-started") {
        llm_started(pipeline, now);
    } else if str_eq(t, "bot-started-speaking") {
        pipeline.activity = Activity::Speaking;
        pipeline.is_bot_speaking = true;
        log_event(pipeline, t, None, now);
    } else if str_eq(t, "bot-stopped-speaking") {
        pipeline.is_bot_speaking = false;
        log_event(pipeline, t, None, now);
    } else if str_eq(t, "user-transcription") || str_eq(t, "bot-llm-text") || str_eq(
        t,
        "bot-transcription",
    ) || str_eq(t, "server-message") || str_eq(t, "error") || str_eq(t, "error-response") {
        match &env.data {
            None => {},
            Some(d) => {
                if str_eq(t, "user-transcription") {
                    user_transcription(pipeline, &env.id, d, now);
                } else if str_eq(t, "bot-llm-text") {
                    llm_text(pipeline, d, now);
                } else if str_eq(t, "bot-transcription") {
                    bot_transcription(pipeline, &env.id, d, now);
                } else if str_eq(t, "server-message") {
                    server_message(pipeline, d, now);
                } else {
                    record_error(pipeline, t, d, now);
                }
            },
        }
    } else {
        let mut kind = owned("unhandled: ");
        kind.append(t);
        log_event(pipeline, kind.as_str(), None, now);
    }
}

/// What a bare server interruption does: the bot stops, the user is taken
/// to be talking, and the interruption is counted and logged only when the
/// bot was speaking.
pub open spec fn interruption_step(v: PipelineView, now: u64) -> PipelineView {
    let v1 = PipelineView {
        is_bot_speaking: false,
        user_speaking: true,
        activity: Activity::Listening,
        bot_text: Seq::empty(),
        ..v
    };
    if v.is_bot_speaking {
        logged(
            PipelineView { interrupt_count: (v.interrupt_count + 1) as u32, ..v1 },
            "interrupt"@,
            Some("server"@),
            now,
        )
    } else {
        v1
    }
}

/// Applies a bare server interruption to the session.
pub fn apply_interruption(pipeline: &mut Pipeline, now: u64)
    requires
        old(pipeline).is_bot_speaking ==> old(pipeline).interrupt_count < u32::MAX,
    ensures
        final(pipeline)@ == interruption_step(old(pipeline)@, now),
{
    let was_bot_speaking = pipeline.is_bot_speaking;
    pipeline.is_bot_speaking = false;
    pipeline.user_speaking = true;
    pipeline.activity = Activity::Listening;
    pipeline.bot_text = String::new();
    if was_bot_speaking {
        pipeline.interrupt_count = pipeline.interrupt_count + 1;
        log_event(pipeline, "interrupt", Some("server"), now);
    }
}

// ---------------------------------------------------------------------------
// Reading the text frames the server sends
// ---------------------------------------------------------------------------

/// Whether a frame is a bare interruption: its `"type"` is `"interruption"`
/// and it carries no `"label"`.
pub open spec fn is_bare_interruption(type_tag: Option<Seq<char>>, has_label: bool) -> bool {
    type_tag == Some("interruption"@) && !has_label
}

/// Whether the text frame, as `serde_json` reads it, is a bare interruption.
pub open spec fn frame_is_bare_interruption(text: Seq<char>) -> bool {
    is_bare_interruption(json_str_member_of(text, "type"@), json_has_key_of(text, "label"@))
}

/// Whether the text frame is a bare server interruption.
pub fn bare_interruption(text: &str) -> (r: bool)
    ensures
        r == frame_is_bare_interruption(text@),
{
    match json_str_member(text, "type") {
        Some(t) => str_eq(t.as_str(), "interruption") && !json_has_key(text, "label"),
        None => false,
    }
}

/// What the caller must do to playback after a text frame.
#[derive(Clone, Copy, PartialEq, Eq, Structural, Debug)]
pub enum Playback {
    /// Leave playback alone.
    Keep,
    /// Drop queued bot audio and zero the energy meter.
    Silence,
}

/// Dispatches one text frame from the server. `envelope` is the frame
/// decoded as a RAVI message, when it decodes as one. A bare interruption
/// wins over the envelope.
pub open spec fn ravi_event_step(
    v: PipelineView,
    interruption: bool,
    envelope: Option<EnvelopeView>,
    now: u64,
) -> PipelineView {
    if interruption {
        interruption_step(v, now)
    } else {
        match envelope {
            Some(e) => envelope_step(v, e, now),
            None => v,
        }
    }
}

/// Handles one text frame from the server: a bare interruption silences the
/// bot; otherwise the decoded RAVI message, if any, updates the session.
pub fn handle_ravi_event(
    text: &str,
    envelope: &Option<RaviEnvelope>,
    pipeline: &mut Pipeline,
    now: u64,
) -> (r: Playback)
    requires
        frame_is_bare_interruption(text@) && old(pipeline).is_bot_speaking
            ==> old(pipeline).interrupt_count < u32::MAX,
    ensures
        final(pipeline)@ == ravi_event_step(
            old(pipeline)@,
            frame_is_bare_interruption(text@),
            match envelope {
                Some(e) => Some(e@),
                None => None,
            },
            now,
        ),
        (r == Playback::Silence) == frame_is_bare_interruption(text@),
{
    if bare_interruption(text) {
        apply_interruption(pipeline, now);
        Playback::Silence
    } else {
        match envelope {
            Some(e) => apply_envelope(pipeline, e, now),
            None => {},
        }
        Playback::Keep
    }
}


// ---------------------------------------------------------------------------
// The session's life cycle
// ---------------------------------------------------------------------------

/// The raw text frames kept for the monitor panel.
pub open spec fn texts_capacity() -> int {
    100
}

/// The kept raw frames after receiving `text`: the oldest one is dropped
/// once the panel holds its capacity.
pub open spec fn texts_after(kept: Seq<Seq<char>>, text: Seq<char>) -> Seq<Seq<char>> {
    if kept.len() >= texts_capacity() {
        kept.drop_first().push(text)
    } else {
        kept.push(text)
    }
}

/// What asking for a connection does: nothing while the socket is connecting
/// or open, else the connect trigger moves on.
pub open spec fn connect_step(v: PipelineView, socket_connecting: bool, socket_closed: bool) -> PipelineView {
    if !socket_connecting && socket_closed {
        PipelineView { connect_trigger: (v.connect_trigger + 1) as u32, ..v }
    } else {
        v
    }
}

impl Pipeline {
    /// The session before anything connected. Identifiers are drawn from
    /// one counter shared by every session of the process; the session goes
    /// on from `first_uid`, the counter's current value.
    pub fn new(first_uid: u64) -> (r: Pipeline)
        ensures
            r@ == (PipelineView {
                status: ConnectionStatus::Idle,
                activity: Activity::Idle,
                messages: Seq::empty(),
                transcript: Seq::empty(),
                turn_count: 0,
                interrupt_count: 0,
                buffered_ms: 0,
                last_error: None,
                function_calls: Seq::empty(),
                events: Seq::empty(),
                server_messages: Seq::empty(),
                bot_text: Seq::empty(),
                is_bot_speaking: false,
                pipeline_texts: Seq::empty(),
                user_speaking: false,
                connect_trigger: 0,
                tasks_started: false,
                next_uid: first_uid,
            }),
    {
        let r = Pipeline {
            status: ConnectionStatus::Idle,
            activity: Activity::Idle,
            messages: Vec::new(),
            transcript: String::new(),
            turn_count: 0,
            interrupt_count: 0,
            buffered_ms: 0,
            last_error: None,
            function_calls: Vec::new(),
            events: Vec::new(),
            server_messages: Vec::new(),
            bot_text: String::new(),
            is_bot_speaking: false,
            pipeline_texts: Vec::new(),
            user_speaking: false,
            connect_trigger: 0,
            tasks_started: false,
            next_uid: first_uid,
        };
        assert(messages_view(r.messages@) == Seq::<ChatMessageView>::empty());
        assert(calls_view(r.function_calls@) == Seq::<FunctionCallView>::empty());
        assert(events_view(r.events@) == Seq::<RaviEventView>::empty());
        assert(server_messages_view(r.server_messages@) == Seq::<ServerMessageView>::empty());
        assert(texts_view(r.pipeline_texts@) == Seq::<Seq<char>>::empty());
        r
    }

    /// Asks for a connection. Nothing happens while the socket is connecting
    /// or open; otherwise the connect trigger moves on. Returns whether it did.
    pub fn connect(&mut self, socket_connecting: bool, socket_closed: bool) -> (r: bool)
        requires
            !socket_connecting && socket_closed ==> old(self).connect_trigger < u32::MAX,
        ensures
            r == (!socket_connecting && socket_closed),
            final(self)@ == connect_step(old(self)@, socket_connecting, socket_closed),
    {
        if socket_connecting || !socket_closed {
            return false;
        }
        self.connect_trigger = self.connect_trigger + 1;
        true
    }

    /// A typed message: nothing to send when it is blank; otherwise its
    /// trimmed text under a fresh identifier.
    pub fn send_text(&mut self, text: &str) -> (r: Option<TextRequest>)
        ensures
            r is None <==> is_blank(text@),
            r is None ==> final(self)@ == old(self)@,
            r matches Some(req) ==> {
                &&& req.id@ == uid_text(old(self).next_uid)
                &&& req.content@ == trimmed(text@)
                &&& final(self)@ == after_uid(old(self)@)
            },
    {
        let trimmed_text = trim(text);
        if trimmed_text.unicode_len() == 0 {
            return None;
        }
        let id = uid(&mut self.next_uid);
        Some(TextRequest { id, content: trimmed_text })
    }
}

/// A typed user message to send to the assistant.
pub struct TextRequest {
    pub id: String,
    pub content: String,
}

/// Handles a text frame from the server: it is kept for the monitor panel,
/// then dispatched as by `handle_ravi_event`.
pub fn on_server_text(
    pipeline: &mut Pipeline,
    text: String,
    envelope: &Option<RaviEnvelope>,
    now: u64,
) -> (r: Playback)
    requires
        frame_is_bare_interruption(text@) && old(pipeline).is_bot_speaking
            ==> old(pipeline).interrupt_count < u32::MAX,
    ensures
        final(pipeline)@ == ravi_event_step(
            PipelineView {
                pipeline_texts: texts_after(old(pipeline)@.pipeline_texts, text@),
                ..old(pipeline)@
            },
            frame_is_bare_interruption(text@),
            match envelope {
                Some(e) => Some(e@),
                None => None,
            },
            now,
        ),
        (r == Playback::Silence) == frame_is_bare_interruption(text@),
{
    let ghost before = pipeline.pipeline_texts@;
    if pipeline.pipeline_texts.len() >= 100 {
        pipeline.pipeline_texts.remove(0);
        assert(texts_view(pipeline.pipeline_texts@) == texts_view(before).drop_first());
    }
    let ghost mid = pipeline.pipeline_texts@;
    let ghost tv = text@;
    let copy = text.clone();
    pipeline.pipeline_texts.push(copy);
    assert(texts_view(pipeline.pipeline_texts@) == texts_view(mid).push(tv));
    handle_ravi_event(text.as_str(), envelope, pipeline, now)
}

/// Whether counting the frame would overflow the interruption count: a bare
/// interruption while the bot speaks with the count at its maximum.
pub open spec fn interruption_overflows(v: PipelineView, text: Seq<char>) -> bool {
    frame_is_bare_interruption(text) && v.is_bot_speaking && v.interrupt_count == u32::MAX
}

/// Handles a text frame from the server as `on_server_text` does, except for
/// a bare interruption that would overflow the interruption count: then the
/// session is left as it was and nothing comes back.
pub fn receive_text(
    pipeline: &mut Pipeline,
    text: String,
    envelope: &Option<RaviEnvelope>,
    now: u64,
) -> (r: Option<Playback>)
    ensures
        r is None <==> interruption_overflows(old(pipeline)@, text@),
        r is None ==> final(pipeline)@ == old(pipeline)@,
        r matches Some(p) ==> {
            &&& final(pipeline)@ == ravi_event_step(
                PipelineView {
                    pipeline_texts: texts_after(old(pipeline)@.pipeline_texts, text@),
                    ..old(pipeline)@
                },
                frame_is_bare_interruption(text@),
                match envelope {
                    Some(e) => Some(e@),
                    None => None,
                },
                now,
            )
            &&& (p == Playback::Silence) == frame_is_bare_interruption(text@)
        },
{
    if pipeline.is_bot_speaking && pipeline.interrupt_count == u32::MAX && bare_interruption(
        text.as_str(),
    ) {
        return None;
    }
    Some(on_server_text(pipeline, text, envelope, now))
}

/// Where a binary audio frame from the server goes.
#[derive(Clone, Copy, PartialEq, Eq, Structural, Debug)]
pub enum AudioRoute {
    /// The user is talking over the bot: drop queued bot audio and this frame.
    Drop,
    /// Queue the frame for playback.
    Play,
}

/// Handles a binary audio frame from the server. While the user talks the
/// bot is cut off; otherwise the frame plays, and the first frame of a bot
/// turn counts a new turn.
pub fn on_server_audio(pipeline: &mut Pipeline) -> (r: AudioRoute)
    requires
        !old(pipeline).user_speaking && !old(pipeline).is_bot_speaking
            ==> old(pipeline).turn_count < u32::MAX,
    ensures
        old(pipeline).user_speaking ==> r == AudioRoute::Drop && final(pipeline)@ == (
        PipelineView { is_bot_speaking: false, ..old(pipeline)@ }),
        !old(pipeline).user_speaking ==> r == AudioRoute::Play && final(pipeline)@ == (
        PipelineView {
            is_bot_speaking: true,
            turn_count: if old(pipeline).is_bot_speaking {
                old(pipeline).turn_count
            } else {
                (old(pipeline).turn_count + 1) as u32
            },
            ..old(pipeline)@
        }),
{
    if pipeline.user_speaking {
        pipeline.is_bot_speaking = false;
        AudioRoute::Drop
    } else {
        if !pipeline.is_bot_speaking {
            pipeline.is_bot_speaking = true;
            pipeline.turn_count = pipeline.turn_count + 1;
        }
        AudioRoute::Play
    }
}

/// The server stream ended (closed or failed): the audio tasks are over and
/// nobody is speaking.
pub fn on_stream_end(pipeline: &mut Pipeline)
    ensures
        final(pipeline)@ == (PipelineView {
            tasks_started: false,
            activity: Activity::Idle,
            is_bot_speaking: false,
            user_speaking: false,
            ..old(pipeline)@
        }),
{
    pipeline.tasks_started = false;
    pipeline.activity = Activity::Idle;
    pipeline.is_bot_speaking = false;
    pipeline.user_speaking = false;
}

/// The state reported by the microphone voice detector for a window.
#[derive(Clone, Copy, PartialEq, Eq, Structural, Debug)]
pub enum VoiceActivity {
    Speaking,
    Quiet,
    /// Starting or stopping: still undecided.
    Transition,
}

/// A voice-detector signal to forward to the server.
#[derive(Clone, Copy, PartialEq, Eq, Structural, Debug)]
pub enum VadSignal {
    Start,
    Stop,
}

/// What the caller does after a voice-detector window.
pub struct VadReaction {
    /// Drop queued bot audio (the window was loud).
    pub clear_speaker: bool,
    /// Signal to send to the server, if the user started or stopped talking.
    pub signal: Option<VadSignal>,
}

/// What a voice-detector window does to the session.
pub open spec fn vad_step(v: PipelineView, activity: VoiceActivity, now: u64) -> PipelineView {
    match activity {
        VoiceActivity::Speaking => if !v.user_speaking {
            logged(
                PipelineView {
                    user_speaking: true,
                    is_bot_speaking: false,
                    activity: Activity::Listening,
                    bot_text: Seq::empty(),
                    ..v
                },
                "user-started-speaking"@,
                Some("client-vad"@),
                now,
            )
        } else {
            v
        },
        VoiceActivity::Quiet => if v.user_speaking {
            logged(
                PipelineView { user_speaking: false, ..v },
                "user-stopped-speaking"@,
                Some("client-vad"@),
                now,
            )
        } else {
            v
        },
        VoiceActivity::Transition => v,
    }
}

/// Handles one microphone voice-detector window. `loud` tells whether its
/// confidence was above one half.
pub fn on_vad_result(pipeline: &mut Pipeline, activity: VoiceActivity, loud: bool, now: u64) -> (r:
    VadReaction)
    ensures
        final(pipeline)@ == vad_step(old(pipeline)@, activity, now),
        r.clear_speaker == loud,
        r.signal == (match activity {
            VoiceActivity::Speaking => if !old(pipeline).user_speaking {
                Some(VadSignal::Start)
            } else {
                None
            },
            VoiceActivity::Quiet => if old(pipeline).user_speaking {
                Some(VadSignal::Stop)
            } else {
                None
            },
            VoiceActivity::Transition => None::<VadSignal>,
        }),
{
    let mut signal: Option<VadSignal> = None;
    match activity {
        VoiceActivity::Speaking => {
            if !pipeline.user_speaking {
                pipeline.user_speaking = true;
                pipeline.is_bot_speaking = false;
                pipeline.activity = Activity::Listening;
                pipeline.bot_text = String::new();
                signal = Some(VadSignal::Start);
                log_event(pipeline, "user-started-speaking", Some("client-vad"), now);
            }
        },
        VoiceActivity::Quiet => {
            if pipeline.user_speaking {
                pipeline.user_speaking = false;
                signal = Some(VadSignal::Stop);
                log_event(pipeline, "user-stopped-speaking", Some("client-vad"), now);
            }
        },
        VoiceActivity::Transition => {},
    }
    VadReaction { clear_speaker: loud, signal }
}

/// The state of the voice socket, as reported by the socket hook.
#[derive(Clone, Copy, PartialEq, Eq, Structural, Debug)]
pub enum SocketState {
    Connecting,
    Open,
    Closing,
    Closed,
    FailedToConnect,
}

/// What the caller does after a socket state change.
pub struct SocketReaction {
    /// Send the `client-ready` greeting under this identifier.
    pub ready_id: Option<String>,
    /// Start the audio tasks (speaker, microphone, receive loop).
    pub start_audio: bool,
    /// Stop the microphone and close the speaker.
    pub stop_audio: bool,
    /// Zero the energy meter.
    pub reset_energy: bool,
}

/// What a socket state change does to the session.
pub open spec fn socket_step(v: PipelineView, state: SocketState) -> PipelineView {
    match state {
        SocketState::Connecting => PipelineView { status: ConnectionStatus::Connecting, ..v },
        SocketState::Open => PipelineView {
            status: ConnectionStatus::Connected,
            tasks_started: true,
            next_uid: bump(v.next_uid),
            ..v
        },
        SocketState::Closing => v,
        SocketState::Closed => PipelineView {
            status: ConnectionStatus::Idle,
            activity: Activity::Idle,
            is_bot_speaking: false,
            user_speaking: false,
            tasks_started: false,
            connect_trigger: 0,
            ..v
        },
        SocketState::FailedToConnect => PipelineView {
            status: if v.tasks_started {
                ConnectionStatus::Error
            } else {
                ConnectionStatus::Idle
            },
            tasks_started: false,
            activity: Activity::Idle,
            is_bot_speaking: false,
            user_speaking: false,
            ..v
        },
    }
}

/// Reacts to a socket state change.
pub fn on_socket_state(pipeline: &mut Pipeline, state: SocketState) -> (r: SocketReaction)
    ensures
        final(pipeline)@ == socket_step(old(pipeline)@, state),
        match r.ready_id {
            Some(id) => state == SocketState::Open && id@ == uid_text(old(pipeline).next_uid),
            None => state != SocketState::Open,
        },
        r.start_audio == (state == SocketState::Open && !old(pipeline).tasks_started),
        r.stop_audio == (state == SocketState::Closed || (state == SocketState::FailedToConnect
            && old(pipeline).tasks_started)),
        r.reset_energy == (state == SocketState::Closed || state == SocketState::FailedToConnect),
{
    match state {
        SocketState::Connecting => {
            pipeline.status = ConnectionStatus::Connecting;
            SocketReaction { ready_id: None, start_audio: false, stop_audio: false, reset_energy: false }
        },
        SocketState::Open => {
            pipeline.status = ConnectionStatus::Connected;
            let id = uid(&mut pipeline.next_uid);
            let start = !pipeline.tasks_started;
            pipeline.tasks_started = true;
            SocketReaction {
                ready_id: Some(id),
                start_audio: start,
                stop_audio: false,
                reset_energy: false,
            }
        },
        SocketState::Closing => {
            SocketReaction { ready_id: None, start_audio: false, stop_audio: false, reset_energy: false }
        },
        SocketState::Closed => {
            pipeline.status = ConnectionStatus::Idle;
            pipeline.activity = Activity::Idle;
            pipeline.is_bot_speaking = false;
            pipeline.user_speaking = false;
            pipeline.tasks_started = false;
            pipeline.connect_trigger = 0;
            SocketReaction { ready_id: None, start_audio: false, stop_audio: true, reset_energy: true }
        },
        SocketState::FailedToConnect => {
            let was_running = pipeline.tasks_started;
            pipeline.status = if was_running {
                ConnectionStatus::Error
            } else {
                ConnectionStatus::Idle
            };
            pipeline.tasks_started = false;
            pipeline.activity = Activity::Idle;
            pipeline.is_bot_speaking = false;
            pipeline.user_speaking = false;
            SocketReaction {
                ready_id: None,
                start_audio: false,
                stop_audio: was_running,
                reset_energy: true,
            }
        },
    }
}


// ---------------------------------------------------------------------------
// What the voice page shows
// ---------------------------------------------------------------------------

/// The text of the newest assistant message, or nothing.
pub open spec fn last_assistant_text(m: Seq<ChatMessageView>) -> Seq<char>
    decreases m.len(),
{
    if m.len() == 0 {
        Seq::empty()
    } else if m.last().role == "assistant"@ {
        m.last().text
    } else {
        last_assistant_text(m.drop_last())
    }
}

/// The caption under the orb: the live bot text while it streams, else the
/// newest assistant message.
pub open spec fn caption_of(v: PipelineView) -> Seq<char> {
    if v.bot_text.len() > 0 {
        v.bot_text
    } else {
        last_assistant_text(v.messages)
    }
}

/// The caption under the orb.
pub fn transcript_text(pipeline: &Pipeline) -> (r: String)
    ensures
        r@ == caption_of(pipeline@),
{
    if pipeline.bot_text.unicode_len() > 0 {
        return pipeline.bot_text.clone();
    }
    let ghost m = pipeline@.messages;
    let mut i = pipeline.messages.len();
    assert(m.subrange(0, i as int) == m);
    while i > 0
        invariant
            pipeline.bot_text@.len() == 0,
            i <= m.len(),
            m == pipeline@.messages,
            last_assistant_text(m) == last_assistant_text(m.subrange(0, i as int)),
        decreases i,
    {
        let msg = &pipeline.messages[i - 1];
        assert(m[i - 1] == msg@);
        let ghost pre = m.subrange(0, i as int);
        assert(pre.last() == msg@);
        assert(pre.drop_last() == m.subrange(0, i - 1));
        if str_eq(msg.role.as_str(), "assistant") {
            return msg.text.clone();
        }
        i = i - 1;
    }
    String::new()
}

/// The position of the newest call still in progress.
pub open spec fn last_in_progress(calls: Seq<FunctionCallView>) -> Option<int>
    decreases calls.len(),
{
    if calls.len() == 0 {
        None
    } else if calls.last().state == "in-progress"@ {
        Some(calls.len() - 1)
    } else {
        last_in_progress(calls.drop_last())
    }
}

/// The call shown in the activity chip: the newest one still in progress.
pub fn active_function_call(pipeline: &Pipeline) -> (r: Option<usize>)
    ensures
        match r {
            Some(i) => last_in_progress(pipeline@.function_calls) == Some(i as int),
            None => last_in_progress(pipeline@.function_calls) is None,
        },
{
    let ghost c = pipeline@.function_calls;
    let mut i = pipeline.function_calls.len();
    assert(c.subrange(0, i as int) == c);
    while i > 0
        invariant
            i <= c.len(),
            c == pipeline@.function_calls,
            last_in_progress(c) == last_in_progress(c.subrange(0, i as int)),
        decreases i,
    {
        let call = &pipeline.function_calls[i - 1];
        assert(c[i - 1] == call@);
        let ghost pre = c.subrange(0, i as int);
        assert(pre.last() == call@);
        assert(pre.drop_last() == c.subrange(0, i - 1));
        if str_eq(call.state.as_str(), "in-progress") {
            return Some(i - 1);
        }
        i = i - 1;
    }
    None
}

/// The log entries that concern who is talking.
pub open spec fn is_vad_event(t: Seq<char>) -> bool {
    t == "user-started-speaking"@ || t == "user-stopped-speaking"@ || t == "interrupt"@
}

pub open spec fn event_shown(e: RaviEventView, vad_only: bool) -> bool {
    !vad_only || is_vad_event(e.event_type)
}

/// Positions in `i..` of the entries that pass the filter, newest first.
pub open spec fn shown_from(ev: Seq<RaviEventView>, vad_only: bool, i: int) -> Seq<int>
    decreases ev.len() - i,
{
    if i < 0 || i >= ev.len() {
        Seq::empty()
    } else {
        let r = shown_from(ev, vad_only, i + 1);
        if event_shown(ev[i], vad_only) {
            r.push(i)
        } else {
            r
        }
    }
}

/// The number of log entries the panel lists.
pub open spec fn log_window() -> int {
    50
}

pub open spec fn first_n(s: Seq<int>, n: int) -> Seq<int> {
    if s.len() > n {
        s.take(n)
    } else {
        s
    }
}

/// The entries the event log lists: newest first, only those about who is
/// talking when `vad_only`, at most `log_window()` of them.
pub open spec fn visible_events_of(ev: Seq<RaviEventView>, vad_only: bool) -> Seq<int> {
    first_n(shown_from(ev, vad_only, 0), log_window())
}

proof fn lemma_shown_prefix(ev: Seq<RaviEventView>, vad_only: bool, i: int, j: int)
    requires
        0 <= i <= j <= ev.len(),
    ensures
        shown_from(ev, vad_only, j).len() <= shown_from(ev, vad_only, i).len(),
        shown_from(ev, vad_only, j) == shown_from(ev, vad_only, i).subrange(
            0,
            shown_from(ev, vad_only, j).len() as int,
        ),
    decreases j - i,
{
    if i < j {
        lemma_shown_prefix(ev, vad_only, i + 1, j);
        let a = shown_from(ev, vad_only, i + 1);
        let b = shown_from(ev, vad_only, j);
        assert(b == a.subrange(0, b.len() as int));
        if i < ev.len() && event_shown(ev[i], vad_only) {
            assert(a.push(i).subrange(0, b.len() as int) == a.subrange(0, b.len() as int));
        }
    } else {
        let b = shown_from(ev, vad_only, j);
        assert(b == b.subrange(0, b.len() as int));
    }
}

/// The positions of the event-log entries the monitor panel lists.
pub fn visible_events(pipeline: &Pipeline, vad_only: bool) -> (r: Vec<usize>)
    ensures
        r@.map_values(|x: usize| x as int) == visible_events_of(pipeline@.events, vad_only),
{
    let ghost ev = pipeline@.events;
    let mut r: Vec<usize> = Vec::new();
    let mut i = pipeline.events.len();
    assert(shown_from(ev, vad_only, i as int) == Seq::<int>::empty());
    while i > 0 && r.len() < 50
        invariant
            i <= ev.len(),
            ev == pipeline@.events,
            r@.len() <= 50,
            r@.map_values(|x: usize| x as int) == shown_from(ev, vad_only, i as int),
        decreases i,
    {
        let e = &pipeline.events[i - 1];
        assert(ev[i - 1] == e@);
        let shown = !vad_only || str_eq(e.event_type.as_str(), "user-started-speaking") || str_eq(
            e.event_type.as_str(),
            "user-stopped-speaking",
        ) || str_eq(e.event_type.as_str(), "interrupt");
        let ghost before = r@;
        if shown {
            r.push(i - 1);
            assert(r@.map_values(|x: usize| x as int) == before.map_values(|x: usize| x as int).push(
                i - 1,
            ));
        }
        i = i - 1;
    }
    proof {
        lemma_shown_prefix(ev, vad_only, 0, i as int);
        let all = shown_from(ev, vad_only, 0);
        let part = shown_from(ev, vad_only, i as int);
        if i > 0 {
            assert(part.len() == 50);
            assert(all.take(50) == part);
        }
    }
    r
}


// ---------------------------------------------------------------------------
// Laws
// ---------------------------------------------------------------------------

/// The event log after `w` extends the log before it by at most one entry.
pub open spec fn log_extends(v: PipelineView, w: PipelineView) -> bool {
    ||| w.events == v.events
    ||| (w.events.len() == v.events.len() + 1 && w.events.drop_last() == v.events)
}

/// The transcript after `w` keeps every message of `v`, changing at most its
/// last one and only while that one is not final.
pub open spec fn transcript_extends(v: PipelineView, w: PipelineView) -> bool {
    &&& w.messages.len() >= v.messages.len()
    &&& forall|k: int|
        0 <= k < v.messages.len() && (k < v.messages.len() - 1 || v.messages[k].final_msg)
            ==> #[trigger] w.messages[k] == v.messages[k]
}

/// The session after `w` has at most one chat message more than `v`, keeps
/// every server message of `v` at its place, and has no fewer function calls.
pub open spec fn bounded_growth(v: PipelineView, w: PipelineView) -> bool {
    &&& v.messages.len() <= w.messages.len() <= v.messages.len() + 1
    &&& v.server_messages.len() <= w.server_messages.len()
    &&& w.server_messages.subrange(0, v.server_messages.len() as int) == v.server_messages
    &&& v.function_calls.len() <= w.function_calls.len()
}

proof fn lemma_envelope_step_shape(v: PipelineView, e: EnvelopeView, now: u64)
    ensures
        log_extends(v, envelope_step(v, e, now)),
        transcript_extends(v, envelope_step(v, e, now)),
        envelope_step(v, e, now).interrupt_count == v.interrupt_count,
        envelope_step(v, e, now).pipeline_texts == v.pipeline_texts,
        bounded_growth(v, envelope_step(v, e, now)),
{
    let w = envelope_step(v, e, now);
    assert forall|s: Seq<RaviEventView>, x: RaviEventView| #[trigger] s.push(x).drop_last() == s by {
        assert(s.push(x).drop_last() =~= s);
    }
    assert forall|s: Seq<ServerMessageView>, x: ServerMessageView|
        #[trigger] s.push(x).subrange(0, s.len() as int) == s by {
        assert(s.push(x).subrange(0, s.len() as int) =~= s);
    }
    assert forall|s: Seq<ServerMessageView>| #[trigger] s.subrange(0, s.len() as int) == s by {
        assert(s.subrange(0, s.len() as int) =~= s);
    }
    assert forall|c: Seq<FunctionCallView>, id: Seq<char>|
        0 <= #[trigger] first_call_with_id(c, id) <= c.len() by {
        lemma_first_call_exists(c, id, 0);
    }
    assert(log_extends(v, w));
    assert(transcript_extends(v, w));
    assert(bounded_growth(v, w));
}

/// Law: handling a server text frame appends at most one entry to the event
/// log and never rewrites earlier entries.
pub proof fn law_event_log_append_only(
    v: PipelineView,
    interruption: bool,
    envelope: Option<EnvelopeView>,
    now: u64,
)
    ensures
        log_extends(v, ravi_event_step(v, interruption, envelope, now)),
{
    assert forall|s: Seq<RaviEventView>, x: RaviEventView| #[trigger] s.push(x).drop_last() == s by {
        assert(s.push(x).drop_last() =~= s);
    }
    if !interruption {
        if let Some(e) = envelope {
            lemma_envelope_step_shape(v, e, now);
        }
    }
}

/// Law: handling a server text frame adds at most one chat message, only
/// appends to the server messages and never removes a function call.
pub proof fn law_frame_bounded_growth(
    v: PipelineView,
    interruption: bool,
    envelope: Option<EnvelopeView>,
    now: u64,
)
    ensures
        bounded_growth(v, ravi_event_step(v, interruption, envelope, now)),
{
    assert(v.server_messages.subrange(0, v.server_messages.len() as int) =~= v.server_messages);
    if !interruption {
        if let Some(e) = envelope {
            lemma_envelope_step_shape(v, e, now);
        }
    }
}

/// Law: handling a server text frame only appends to the chat transcript,
/// except that the reply still being written may change; a final message
/// never changes again.
pub proof fn law_final_messages_stay(
    v: PipelineView,
    interruption: bool,
    envelope: Option<EnvelopeView>,
    now: u64,
)
    ensures
        transcript_extends(v, ravi_event_step(v, interruption, envelope, now)),
{
    if !interruption {
        if let Some(e) = envelope {
            lemma_envelope_step_shape(v, e, now);
        }
    }
}

/// Law: an interruption is counted exactly when a bare interruption arrives
/// while the bot is speaking; no other frame changes the count.
pub proof fn law_interruptions_counted_while_speaking(
    v: PipelineView,
    interruption: bool,
    envelope: Option<EnvelopeView>,
    now: u64,
)
    requires
        interruption && v.is_bot_speaking ==> v.interrupt_count < u32::MAX,
    ensures
        ravi_event_step(v, interruption, envelope, now).interrupt_count == v.interrupt_count + (
        if interruption && v.is_bot_speaking {
            1int
        } else {
            0int
        }),
{
    if !interruption {
        if let Some(e) = envelope {
            lemma_envelope_step_shape(v, e, now);
        }
    }
}

/// Law: the monitor panel keeps the received frames with the newest last,
/// dropping the oldest once it holds its capacity, whatever the frame does to
/// the rest of the session; so from an empty panel it never holds more than
/// its capacity.
pub proof fn law_monitor_keeps_latest(
    v: PipelineView,
    text: Seq<char>,
    interruption: bool,
    envelope: Option<EnvelopeView>,
    now: u64,
)
    ensures
        ({
            let w = ravi_event_step(
                PipelineView { pipeline_texts: texts_after(v.pipeline_texts, text), ..v },
                interruption,
                envelope,
                now,
            );
            &&& w.pipeline_texts == texts_after(v.pipeline_texts, text)
            &&& w.pipeline_texts.last() == text
            &&& v.pipeline_texts.len() <= texts_capacity() ==> w.pipeline_texts.len()
                <= texts_capacity()
        }),
{
    let v1 = PipelineView { pipeline_texts: texts_after(v.pipeline_texts, text), ..v };
    if !interruption {
        if let Some(e) = envelope {
            lemma_envelope_step_shape(v1, e, now);
        }
    }
}

/// Law: identifiers drawn from different counter values differ.
pub proof fn law_uids_distinct(a: u64, b: u64)
    requires
        a != b,
    ensures
        uid_text(a) != uid_text(b),
{
    crate::text::law_padded_hex_injective(a, b, 8);
}

/// Law: the identifier drawn from a counter value below `2^32` is exactly
/// eight lower-case hexadecimal digits.
pub proof fn law_uid_eight_hex_digits(n: u64)
    requires
        n < 0x1_0000_0000,
    ensures
        uid_text(n).len() == 8,
        forall|i: int| 0 <= i < 8 ==> is_lower_hex(#[trigger] uid_text(n)[i]),
{
    assert(hex_span(8) == 0x1_0000_0000) by {
        reveal_with_fuel(hex_span, 9);
    }
    lemma_hex_digits(n as nat, 8);
    let d = crate::text::digits_of(n as nat, 16);
    let u = uid_text(n);
    if d.len() < 8 {
        let z = crate::text::zeros(8 - d.len());
        assert(u == z + d);
        assert forall|i: int| 0 <= i < 8 implies is_lower_hex(#[trigger] u[i]) by {
            if i < z.len() {
                assert(u[i] == '0');
            } else {
                assert(u[i] == d[i - z.len()]);
            }
        }
    }
}

/// Law: asking for a connection moves the trigger on once; asking again
/// while the socket it opened is connecting or open requests nothing more.
pub proof fn law_connect_requests_once(v: PipelineView, socket_connecting: bool, socket_closed: bool)
    requires
        v.connect_trigger < u32::MAX,
    ensures
        connect_step(v, false, true).connect_trigger == v.connect_trigger + 1,
        connect_step(v, false, true) == (PipelineView {
            connect_trigger: connect_step(v, false, true).connect_trigger,
            ..v
        }),
        socket_connecting || !socket_closed ==> connect_step(
            connect_step(v, false, true),
            socket_connecting,
            socket_closed,
        ) == connect_step(v, false, true),
{
}

/// Law: after a socket state change the session's status is `connecting`
/// while the socket connects, `connected` once it is open and `idle` once it
/// is closed, whatever it was before; a failed connection shows an error only
/// when a session was running. A closed or failed socket leaves nobody
/// speaking and no audio task running.
pub proof fn law_socket_status(v: PipelineView, state: SocketState)
    ensures
        state == SocketState::Connecting ==> socket_step(v, state).status
            == ConnectionStatus::Connecting,
        state == SocketState::Open ==> socket_step(v, state).status == ConnectionStatus::Connected
            && socket_step(v, state).tasks_started,
        state == SocketState::Closing ==> socket_step(v, state) == v,
        state == SocketState::Closed ==> socket_step(v, state).status == ConnectionStatus::Idle
            && socket_step(v, state).connect_trigger == 0,
        state == SocketState::FailedToConnect ==> socket_step(v, state).status == (if v.tasks_started {
            ConnectionStatus::Error
        } else {
            ConnectionStatus::Idle
        }),
        state == SocketState::Closed || state == SocketState::FailedToConnect ==> {
            let w = socket_step(v, state);
            &&& w.activity == Activity::Idle
            &&& !w.is_bot_speaking
            &&& !w.user_speaking
            &&& !w.tasks_started
            &&& w.messages == v.messages
            &&& w.events == v.events
        },
{
}

/// Law: when the microphone detector hears the user start talking, the bot is
/// cut off: the page listens, the bot is no longer speaking, its live caption
/// is cleared and one `user-started-speaking` entry is logged. When the user
/// stops, only `user_speaking` changes and one `user-stopped-speaking` entry is
/// logged. Anything else changes nothing.
pub proof fn law_vad_turns(v: PipelineView, activity: VoiceActivity, now: u64)
    ensures
        activity == VoiceActivity::Speaking && !v.user_speaking ==> {
            let w = vad_step(v, activity, now);
            &&& w.activity == Activity::Listening
            &&& w.user_speaking
            &&& !w.is_bot_speaking
            &&& w.bot_text.len() == 0
            &&& w.messages == v.messages
            &&& w.events.len() == v.events.len() + 1
            &&& w.events.last().event_type == "user-started-speaking"@
            &&& w.events.last().ts == now
        },
        activity == VoiceActivity::Quiet && v.user_speaking ==> {
            let w = vad_step(v, activity, now);
            &&& !w.user_speaking
            &&& w.activity == v.activity
            &&& w.is_bot_speaking == v.is_bot_speaking
            &&& w.events.len() == v.events.len() + 1
            &&& w.events.last().event_type == "user-stopped-speaking"@
        },
        (activity == VoiceActivity::Transition || (activity == VoiceActivity::Speaking
            && v.user_speaking) || (activity == VoiceActivity::Quiet && !v.user_speaking))
            ==> vad_step(v, activity, now) == v,
{
}

/// Law: a `function-call-result` server message for a call already tracked
/// completes the first call with that identifier, in place: the list keeps
/// its length and every other call. For an identifier not tracked yet, one
/// completed call is appended.
pub proof fn law_call_result_completes(v: PipelineView, e: EnvelopeView, now: u64, j: int)
    requires
        e.label == "ravi"@,
        e.msg_type == "server-message"@,
        e.data matches Some(d) && d.msg_type == Some("function-call-result"@),
    ensures
        ({
            let d = e.data->0;
            let w = envelope_step(v, e, now);
            let calls = v.function_calls;
            &&& (0 <= j < calls.len() && d.id == Some(calls[j].id) && forall|k: int|
                0 <= k < j ==> calls[k].id != calls[j].id) ==> {
                &&& w.function_calls.len() == calls.len()
                &&& w.function_calls[j].state == "completed"@
                &&& w.function_calls[j].id == calls[j].id
                &&& w.function_calls[j].name == calls[j].name
                &&& w.function_calls[j].payload == calls[j].payload
                &&& forall|k: int|
                    0 <= k < calls.len() && k != j ==> #[trigger] w.function_calls[k] == calls[k]
            }
            &&& (d.id matches Some(id) && forall|k: int|
                0 <= k < calls.len() ==> calls[k].id != id) ==> {
                &&& w.function_calls.len() == calls.len() + 1
                &&& w.function_calls.last().id == d.id->0
                &&& w.function_calls.last().state == "completed"@
                &&& forall|k: int|
                    0 <= k < calls.len() ==> #[trigger] w.function_calls[k] == calls[k]
            }
        }),
{
    reveal_strlit("ravi");
    reveal_strlit("server-message");
    reveal_strlit("bot-ready");
    reveal_strlit("bot-llm-stopped");
    reveal_strlit("user-started-speaking");
    reveal_strlit("user-stopped-speaking");
    reveal_strlit("bot-llm-started");
    reveal_strlit("bot-started-speaking");
    reveal_strlit("bot-stopped-speaking");
    reveal_strlit("user-transcription");
    reveal_strlit("bot-llm-text");
    reveal_strlit("bot-transcription");
    reveal_strlit("function-call-result");
    reveal_strlit("function-call-start");
    reveal_strlit("function-call-end");
    reveal_strlit("function-call-raw-result");
    reveal_strlit("function-call-in-progress");
    let d = e.data->0;
    let calls = v.function_calls;
    let cid = text_or(d.id, Seq::empty());
    assert(envelope_step(v, e, now) == server_message_step(v, d, now));
    assert(text_or(d.msg_type, "unknown"@).len() == 20);
    assert("function-call-start"@.len() == 19);
    assert("function-call-end"@.len() == 17);
    assert("function-call-raw-result"@.len() == 24);
    assert("function-call-in-progress"@.len() == 25);
    if 0 <= j < calls.len() && d.id == Some(calls[j].id) && forall|k: int|
        0 <= k < j ==> calls[k].id != calls[j].id {
        lemma_first_call_unique(calls, cid, j);
    }
    if d.id matches Some(id) && forall|k: int| 0 <= k < calls.len() ==> calls[k].id != id {
        assert(first_call_at(calls, cid, calls.len() as int));
        lemma_first_call_unique(calls, cid, calls.len() as int);
    }
}

proof fn lemma_newest_assistant(m: Seq<ChatMessageView>, j: int)
    requires
        0 <= j < m.len(),
        m[j].role == "assistant"@,
        forall|k: int| j < k < m.len() ==> m[k].role != "assistant"@,
    ensures
        last_assistant_text(m) == m[j].text,
    decreases m.len(),
{
    if j < m.len() - 1 {
        assert(m.last() == m[m.len() - 1]);
        let p = m.drop_last();
        assert forall|k: int| j < k < p.len() implies p[k].role != "assistant"@ by {
            assert(p[k] == m[k]);
        }
        lemma_newest_assistant(p, j);
        assert(p[j] == m[j]);
    }
}

proof fn lemma_no_assistant(m: Seq<ChatMessageView>)
    requires
        forall|k: int| 0 <= k < m.len() ==> m[k].role != "assistant"@,
    ensures
        last_assistant_text(m).len() == 0,
    decreases m.len(),
{
    if m.len() > 0 {
        assert(m.last() == m[m.len() - 1]);
        let p = m.drop_last();
        assert forall|k: int| 0 <= k < p.len() implies p[k].role != "assistant"@ by {
            assert(p[k] == m[k]);
        }
        lemma_no_assistant(p);
    }
}

/// Law: the caption under the orb is the live bot text while it streams;
/// otherwise it is the text of the newest assistant message (`j`, the last
/// position whose role is `assistant`), and empty when there is none. A
/// message of another role is never shown.
pub proof fn law_caption_newest_assistant(v: PipelineView, j: int)
    ensures
        v.bot_text.len() > 0 ==> caption_of(v) == v.bot_text,
        v.bot_text.len() == 0 && 0 <= j < v.messages.len() && v.messages[j].role == "assistant"@
            && (forall|k: int| j < k < v.messages.len() ==> v.messages[k].role != "assistant"@)
            ==> caption_of(v) == v.messages[j].text,
        v.bot_text.len() == 0 && (forall|k: int|
            0 <= k < v.messages.len() ==> v.messages[k].role != "assistant"@) ==> caption_of(
            v,
        ).len() == 0,
{
    let m = v.messages;
    if 0 <= j < m.len() && m[j].role == "assistant"@ && (forall|k: int|
        j < k < m.len() ==> m[k].role != "assistant"@) {
        lemma_newest_assistant(m, j);
    }
    if forall|k: int| 0 <= k < m.len() ==> m[k].role != "assistant"@ {
        lemma_no_assistant(m);
    }
}

proof fn lemma_shown_members(ev: Seq<RaviEventView>, vad_only: bool, i: int)
    requires
        0 <= i <= ev.len(),
    ensures
        shown_from(ev, vad_only, i).len() <= ev.len() - i,
        forall|k: int|
            0 <= k < shown_from(ev, vad_only, i).len() ==> i <= #[trigger] shown_from(
                ev,
                vad_only,
                i,
            )[k] < ev.len() && event_shown(ev[shown_from(ev, vad_only, i)[k]], vad_only),
        forall|a: int, b: int|
            0 <= a < b < shown_from(ev, vad_only, i).len() ==> shown_from(ev, vad_only, i)[a]
                > shown_from(ev, vad_only, i)[b],
    decreases ev.len() - i,
{
    if i < ev.len() {
        lemma_shown_members(ev, vad_only, i + 1);
    }
}

/// Law: the monitor panel lists at most fifty entries of the event log,
/// each once, newest first. With `vad_only` it lists only the entries about
/// who is talking (`user-started-speaking`, `user-stopped-speaking`,
/// `interrupt`); every such entry among the fifty newest of the log is
/// listed, and without `vad_only` every entry among the fifty newest is.
pub proof fn law_event_log_listing(ev: Seq<RaviEventView>, vad_only: bool, i: int)
    ensures
        visible_events_of(ev, vad_only).len() <= 50,
        forall|k: int|
            0 <= k < visible_events_of(ev, vad_only).len() ==> 0 <= #[trigger] visible_events_of(
                ev,
                vad_only,
            )[k] < ev.len(),
        forall|a: int, b: int|
            0 <= a < b < visible_events_of(ev, vad_only).len() ==> visible_events_of(ev, vad_only)[a]
                > visible_events_of(ev, vad_only)[b],
        vad_only ==> forall|k: int|
            0 <= k < visible_events_of(ev, vad_only).len() ==> {
                let t = ev[#[trigger] visible_events_of(ev, vad_only)[k]].event_type;
                t == "user-started-speaking"@ || t == "user-stopped-speaking"@ || t == "interrupt"@
            },
        0 <= i < ev.len() && ev.len() - 50 <= i && (!vad_only || ev[i].event_type
            == "user-started-speaking"@ || ev[i].event_type == "user-stopped-speaking"@
            || ev[i].event_type == "interrupt"@) ==> visible_events_of(ev, vad_only).contains(i),
{
    let all = shown_from(ev, vad_only, 0);
    let r = visible_events_of(ev, vad_only);
    lemma_shown_members(ev, vad_only, 0);
    assert forall|k: int| 0 <= k < r.len() implies r[k] == all[k] by {}
    if 0 <= i < ev.len() && ev.len() - 50 <= i && (!vad_only || ev[i].event_type
        == "user-started-speaking"@ || ev[i].event_type == "user-stopped-speaking"@
        || ev[i].event_type == "interrupt"@) {
        assert(event_shown(ev[i], vad_only));
        lemma_shown_members(ev, vad_only, i + 1);
        lemma_shown_prefix(ev, vad_only, 0, i);
        let tail = shown_from(ev, vad_only, i + 1);
        let here = shown_from(ev, vad_only, i);
        assert(here == tail.push(i));
        let p = tail.len() as int;
        assert(here[p] == i);
        assert(all[p] == here[p]);
        assert(p < 50);
        assert(r[p] == i);
    }
}

} // verus!
