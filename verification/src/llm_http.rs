//! The decisions of the LLM template process on the messages it receives:
//! HTTP server events (WebSocket connections opened, closed and pushed to,
//! HTTP `GET` and `POST` requests on its API), timer ticks, and messages
//! from the terminal, local processes and other nodes, each answered from
//! and recorded in the application state.
use vstd::prelude::*;
use crate::llm_state::{
    Address, AddressView, address_view, opt_string,
    can_increment, history_view, incremented, log_entry, log_message_at, pushed_history,
    without_client, AppState, MessageChannel, MessageLog, MessageLogM, MessageType, MessageTypeM,
};
use crate::text::{chars_of, decimal, decimal_exec, push_all, push_str, string_of};

verus! {

/// An HTTP request method, as far as the API tells them apart.
#[derive(Clone, Copy, PartialEq, Eq, Structural)]
pub enum HttpMethod {
    Get,
    Post,
    Other,
}

/// A custom message sent to the API.
pub struct CustomMessage {
    pub message_type: String,
    pub content: String,
}

/// A request to the API.
pub enum ApiRequest {
    ClearHistory,
    GetStatus,
    GetHistory,
    Message(CustomMessage),
}

/// The body of a `POST` request: missing, not UTF-8, an API request, or
/// text that is not one (with the parser's message).
pub enum PostBody {
    Missing,
    InvalidUtf8,
    Parsed(ApiRequest),
    Invalid(String),
}

/// An event from the HTTP server.
pub enum ServerEvent {
    WebSocketOpen { path: String, channel_id: u32 },
    WebSocketClose { channel_id: u32 },
    /// A WebSocket message: the API request it holds, if it holds one.
    WebSocketPush { channel_id: u32, request: Option<ApiRequest> },
    /// An HTTP request: its method (`None` when it has none), path and body.
    Http { method: Option<HttpMethod>, path: String, body: PostBody },
}

/// Clients, messages, and messages per channel.
pub struct StateOverview {
    pub connected_clients: u64,
    pub message_count: u64,
    pub message_counts_by_channel: Vec<(MessageChannel, u64)>,
}

/// A response of the API.
pub enum ApiResponse {
    Status(StateOverview),
    History(Vec<MessageLog>),
    ClearHistory(String),
    Message(String),
    ApiError { code: u16, message: String },
}

/// What the process does with the server in answer to an event.
pub enum ServerAction {
    OpenWebSocket { path: String, channel_id: u32 },
    CloseWebSocket { channel_id: u32 },
    Respond { status: u16, response: ApiResponse },
    Push { channel_id: u32, response: ApiResponse },
}

/// `o` describes the state: its clients, its messages, and its counts.
pub open spec fn overview_of(o: StateOverview, s: AppState) -> bool {
    &&& o.connected_clients == s.connected_clients@.len()
    &&& o.message_count == s.message_history@.len()
    &&& o.message_counts_by_channel@.len() == s.message_counts@.len()
    &&& forall|i: int|
        0 <= i < s.message_counts@.len() ==> (#[trigger] o.message_counts_by_channel@[i]).0
            == s.message_counts@[i].0 && o.message_counts_by_channel@[i].1
            == s.message_counts@[i].1
}

/// Every channel can still be counted once more.
pub open spec fn counts_room(s: AppState) -> bool {
    forall|ch: MessageChannel| can_increment(s.message_counts@, ch)
}

/// `after` is `before` with one message logged (the history, counts,
/// clients and configuration given explicitly for `before`).
pub open spec fn logged_from(
    history: Seq<MessageLogM>,
    counts: Seq<(MessageChannel, usize)>,
    before: AppState,
    after: AppState,
    source: Seq<char>,
    channel: MessageChannel,
    message_type: MessageTypeM,
    content: Option<Seq<char>>,
    timestamp: u64,
) -> bool {
    &&& history_view(after.message_history@) == pushed_history(
        history,
        log_entry(before.config, source, channel, message_type, content, timestamp),
        before.config.max_history,
    )
    &&& after.message_counts@ == incremented(counts, channel)
    &&& after.config == before.config
}

/// `after` is `before` with one message logged.
pub open spec fn logged(
    before: AppState,
    after: AppState,
    source: Seq<char>,
    channel: MessageChannel,
    message_type: MessageTypeM,
    content: Option<Seq<char>>,
    timestamp: u64,
) -> bool {
    &&& logged_from(
        history_view(before.message_history@),
        before.message_counts@,
        before,
        after,
        source,
        channel,
        message_type,
        content,
        timestamp,
    )
    &&& after.connected_clients@ == before.connected_clients@
}

/// `after` is `before` with history and counts cleared, then one message
/// logged.
pub open spec fn cleared_and_logged(
    before: AppState,
    after: AppState,
    source: Seq<char>,
    channel: MessageChannel,
    message_type: MessageTypeM,
    content: Option<Seq<char>>,
    timestamp: u64,
) -> bool {
    &&& logged_from(
        seq![],
        seq![],
        before,
        after,
        source,
        channel,
        message_type,
        content,
        timestamp,
    )
    &&& after.connected_clients@ == before.connected_clients@
}

/// Nothing about the state changed.
pub open spec fn unchanged(before: AppState, after: AppState) -> bool {
    &&& after.message_history@ == before.message_history@
    &&& after.message_counts@ == before.message_counts@
    &&& after.connected_clients@ == before.connected_clients@
    &&& after.config == before.config
}

fn copy_type(t: &MessageType) -> (r: MessageType)
    ensures
        r@ == t@,
{
    match t {
        MessageType::WebsocketOpen => MessageType::WebsocketOpen,
        MessageType::WebsocketClose => MessageType::WebsocketClose,
        MessageType::WebsocketPushA => MessageType::WebsocketPushA,
        MessageType::WebsocketPushB => MessageType::WebsocketPushB,
        MessageType::HttpGet => MessageType::HttpGet,
        MessageType::HttpPost => MessageType::HttpPost,
        MessageType::TimerTick => MessageType::TimerTick,
        MessageType::TerminalCommand => MessageType::TerminalCommand,
        MessageType::LocalRequest => MessageType::LocalRequest,
        MessageType::ResponseReceived => MessageType::ResponseReceived,
        MessageType::Other(s) => MessageType::Other(s.clone()),
    }
}

fn copy_log(l: &MessageLog) -> (r: MessageLog)
    ensures
        r@ == l@,
{
    MessageLog {
        source: l.source.clone(),
        channel: l.channel,
        message_type: copy_type(&l.message_type),
        content: match &l.content {
            Some(c) => Some(c.clone()),
            None => None,
        },
        timestamp: l.timestamp,
    }
}

fn history_copy(s: &AppState) -> (r: Vec<MessageLog>)
    ensures
        history_view(r@) == history_view(s.message_history@),
{
    let ghost h = history_view(s.message_history@);
    let mut r: Vec<MessageLog> = Vec::new();
    let mut i: usize = 0;
    while i < s.message_history.len()
        invariant
            h == history_view(s.message_history@),
            i <= s.message_history.len(),
            history_view(r@) == h.take(i as int),
        decreases s.message_history.len() - i,
    {
        let ghost before = r@;
        let l = copy_log(&s.message_history[i]);
        r.push(l);
        assert(history_view(r@) =~= history_view(before).push(l@));
        assert(h.take(i + 1) =~= h.take(i as int).push(h[i as int]));
        i = i + 1;
    }
    assert(h.take(s.message_history.len() as int) =~= h);
    r
}

fn overview(s: &AppState) -> (r: StateOverview)
    ensures
        overview_of(r, *s),
{
    let mut counts: Vec<(MessageChannel, u64)> = Vec::new();
    let mut i: usize = 0;
    while i < s.message_counts.len()
        invariant
            i <= s.message_counts.len(),
            counts@.len() == i,
            forall|k: int|
                0 <= k < i ==> (#[trigger] counts@[k]).0 == s.message_counts@[k].0 && counts@[k].1
                    == s.message_counts@[k].1,
        decreases s.message_counts.len() - i,
    {
        let c = s.message_counts[i];
        counts.push((c.0, c.1 as u64));
        i = i + 1;
    }
    StateOverview {
        connected_clients: s.connected_clients.len() as u64,
        message_count: s.message_history.len() as u64,
        message_counts_by_channel: counts,
    }
}

fn log(
    state: &mut AppState,
    source: Vec<char>,
    channel: MessageChannel,
    message_type: MessageType,
    content: Option<Vec<char>>,
    timestamp: u64,
)
    requires
        can_increment(old(state).message_counts@, channel),
    ensures
        logged(
            *old(state),
            *final(state),
            source@,
            channel,
            message_type@,
            crate::text::opt_view(content),
            timestamp,
        ),
{
    let c = match &content {
        Some(v) => Some(string_of(v)),
        None => None,
    };
    log_message_at(state, string_of(&source), channel, message_type, c, timestamp);
}

/// `"<prefix><n>"`.
pub open spec fn tagged(prefix: Seq<char>, n: u32) -> Seq<char> {
    prefix + decimal(n as nat)
}

fn tagged_exec(prefix: &str, n: u32) -> (r: Vec<char>)
    ensures
        r@ == tagged(prefix@, n),
{
    let mut r = chars_of(prefix);
    push_all(&mut r, &decimal_exec(n as u64));
    r
}

fn success(text: &str) -> (r: String)
    ensures
        r@ == text@,
{
    text.to_owned()
}

fn api_error(code: u16, text: &str) -> (r: ApiResponse)
    ensures
        is_error(Some(r), code, text@),
{
    ApiResponse::ApiError { code, message: text.to_owned() }
}

/// The status of a response action.
pub open spec fn resp_status(a: ServerAction) -> Option<u16> {
    match a {
        ServerAction::Respond { status, .. } => Some(status),
        _ => None,
    }
}

/// The client a push action goes to.
pub open spec fn push_target(a: ServerAction) -> Option<u32> {
    match a {
        ServerAction::Push { channel_id, .. } => Some(channel_id),
        _ => None,
    }
}

/// The API response an action carries, if it carries one.
pub open spec fn body_of(a: ServerAction) -> Option<ApiResponse> {
    match a {
        ServerAction::Respond { response, .. } => Some(response),
        ServerAction::Push { response, .. } => Some(response),
        _ => None,
    }
}

pub open spec fn is_status_of(r: Option<ApiResponse>, s: AppState) -> bool {
    match r {
        Some(ApiResponse::Status(o)) => overview_of(o, s),
        _ => false,
    }
}

pub open spec fn is_history_of(r: Option<ApiResponse>, s: AppState) -> bool {
    match r {
        Some(ApiResponse::History(h)) => history_view(h@) == history_view(s.message_history@),
        _ => false,
    }
}

pub open spec fn is_cleared(r: Option<ApiResponse>) -> bool {
    match r {
        Some(ApiResponse::ClearHistory(m)) => m@ == "History cleared successfully"@,
        _ => false,
    }
}

pub open spec fn is_message_ok(r: Option<ApiResponse>) -> bool {
    match r {
        Some(ApiResponse::Message(m)) => m@ == "Custom message logged successfully"@,
        _ => false,
    }
}

pub open spec fn is_error(r: Option<ApiResponse>, code: u16, text: Seq<char>) -> bool {
    match r {
        Some(ApiResponse::ApiError { code: c, message }) => c == code && message@ == text,
        _ => false,
    }
}

/// The action answering a WebSocket push with an API request.
pub open spec fn push_outcome(
    before: AppState,
    after: AppState,
    channel_id: u32,
    request: ApiRequest,
    timestamp: u64,
    actions: Seq<ServerAction>,
) -> bool {
    &&& actions.len() == 1
    &&& push_target(actions[0]) == Some(channel_id)
    &&& match request {
        ApiRequest::ClearHistory => cleared_and_logged(
            before,
            after,
            "WebSocket:Clear"@,
            MessageChannel::Websocket,
            MessageTypeM::WebsocketPushA,
            Some("History cleared"@),
            timestamp,
        ) && is_cleared(body_of(actions[0])),
        ApiRequest::GetStatus => unchanged(before, after) && is_status_of(body_of(actions[0]), before),
        ApiRequest::GetHistory => unchanged(before, after) && is_history_of(
            body_of(actions[0]),
            before,
        ),
        ApiRequest::Message(msg) => logged(
            before,
            after,
            "WebSocket:Custom"@,
            MessageChannel::Websocket,
            MessageTypeM::WebsocketPushB,
            Some("Type: "@ + msg.message_type@ + ", Content: "@ + msg.content@),
            timestamp,
        ) && is_message_ok(body_of(actions[0])),
    }
}

fn clear_all(state: &mut AppState)
    ensures
        final(state).message_history@ == Seq::<MessageLog>::empty(),
        final(state).message_counts@ == Seq::<(MessageChannel, usize)>::empty(),
        final(state).connected_clients@ == old(state).connected_clients@,
        final(state).config == old(state).config,
{
    state.message_history.clear();
    state.clear_counts();
}

/// Answers a WebSocket message holding an API request, pushing the answer
/// to the client that sent it.
pub fn handle_websocket_push(
    state: &mut AppState,
    channel_id: u32,
    request: ApiRequest,
    timestamp: u64,
) -> (r: Vec<ServerAction>)
    requires
        counts_room(*old(state)),
    ensures
        push_outcome(*old(state), *final(state), channel_id, request, timestamp, r@),
{
    let mut out: Vec<ServerAction> = Vec::new();
    match request {
        ApiRequest::ClearHistory => {
            clear_all(state);
            assert(history_view(state.message_history@) =~= seq![]);
            log(
                state,
                chars_of("WebSocket:Clear"),
                MessageChannel::Websocket,
                MessageType::WebsocketPushA,
                Some(chars_of("History cleared")),
                timestamp,
            );
            out.push(
                ServerAction::Push {
                    channel_id,
                    response: ApiResponse::ClearHistory(success("History cleared successfully")),
                },
            );
        },
        ApiRequest::GetStatus => {
            out.push(ServerAction::Push { channel_id, response: ApiResponse::Status(overview(state)) });
        },
        ApiRequest::GetHistory => {
            out.push(
                ServerAction::Push { channel_id, response: ApiResponse::History(history_copy(state)) },
            );
        },
        ApiRequest::Message(msg) => {
            assert(can_increment(state.message_counts@, MessageChannel::Websocket));
            let mut content = chars_of("Type: ");
            push_str(&mut content, msg.message_type.as_str());
            push_str(&mut content, ", Content: ");
            push_str(&mut content, msg.content.as_str());
            log(
                state,
                chars_of("WebSocket:Custom"),
                MessageChannel::Websocket,
                MessageType::WebsocketPushB,
                Some(content),
                timestamp,
            );
            out.push(
                ServerAction::Push {
                    channel_id,
                    response: ApiResponse::Message(success("Custom message logged successfully")),
                },
            );
        },
    }
    out
}

/// What an HTTP request on the API does: `GET /api/status` and
/// `GET /api/history` answer from the state and log the request; a `POST`
/// with a clear-history or custom-message request acts on it and logs it;
/// anything else is answered with an error (or, for another `GET` path, not
/// at all).
pub open spec fn http_outcome(
    before: AppState,
    after: AppState,
    method: HttpMethod,
    path: Seq<char>,
    body: PostBody,
    timestamp: u64,
    actions: Seq<ServerAction>,
) -> bool {
    match method {
        HttpMethod::Get => if path == "/api/status"@ {
            &&& logged(
                before,
                after,
                "HTTP:GET"@,
                MessageChannel::HttpApi,
                MessageTypeM::HttpGet,
                Some("Status request"@),
                timestamp,
            )
            &&& actions.len() == 1
            &&& resp_status(actions[0]) == Some(200u16)
            &&& is_status_of(body_of(actions[0]), before)
        } else if path == "/api/history"@ {
            &&& logged(
                before,
                after,
                "HTTP:GET"@,
                MessageChannel::HttpApi,
                MessageTypeM::HttpGet,
                Some("History request"@),
                timestamp,
            )
            &&& actions.len() == 1
            &&& resp_status(actions[0]) == Some(200u16)
            &&& is_history_of(body_of(actions[0]), before)
        } else {
            unchanged(before, after) && actions.len() == 0
        },
        HttpMethod::Post => match body {
            PostBody::Parsed(ApiRequest::ClearHistory) => {
                &&& cleared_and_logged(
                    before,
                    after,
                    "HTTP:POST"@,
                    MessageChannel::HttpApi,
                    MessageTypeM::HttpPost,
                    Some("History cleared"@),
                    timestamp,
                )
                &&& actions.len() == 1
                &&& resp_status(actions[0]) == Some(200u16)
                &&& is_cleared(body_of(actions[0]))
            },
            PostBody::Parsed(ApiRequest::Message(msg)) => {
                &&& logged(
                    before,
                    after,
                    "HTTP:Custom"@,
                    MessageChannel::HttpApi,
                    MessageTypeM::Other(msg.message_type@),
                    Some(msg.content@),
                    timestamp,
                )
                &&& actions.len() == 1
                &&& resp_status(actions[0]) == Some(200u16)
                &&& is_message_ok(body_of(actions[0]))
            },
            _ => {
                &&& unchanged(before, after)
                &&& actions.len() == 1
                &&& resp_status(actions[0]) == Some(400u16)
                &&& is_error(
                    body_of(actions[0]),
                    400,
                    match body {
                        PostBody::Missing => "No request body"@,
                        PostBody::InvalidUtf8 => "Invalid UTF-8 in request body"@,
                        PostBody::Invalid(err) => "Invalid request format: "@ + err@,
                        _ => "Invalid request type. Use GET endpoints for status and history."@,
                    },
                )
            },
        },
        HttpMethod::Other => {
            &&& unchanged(before, after)
            &&& actions.len() == 1
            &&& resp_status(actions[0]) == Some(405u16)
            &&& is_error(body_of(actions[0]), 405, "Method not allowed"@)
        },
    }
}

fn handle_http_request(
    state: &mut AppState,
    method: HttpMethod,
    path: &String,
    body: PostBody,
    timestamp: u64,
) -> (r: Vec<ServerAction>)
    requires
        counts_room(*old(state)),
    ensures
        http_outcome(*old(state), *final(state), method, path@, body, timestamp, r@),
{
    let ghost b = body;
    let mut out: Vec<ServerAction> = Vec::new();
    match method {
        HttpMethod::Get => {
            assert(can_increment(state.message_counts@, MessageChannel::HttpApi));
            let p = chars_of(path.as_str());
            if crate::naming::eq_lit(&p, "/api/status") {
                let o = overview(state);
                log(
                    state,
                    chars_of("HTTP:GET"),
                    MessageChannel::HttpApi,
                    MessageType::HttpGet,
                    Some(chars_of("Status request")),
                    timestamp,
                );
                out.push(ServerAction::Respond { status: 200, response: ApiResponse::Status(o) });
            } else if crate::naming::eq_lit(&p, "/api/history") {
                let h = history_copy(state);
                log(
                    state,
                    chars_of("HTTP:GET"),
                    MessageChannel::HttpApi,
                    MessageType::HttpGet,
                    Some(chars_of("History request")),
                    timestamp,
                );
                out.push(ServerAction::Respond { status: 200, response: ApiResponse::History(h) });
            }
        },
        HttpMethod::Post => {
            assert(can_increment(state.message_counts@, MessageChannel::HttpApi));
            match body {
                PostBody::Missing => {
                    out.push(
                        ServerAction::Respond { status: 400, response: api_error(400, "No request body") },
                    );
                },
                PostBody::InvalidUtf8 => {
                    out.push(
                        ServerAction::Respond {
                            status: 400,
                            response: api_error(400, "Invalid UTF-8 in request body"),
                        },
                    );
                },
                PostBody::Invalid(err) => {
                    let mut m = chars_of("Invalid request format: ");
                    push_str(&mut m, err.as_str());
                    out.push(
                        ServerAction::Respond {
                            status: 400,
                            response: ApiResponse::ApiError { code: 400, message: string_of(&m) },
                        },
                    );
                },
                PostBody::Parsed(request) => match request {
                    ApiRequest::ClearHistory => {
                        clear_all(state);
                        assert(history_view(state.message_history@) =~= seq![]);
                        log(
                            state,
                            chars_of("HTTP:POST"),
                            MessageChannel::HttpApi,
                            MessageType::HttpPost,
                            Some(chars_of("History cleared")),
                            timestamp,
                        );
                        out.push(
                            ServerAction::Respond {
                                status: 200,
                                response: ApiResponse::ClearHistory(
                                    success("History cleared successfully"),
                                ),
                            },
                        );
                    },
                    ApiRequest::Message(msg) => {
                        log(
                            state,
                            chars_of("HTTP:Custom"),
                            MessageChannel::HttpApi,
                            MessageType::Other(msg.message_type),
                            Some(chars_of(msg.content.as_str())),
                            timestamp,
                        );
                        out.push(
                            ServerAction::Respond {
                                status: 200,
                                response: ApiResponse::Message(
                                    success("Custom message logged successfully"),
                                ),
                            },
                        );
                    },
                    _ => {
                        out.push(
                            ServerAction::Respond {
                                status: 400,
                                response: api_error(
                                    400,
                                    "Invalid request type. Use GET endpoints for status and history.",
                                ),
                            },
                        );
                    },
                },
            }
        },
        HttpMethod::Other => {
            out.push(
                ServerAction::Respond { status: 405, response: api_error(405, "Method not allowed") },
            );
        },
    }
    out
}

/// What a server event does to the state and which actions answer it; an
/// HTTP request without a method is refused.
pub open spec fn server_outcome(
    before: AppState,
    after: AppState,
    event: ServerEvent,
    timestamp: u64,
    r: Result<Seq<ServerAction>, Seq<char>>,
) -> bool {
    match event {
        ServerEvent::WebSocketOpen { path, channel_id } => {
            &&& r is Ok
            &&& r->Ok_0.len() == 1
            &&& opened(r->Ok_0[0]) == Some((path@, channel_id))
            &&& history_view(after.message_history@) == pushed_history(
                history_view(before.message_history@),
                log_entry(
                    before.config,
                    tagged("WebSocket:"@, channel_id),
                    MessageChannel::Websocket,
                    MessageTypeM::WebsocketOpen,
                    Some("Path: "@ + path@),
                    timestamp,
                ),
                before.config.max_history,
            )
            &&& after.message_counts@ == incremented(before.message_counts@, MessageChannel::Websocket)
            &&& after.config == before.config
            &&& after.connected_clients@.len() == before.connected_clients@.len() + 1
            &&& after.connected_clients@.drop_last() == before.connected_clients@
            &&& after.connected_clients@.last().0 == channel_id
            &&& after.connected_clients@.last().1@ == path@
        },
        ServerEvent::WebSocketClose { channel_id } => {
            &&& r is Ok
            &&& r->Ok_0.len() == 1
            &&& closed(r->Ok_0[0]) == Some(channel_id)
            &&& history_view(after.message_history@) == pushed_history(
                history_view(before.message_history@),
                log_entry(
                    before.config,
                    tagged("WebSocket:"@, channel_id),
                    MessageChannel::Websocket,
                    MessageTypeM::WebsocketClose,
                    Some(tagged("Channel ID: "@, channel_id)),
                    timestamp,
                ),
                before.config.max_history,
            )
            &&& after.message_counts@ == incremented(before.message_counts@, MessageChannel::Websocket)
            &&& after.config == before.config
            &&& after.connected_clients@ == without_client(before.connected_clients@, channel_id)
        },
        ServerEvent::WebSocketPush { channel_id, request } => match request {
            None => r is Ok && r->Ok_0.len() == 0 && unchanged(before, after),
            Some(req) => r is Ok && push_outcome(before, after, channel_id, req, timestamp, r->Ok_0),
        },
        ServerEvent::Http { method, path, body } => match method {
            None => r == Err::<Seq<ServerAction>, Seq<char>>("HTTP request with no method"@)
                && unchanged(before, after),
            Some(m) => r is Ok && http_outcome(before, after, m, path@, body, timestamp, r->Ok_0),
        },
    }
}

/// The path and client of an action opening a WebSocket.
pub open spec fn opened(a: ServerAction) -> Option<(Seq<char>, u32)> {
    match a {
        ServerAction::OpenWebSocket { path, channel_id } => Some((path@, channel_id)),
        _ => None,
    }
}

/// The client of an action closing a WebSocket.
pub open spec fn closed(a: ServerAction) -> Option<u32> {
    match a {
        ServerAction::CloseWebSocket { channel_id } => Some(channel_id),
        _ => None,
    }
}

pub open spec fn actions_result(r: Result<Vec<ServerAction>, String>) -> Result<
    Seq<ServerAction>,
    Seq<char>,
> {
    match r {
        Ok(v) => Ok(v@),
        Err(e) => Err(e@),
    }
}

/// Decides what the process does on an HTTP server event at `timestamp`:
/// tracks WebSocket clients, answers API requests, and logs each.
pub fn handle_http_server_request(state: &mut AppState, event: ServerEvent, timestamp: u64) -> (r:
    Result<Vec<ServerAction>, String>)
    requires
        counts_room(*old(state)),
    ensures
        server_outcome(*old(state), *final(state), event, timestamp, actions_result(r)),
{
    match event {
        ServerEvent::WebSocketOpen { path, channel_id } => {
            let ghost before = *state;
            assert(can_increment(state.message_counts@, MessageChannel::Websocket));
            state.add_client(channel_id, path.clone());
            let mut content = chars_of("Path: ");
            push_str(&mut content, path.as_str());
            log(
                state,
                tagged_exec("WebSocket:", channel_id),
                MessageChannel::Websocket,
                MessageType::WebsocketOpen,
                Some(content),
                timestamp,
            );
            assert(state.connected_clients@.drop_last() =~= before.connected_clients@);
            let mut out: Vec<ServerAction> = Vec::new();
            out.push(ServerAction::OpenWebSocket { path, channel_id });
            Ok(out)
        },
        ServerEvent::WebSocketClose { channel_id } => {
            assert(can_increment(state.message_counts@, MessageChannel::Websocket));
            log(
                state,
                tagged_exec("WebSocket:", channel_id),
                MessageChannel::Websocket,
                MessageType::WebsocketClose,
                Some(tagged_exec("Channel ID: ", channel_id)),
                timestamp,
            );
            state.remove_client(channel_id);
            let mut out: Vec<ServerAction> = Vec::new();
            out.push(ServerAction::CloseWebSocket { channel_id });
            Ok(out)
        },
        ServerEvent::WebSocketPush { channel_id, request } => match request {
            None => Ok(Vec::new()),
            Some(req) => Ok(handle_websocket_push(state, channel_id, req, timestamp)),
        },
        ServerEvent::Http { method, path, body } => match method {
            None => Err("HTTP request with no method".to_owned()),
            Some(m) => Ok(handle_http_request(state, m, &path, body, timestamp)),
        },
    }
}

} // verus!

verus! {

/// The address text `node@process:package:publisher`.
pub open spec fn address_text(a: AddressView) -> Seq<char> {
    a.0 + "@"@ + a.1 + ":"@ + a.2 + ":"@ + a.3
}

fn address_text_exec(a: &Address) -> (r: Vec<char>)
    ensures
        r@ == address_text(address_view(*a)),
{
    let mut r = chars_of(a.node.as_str());
    push_str(&mut r, "@");
    push_str(&mut r, a.process.as_str());
    push_str(&mut r, ":");
    push_str(&mut r, a.package.as_str());
    push_str(&mut r, ":");
    push_str(&mut r, a.publisher.as_str());
    r
}

/// A system process of the distro on the node of `our`.
pub open spec fn system_address(our: AddressView, process: Seq<char>) -> AddressView {
    (our.0, process, "distro"@, "sys"@)
}

fn system_address_exec(our: &Address, process: &str) -> (r: Address)
    ensures
        address_view(r) == system_address(address_view(*our), process@),
{
    Address {
        node: our.node.clone(),
        process: process.to_owned(),
        package: "distro".to_owned(),
        publisher: "sys".to_owned(),
    }
}

/// The HTTP server process on our node.
pub fn make_http_address(our: &Address) -> (r: Address)
    ensures
        address_view(r) == system_address(address_view(*our), "http-server"@),
{
    system_address_exec(our, "http-server")
}

/// The timer process on our node.
pub fn make_timer_address(our: &Address) -> (r: Address)
    ensures
        address_view(r) == system_address(address_view(*our), "timer"@),
{
    system_address_exec(our, "timer")
}

/// The terminal process on our node.
pub fn make_terminal_address(our: &Address) -> (r: Address)
    ensures
        address_view(r) == system_address(address_view(*our), "terminal"@),
{
    system_address_exec(our, "terminal")
}

/// What a message body is logged as: its text, or its size when it is no
/// UTF-8 text (`body` is the text when it is).
pub open spec fn body_text(body: Option<Seq<char>>, len: usize) -> Seq<char> {
    match body {
        Some(t) => t,
        None => "Binary data: "@ + decimal(len as nat) + " bytes"@,
    }
}

fn body_text_exec(body: &Option<String>, len: usize) -> (r: Vec<char>)
    ensures
        r@ == body_text(opt_string(*body), len),
{
    match body {
        Some(t) => chars_of(t.as_str()),
        None => {
            let mut r = chars_of("Binary data: ");
            push_all(&mut r, &decimal_exec(len as u64));
            push_str(&mut r, " bytes");
            r
        },
    }
}

/// On a timer tick: logs it, then pushes the status (after logging) to
/// every connected client, in order.
pub fn handle_timer_message(state: &mut AppState, timestamp: u64) -> (r: Vec<ServerAction>)
    requires
        can_increment(old(state).message_counts@, MessageChannel::Timer),
    ensures
        logged(*old(state), *final(state), "Timer"@, MessageChannel::Timer, MessageTypeM::TimerTick, Some("Timer event received"@), timestamp),
        r@.len() == final(state).connected_clients@.len(),
        forall|i: int| 0 <= i < r@.len() ==> push_target(#[trigger] r@[i]) == Some(final(state).connected_clients@[i].0)
            && is_status_of(body_of(r@[i]), *final(state)),
{
    log(state, chars_of("Timer"), MessageChannel::Timer, MessageType::TimerTick, Some(chars_of("Timer event received")), timestamp);
    let mut out: Vec<ServerAction> = Vec::new();
    let mut i: usize = 0;
    while i < state.connected_clients.len()
        invariant
            i <= state.connected_clients@.len(),
            out@.len() == i,
            forall|k: int| 0 <= k < i ==> push_target(#[trigger] out@[k]) == Some(state.connected_clients@[k].0)
                && is_status_of(body_of(out@[k]), *state),
        decreases state.connected_clients.len() - i,
    {
        let o = overview(state);
        out.push(ServerAction::Push { channel_id: state.connected_clients[i].0, response: ApiResponse::Status(o) });
        i = i + 1;
    }
    out
}

/// A terminal message: logs its body and acknowledges it.
pub fn handle_terminal_message(state: &mut AppState, body: &Option<String>, len: usize, timestamp: u64) -> (r: ApiResponse)
    requires
        can_increment(old(state).message_counts@, MessageChannel::Terminal),
    ensures
        logged(*old(state), *final(state), "Terminal"@, MessageChannel::Terminal, MessageTypeM::TerminalCommand, Some(body_text(opt_string(*body), len)), timestamp),
        r matches ApiResponse::Message(m) && m@ == "Terminal message logged successfully"@,
{
    log(state, chars_of("Terminal"), MessageChannel::Terminal, MessageType::TerminalCommand, Some(body_text_exec(body, len)), timestamp);
    ApiResponse::Message(success("Terminal message logged successfully"))
}

/// A message from a local process: one from the terminal is handled as a
/// terminal message; any other is logged under its sender and acknowledged.
pub fn handle_internal_message(state: &mut AppState, source: &Address, body: &Option<String>, len: usize, timestamp: u64) -> (r: ApiResponse)
    requires
        counts_room(*old(state)),
    ensures
        address_view(*source) == system_address(address_view(*source), "terminal"@) ==> (
            logged(*old(state), *final(state), "Terminal"@, MessageChannel::Terminal, MessageTypeM::TerminalCommand, Some(body_text(opt_string(*body), len)), timestamp)
            && (r matches ApiResponse::Message(m) && m@ == "Terminal message logged successfully"@)),
        address_view(*source) != system_address(address_view(*source), "terminal"@) ==> (
            logged(*old(state), *final(state), "Internal:"@ + address_text(address_view(*source)), MessageChannel::Internal, MessageTypeM::LocalRequest, Some(body_text(opt_string(*body), len)), timestamp)
            && (r matches ApiResponse::Message(m) && m@ == "Message logged successfully"@)),
{
    assert(can_increment(state.message_counts@, MessageChannel::Terminal));
    assert(can_increment(state.message_counts@, MessageChannel::Internal));
    let terminal = make_terminal_address(source);
    let is_terminal = crate::naming::eq_lit(&chars_of(source.process.as_str()), "terminal")
        && crate::naming::eq_lit(&chars_of(source.package.as_str()), "distro")
        && crate::naming::eq_lit(&chars_of(source.publisher.as_str()), "sys");
    assert(is_terminal == (address_view(*source) == address_view(terminal)));
    if is_terminal {
        return handle_terminal_message(state, body, len, timestamp);
    }
    let mut src = chars_of("Internal:");
    push_all(&mut src, &address_text_exec(source));
    log(state, src, MessageChannel::Internal, MessageType::LocalRequest, Some(body_text_exec(body, len)), timestamp);
    ApiResponse::Message(success("Message logged successfully"))
}

/// What a message from another node does: `request` is its body read as an
/// API request, if it is one.
pub open spec fn external_outcome(
    before: AppState,
    after: AppState,
    source: Seq<char>,
    request: Option<ApiRequest>,
    body: Seq<char>,
    timestamp: u64,
    r: ApiResponse,
) -> bool {
    match request {
        Some(ApiRequest::GetStatus) => unchanged(before, after) && is_status_of(Some(r), before),
        Some(ApiRequest::GetHistory) => unchanged(before, after) && is_history_of(Some(r), before),
        Some(ApiRequest::ClearHistory) => {
            &&& after.message_history@.len() == 0
            &&& after.message_counts@ == before.message_counts@
            &&& after.connected_clients@ == before.connected_clients@
            &&& after.config == before.config
            &&& r matches ApiResponse::ClearHistory(m) && m@ == "History cleared successfully"@
        },
        Some(ApiRequest::Message(msg)) => logged(before, after, source, MessageChannel::External, MessageTypeM::Other(msg.message_type@), Some(msg.content@), timestamp)
            && (r matches ApiResponse::Message(m) && m@ == "Message processed successfully"@),
        None => logged(before, after, source, MessageChannel::External, MessageTypeM::ResponseReceived, Some(body), timestamp)
            && is_error(Some(r), 400, "Invalid request format"@),
    }
}

/// A message from another node: answers API requests, logs custom
/// messages and anything that is no request.
pub fn handle_external_message(state: &mut AppState, source: &Address, request: Option<ApiRequest>, body: &Option<String>, len: usize, timestamp: u64) -> (r: ApiResponse)
    requires
        can_increment(old(state).message_counts@, MessageChannel::External),
    ensures
        external_outcome(*old(state), *final(state), "External:"@ + address_text(address_view(*source)), request, body_text(opt_string(*body), len), timestamp, r),
{
    let mut src = chars_of("External:");
    push_all(&mut src, &address_text_exec(source));
    match request {
        Some(ApiRequest::GetStatus) => ApiResponse::Status(overview(state)),
        Some(ApiRequest::GetHistory) => ApiResponse::History(history_copy(state)),
        Some(ApiRequest::ClearHistory) => {
            state.message_history.clear();
            ApiResponse::ClearHistory(success("History cleared successfully"))
        },
        Some(ApiRequest::Message(msg)) => {
            log(state, src, MessageChannel::External, MessageType::Other(msg.message_type), Some(chars_of(msg.content.as_str())), timestamp);
            ApiResponse::Message(success("Message processed successfully"))
        },
        None => {
            log(state, src, MessageChannel::External, MessageType::ResponseReceived, Some(body_text_exec(body, len)), timestamp);
            api_error(400, "Invalid request format")
        },
    }
}

} // verus!

verus! {

/// Which handler a message goes to.
#[derive(Clone, Copy, PartialEq, Eq, Structural, Debug)]
pub enum MessageRoute {
    Http,
    Timer,
    Internal,
    Terminal,
    External,
}

/// The handler for a message from `source`, checked in this order: the HTTP
/// server, the timer, any process on our node, the terminal, anyone else.
pub open spec fn route_of(source: AddressView, our: AddressView) -> MessageRoute {
    if source == system_address(our, "http-server"@) {
        MessageRoute::Http
    } else if source == system_address(our, "timer"@) {
        MessageRoute::Timer
    } else if source.0 == our.0 {
        MessageRoute::Internal
    } else if source == system_address(our, "terminal"@) {
        MessageRoute::Terminal
    } else {
        MessageRoute::External
    }
}

fn same_address(a: &Address, b: &Address) -> (r: bool)
    ensures
        r == (address_view(*a) == address_view(*b)),
{
    crate::naming::eq_lit(&chars_of(a.node.as_str()), b.node.as_str())
        && crate::naming::eq_lit(&chars_of(a.process.as_str()), b.process.as_str())
        && crate::naming::eq_lit(&chars_of(a.package.as_str()), b.package.as_str())
        && crate::naming::eq_lit(&chars_of(a.publisher.as_str()), b.publisher.as_str())
}

/// Routes a message by its sender.
pub fn route_message(source: &Address, our: &Address) -> (r: MessageRoute)
    ensures
        r == route_of(address_view(*source), address_view(*our)),
{
    if same_address(source, &make_http_address(our)) {
        MessageRoute::Http
    } else if same_address(source, &make_timer_address(our)) {
        MessageRoute::Timer
    } else if crate::naming::eq_lit(&chars_of(source.node.as_str()), our.node.as_str()) {
        MessageRoute::Internal
    } else if same_address(source, &make_terminal_address(our)) {
        MessageRoute::Terminal
    } else {
        MessageRoute::External
    }
}

/// The HTTP paths the process binds, each with whether it needs
/// authentication.
pub fn http_api_bindings() -> (r: Vec<(String, bool)>)
    ensures
        r@.map_values(|p: (String, bool)| (p.0@, p.1)) == seq![
            ("/api"@, false),
            ("/api/status"@, false),
            ("/api/history"@, false),
            ("/api/clear-history"@, true),
        ],
{
    let mut v: Vec<(String, bool)> = Vec::new();
    v.push(("/api".to_owned(), false));
    v.push(("/api/status".to_owned(), false));
    v.push(("/api/history".to_owned(), false));
    v.push(("/api/clear-history".to_owned(), true));
    assert(v@.map_values(|p: (String, bool)| (p.0@, p.1)) =~= seq![
            ("/api"@, false),
            ("/api/status"@, false),
            ("/api/history"@, false),
            ("/api/clear-history"@, true),
        ]);
    v
}

/// The state the process starts with: the default configuration, and the
/// start logged at `timestamp`.
pub fn initial_state(timestamp: u64) -> (r: AppState)
    ensures
        r.config.max_history == 100,
        r.config.log_content,
        r.connected_clients@.len() == 0,
        history_view(r.message_history@) == seq![MessageLogM {
            source: "System"@,
            channel: MessageChannel::Internal,
            message_type: MessageTypeM::Other("Initialization"@),
            content: Some("Application started"@),
            timestamp,
        }],
        r.message_counts@ == seq![(MessageChannel::Internal, 1usize)],
{
    let mut state = AppState::default();
    log(
        &mut state,
        chars_of("System"),
        MessageChannel::Internal,
        MessageType::Other("Initialization".to_owned()),
        Some(chars_of("Application started")),
        timestamp,
    );
    state
}

} // verus!
