//! The state of the LLM template process: a bounded message history,
//! message counts per channel, configuration, and the connected WebSocket
//! clients.
use vstd::prelude::*;

verus! {

/// Where a message came from.
#[derive(Clone, Copy, PartialEq, Eq, Structural, Debug)]
pub enum MessageChannel {
    Websocket,
    HttpApi,
    Internal,
    External,
    Timer,
    Terminal,
}

/// What kind of message was logged.
pub enum MessageType {
    WebsocketOpen,
    WebsocketClose,
    WebsocketPushA,
    WebsocketPushB,
    HttpGet,
    HttpPost,
    TimerTick,
    TerminalCommand,
    LocalRequest,
    ResponseReceived,
    Other(String),
}

/// One entry of the message history.
pub struct MessageLog {
    pub source: String,
    pub channel: MessageChannel,
    pub message_type: MessageType,
    pub content: Option<String>,
    pub timestamp: u64,
}

pub enum MessageTypeM {
    WebsocketOpen,
    WebsocketClose,
    WebsocketPushA,
    WebsocketPushB,
    HttpGet,
    HttpPost,
    TimerTick,
    TerminalCommand,
    LocalRequest,
    ResponseReceived,
    Other(Seq<char>),
}

impl View for MessageType {
    type V = MessageTypeM;

    open spec fn view(&self) -> MessageTypeM {
        match self {
            MessageType::WebsocketOpen => MessageTypeM::WebsocketOpen,
            MessageType::WebsocketClose => MessageTypeM::WebsocketClose,
            MessageType::WebsocketPushA => MessageTypeM::WebsocketPushA,
            MessageType::WebsocketPushB => MessageTypeM::WebsocketPushB,
            MessageType::HttpGet => MessageTypeM::HttpGet,
            MessageType::HttpPost => MessageTypeM::HttpPost,
            MessageType::TimerTick => MessageTypeM::TimerTick,
            MessageType::TerminalCommand => MessageTypeM::TerminalCommand,
            MessageType::LocalRequest => MessageTypeM::LocalRequest,
            MessageType::ResponseReceived => MessageTypeM::ResponseReceived,
            MessageType::Other(s) => MessageTypeM::Other(s@),
        }
    }
}

pub struct MessageLogM {
    pub source: Seq<char>,
    pub channel: MessageChannel,
    pub message_type: MessageTypeM,
    pub content: Option<Seq<char>>,
    pub timestamp: u64,
}

pub open spec fn opt_string(o: Option<String>) -> Option<Seq<char>> {
    match o {
        Some(s) => Some(s@),
        None => None,
    }
}

impl View for MessageLog {
    type V = MessageLogM;

    open spec fn view(&self) -> MessageLogM {
        MessageLogM {
            source: self.source@,
            channel: self.channel,
            message_type: self.message_type@,
            content: opt_string(self.content),
            timestamp: self.timestamp,
        }
    }
}

/// The history as entries' views.
pub open spec fn history_view(h: Seq<MessageLog>) -> Seq<MessageLogM> {
    h.map_values(|l: MessageLog| l@)
}

/// A process address: node, process name, package and publisher.
#[derive(Clone, Debug)]
pub struct Address {
    pub node: String,
    pub process: String,
    pub package: String,
    pub publisher: String,
}

pub type AddressView = (Seq<char>, Seq<char>, Seq<char>, Seq<char>);

pub open spec fn address_view(a: Address) -> AddressView {
    (a.node@, a.process@, a.package@, a.publisher@)
}

/// Configuration for the application.
pub struct AppConfig {
    /// Maximum number of messages to keep in history.
    pub max_history: usize,
    /// Whether to log message content.
    pub log_content: bool,
}

impl Default for AppConfig {
    fn default() -> (r: AppConfig)
        ensures
            r.max_history == 100,
            r.log_content,
    {
        AppConfig { max_history: 100, log_content: true }
    }
}

/// The application state.
pub struct AppState {
    /// Message history for all channels, oldest first.
    pub message_history: Vec<MessageLog>,
    /// Message counts by channel, each channel once.
    pub message_counts: Vec<(MessageChannel, usize)>,
    /// Configuration settings.
    pub config: AppConfig,
    /// Connected WebSocket clients (channel id, path).
    pub connected_clients: Vec<(u32, String)>,
}

impl Default for AppState {
    fn default() -> (r: AppState)
        ensures
            r.message_history@.len() == 0,
            r.message_counts@.len() == 0,
            r.config.max_history == 100,
            r.config.log_content,
            r.connected_clients@.len() == 0,
    {
        AppState {
            message_history: Vec::new(),
            message_counts: Vec::new(),
            config: AppConfig::default(),
            connected_clients: Vec::new(),
        }
    }
}

/// The position of the first count for `ch`, from `j` on.
pub open spec fn channel_index(counts: Seq<(MessageChannel, usize)>, ch: MessageChannel, j: int) -> Option<
    int,
>
    decreases counts.len() - j,
{
    if j < 0 || j >= counts.len() {
        None
    } else if counts[j].0 == ch {
        Some(j)
    } else {
        channel_index(counts, ch, j + 1)
    }
}

/// The counts after one more message on `ch`.
pub open spec fn incremented(counts: Seq<(MessageChannel, usize)>, ch: MessageChannel) -> Seq<
    (MessageChannel, usize),
> {
    match channel_index(counts, ch, 0) {
        Some(i) => counts.update(i, (ch, (counts[i].1 + 1) as usize)),
        None => counts.push((ch, 1usize)),
    }
}

/// The count kept for `ch` (zero when it has none).
pub open spec fn count_of(counts: Seq<(MessageChannel, usize)>, ch: MessageChannel) -> int {
    match channel_index(counts, ch, 0) {
        Some(i) => counts[i].1 as int,
        None => 0,
    }
}

/// Counting one more message on `ch` does not overflow.
pub open spec fn can_increment(counts: Seq<(MessageChannel, usize)>, ch: MessageChannel) -> bool {
    count_of(counts, ch) < usize::MAX
}

/// The position of the first client with id `id`, from `j` on.
pub open spec fn client_index(cs: Seq<(u32, String)>, id: u32, j: int) -> Option<int>
    decreases cs.len() - j,
{
    if j < 0 || j >= cs.len() {
        None
    } else if cs[j].0 == id {
        Some(j)
    } else {
        client_index(cs, id, j + 1)
    }
}

/// The clients other than those with id `id`, in order.
pub open spec fn without_client(cs: Seq<(u32, String)>, id: u32) -> Seq<(u32, String)>
    decreases cs.len(),
{
    if cs.len() == 0 {
        seq![]
    } else if cs.last().0 == id {
        without_client(cs.drop_last(), id)
    } else {
        without_client(cs.drop_last(), id).push(cs.last())
    }
}

/// The path of the first client with id `id`.
pub open spec fn client_path(cs: Seq<(u32, String)>, id: u32) -> Option<Seq<char>> {
    match client_index(cs, id, 0) {
        Some(i) => Some(cs[i].1@),
        None => None,
    }
}

fn find_channel(counts: &Vec<(MessageChannel, usize)>, ch: MessageChannel) -> (r: Option<usize>)
    ensures
        r matches Some(i) ==> channel_index(counts@, ch, 0) == Some(i as int) && i < counts.len(),
        r is None ==> channel_index(counts@, ch, 0) is None,
{
    let mut j: usize = 0;
    while j < counts.len()
        invariant
            j <= counts.len(),
            channel_index(counts@, ch, 0) == channel_index(counts@, ch, j as int),
        decreases counts.len() - j,
    {
        if counts[j].0 == ch {
            return Some(j);
        }
        j = j + 1;
    }
    None
}

fn find_client(cs: &Vec<(u32, String)>, id: u32) -> (r: Option<usize>)
    ensures
        r matches Some(i) ==> client_index(cs@, id, 0) == Some(i as int) && i < cs.len(),
        r is None ==> client_index(cs@, id, 0) is None,
{
    let mut j: usize = 0;
    while j < cs.len()
        invariant
            j <= cs.len(),
            client_index(cs@, id, 0) == client_index(cs@, id, j as int),
        decreases cs.len() - j,
    {
        if cs[j].0 == id {
            return Some(j);
        }
        j = j + 1;
    }
    None
}

impl AppState {
    /// Counts one more message on `channel`.
    pub fn increment_channel_count(&mut self, channel: MessageChannel)
        requires
            can_increment(old(self).message_counts@, channel),
        ensures
            final(self).message_counts@ == incremented(old(self).message_counts@, channel),
            final(self).message_history@ == old(self).message_history@,
            final(self).connected_clients@ == old(self).connected_clients@,
            final(self).config == old(self).config,
    {
        match find_channel(&self.message_counts, channel) {
            Some(i) => {
                let c = self.message_counts[i].1;
                self.message_counts.set(i, (channel, c + 1));
            },
            None => {
                self.message_counts.push((channel, 1));
            },
        }
    }

    /// Records a client connection.
    pub fn add_client(&mut self, channel_id: u32, path: String)
        ensures
            final(self).connected_clients@ == old(self).connected_clients@.push((channel_id, path)),
            final(self).message_history@ == old(self).message_history@,
            final(self).message_counts@ == old(self).message_counts@,
            final(self).config == old(self).config,
    {
        self.connected_clients.push((channel_id, path));
    }

    /// Forgets every connection with the given channel id.
    pub fn remove_client(&mut self, channel_id: u32)
        ensures
            final(self).connected_clients@ == without_client(
                old(self).connected_clients@,
                channel_id,
            ),
            final(self).message_history@ == old(self).message_history@,
            final(self).message_counts@ == old(self).message_counts@,
            final(self).config == old(self).config,
    {
        let ghost cs = self.connected_clients@;
        let mut kept: Vec<(u32, String)> = Vec::new();
        let mut old_clients: Vec<(u32, String)> = Vec::new();
        std::mem::swap(&mut old_clients, &mut self.connected_clients);
        let n = old_clients.len();
        let mut k: usize = 0;
        assert(old_clients@.skip(0) =~= cs);
        while k < n
            invariant
                n == cs.len(),
                k <= n,
                old_clients@ == cs.skip(k as int),
                kept@ == without_client(cs.take(k as int), channel_id),
            decreases n - k,
        {
            let c = old_clients.remove(0);
            assert(c == cs[k as int]);
            assert(cs.skip(k as int).remove(0) =~= cs.skip(k + 1));
            assert(cs.take(k + 1).drop_last() =~= cs.take(k as int));
            if c.0 != channel_id {
                kept.push(c);
            }
            k = k + 1;
        }
        assert(cs.take(n as int) =~= cs);
        self.connected_clients = kept;
    }

    /// The path of the first client with the given channel id.
    pub fn get_client_path(&self, channel_id: u32) -> (r: Option<&str>)
        ensures
            match client_path(self.connected_clients@, channel_id) {
                Some(p) => r matches Some(s) && s@ == p,
                None => r is None,
            },
    {
        match find_client(&self.connected_clients, channel_id) {
            Some(i) => Some(self.connected_clients[i].1.as_str()),
            None => None,
        }
    }

    /// Forgets all message counts.
    pub fn clear_counts(&mut self)
        ensures
            final(self).message_counts@ == Seq::<(MessageChannel, usize)>::empty(),
            final(self).message_history@ == old(self).message_history@,
            final(self).connected_clients@ == old(self).connected_clients@,
            final(self).config == old(self).config,
    {
        self.message_counts.clear();
    }
}

/// The history after logging `entry`: the oldest entry is dropped once the
/// history would exceed `max`.
pub open spec fn pushed_history(h: Seq<MessageLogM>, entry: MessageLogM, max: usize) -> Seq<MessageLogM> {
    if h.len() + 1 > max {
        h.push(entry).drop_first()
    } else {
        h.push(entry)
    }
}

/// The entry logged for a message: its content kept only when the
/// configuration says so.
pub open spec fn log_entry(
    config: AppConfig,
    source: Seq<char>,
    channel: MessageChannel,
    message_type: MessageTypeM,
    content: Option<Seq<char>>,
    timestamp: u64,
) -> MessageLogM {
    MessageLogM {
        source,
        channel,
        message_type,
        content: if config.log_content {
            content
        } else {
            None
        },
        timestamp,
    }
}

/// Logs a message received at `timestamp`: appends it to the history
/// (dropping the oldest entry beyond the configured maximum) and counts it
/// on its channel.
pub fn log_message_at(
    state: &mut AppState,
    source: String,
    channel: MessageChannel,
    message_type: MessageType,
    content: Option<String>,
    timestamp: u64,
)
    requires
        can_increment(old(state).message_counts@, channel),
    ensures
        history_view(final(state).message_history@) == pushed_history(
            history_view(old(state).message_history@),
            log_entry(
                old(state).config,
                source@,
                channel,
                message_type@,
                opt_string(content),
                timestamp,
            ),
            old(state).config.max_history,
        ),
        final(state).message_counts@ == incremented(old(state).message_counts@, channel),
        final(state).connected_clients@ == old(state).connected_clients@,
        final(state).config == old(state).config,
{
    let kept = if state.config.log_content {
        content
    } else {
        None
    };
    let ghost h0 = history_view(state.message_history@);
    let entry = MessageLog { source, channel, message_type, content: kept, timestamp };
    let ghost ev = entry@;
    state.message_history.push(entry);
    assert(history_view(state.message_history@) =~= h0.push(ev));
    state.increment_channel_count(channel);
    if state.message_history.len() > state.config.max_history {
        let ghost h = state.message_history@;
        state.message_history.remove(0);
        assert(history_view(state.message_history@) =~= history_view(h).drop_first());
    }
}

/// The clock, in whole seconds since the Unix epoch (zero if it is set
/// before the epoch). Nothing is promised of the value.
#[verifier::external_body]
fn get_timestamp() -> u64 {
    std::time::SystemTime::now().duration_since(std::time::UNIX_EPOCH).unwrap_or_default().as_secs()
}

/// Logs a message stamped with the current time (see `log_message_at`).
pub fn log_message(
    state: &mut AppState,
    source: String,
    channel: MessageChannel,
    message_type: MessageType,
    content: Option<String>,
)
    requires
        can_increment(old(state).message_counts@, channel),
    ensures
        exists|t: u64|
            history_view(final(state).message_history@) == pushed_history(
                history_view(old(state).message_history@),
                log_entry(old(state).config, source@, channel, message_type@, opt_string(content), t),
                old(state).config.max_history,
            ),
        final(state).message_counts@ == incremented(old(state).message_counts@, channel),
        final(state).connected_clients@ == old(state).connected_clients@,
        final(state).config == old(state).config,
{
    let t = get_timestamp();
    log_message_at(state, source, channel, message_type, content, t);
}

/// A client added under an id no other client has is found under that id,
/// with the path it was added with.
pub proof fn lemma_added_client_found(cs: Seq<(u32, String)>, id: u32, path: String)
    requires
        client_index(cs, id, 0) is None,
    ensures
        client_path(cs.push((id, path)), id) == Some(path@),
{
    lemma_client_index_absent(cs, id, 0);
    lemma_client_index_found(cs.push((id, path)), id, 0, cs.len() as int);
}

proof fn lemma_client_index_absent(cs: Seq<(u32, String)>, id: u32, j: int)
    requires
        0 <= j,
        client_index(cs, id, j) is None,
    ensures
        forall|k: int| j <= k < cs.len() ==> cs[k].0 != id,
    decreases cs.len() - j,
{
    if j < cs.len() {
        lemma_client_index_absent(cs, id, j + 1);
    }
}

proof fn lemma_client_index_found(cs: Seq<(u32, String)>, id: u32, j: int, k: int)
    requires
        0 <= j <= k < cs.len(),
        cs[k].0 == id,
        forall|m: int| j <= m < k ==> cs[m].0 != id,
    ensures
        client_index(cs, id, j) == Some(k),
    decreases k - j,
{
    if j < k {
        lemma_client_index_found(cs, id, j + 1, k);
    }
}

proof fn lemma_without_client_ids(cs: Seq<(u32, String)>, id: u32)
    ensures
        forall|k: int| 0 <= k < without_client(cs, id).len() ==> without_client(cs, id)[k].0 != id,
    decreases cs.len(),
{
    if cs.len() > 0 {
        lemma_without_client_ids(cs.drop_last(), id);
        let w = without_client(cs.drop_last(), id);
        if cs.last().0 != id {
            assert forall|k: int| 0 <= k < w.push(cs.last()).len() implies w.push(cs.last())[k].0
                != id by {
                if k < w.len() {
                    assert(w.push(cs.last())[k] == w[k]);
                }
            }
        }
    }
}

/// Once a client is removed, no path is found under its id.
pub proof fn lemma_removed_client_gone(cs: Seq<(u32, String)>, id: u32)
    ensures
        client_path(without_client(cs, id), id) is None,
{
    let w = without_client(cs, id);
    lemma_without_client_ids(cs, id);
    if client_index(w, id, 0) is Some {
        lemma_client_index_some(w, id, 0);
    }
}

proof fn lemma_client_index_some(cs: Seq<(u32, String)>, id: u32, j: int)
    requires
        0 <= j,
    ensures
        client_index(cs, id, j) matches Some(k) ==> j <= k < cs.len() && cs[k].0 == id,
    decreases cs.len() - j,
{
    if j < cs.len() && cs[j].0 != id {
        lemma_client_index_some(cs, id, j + 1);
    }
}

proof fn lemma_channel_index_some(c: Seq<(MessageChannel, usize)>, ch: MessageChannel, j: int)
    requires
        0 <= j,
    ensures
        channel_index(c, ch, j) matches Some(k) ==> j <= k < c.len() && c[k].0 == ch && forall|m: int|
            j <= m < k ==> c[m].0 != ch,
        channel_index(c, ch, j) is None ==> forall|m: int| j <= m < c.len() ==> c[m].0 != ch,
    decreases c.len() - j,
{
    if j < c.len() && c[j].0 != ch {
        lemma_channel_index_some(c, ch, j + 1);
    }
}

proof fn lemma_channel_index_at(c: Seq<(MessageChannel, usize)>, ch: MessageChannel, j: int, k: int)
    requires
        0 <= j <= k < c.len(),
        c[k].0 == ch,
        forall|m: int| j <= m < k ==> c[m].0 != ch,
    ensures
        channel_index(c, ch, j) == Some(k),
    decreases k - j,
{
    if j < k {
        lemma_channel_index_at(c, ch, j + 1, k);
    }
}

proof fn lemma_channel_index_none(c: Seq<(MessageChannel, usize)>, ch: MessageChannel, j: int)
    requires
        0 <= j,
        forall|m: int| j <= m < c.len() ==> c[m].0 != ch,
    ensures
        channel_index(c, ch, j) is None,
    decreases c.len() - j,
{
    if j < c.len() {
        lemma_channel_index_none(c, ch, j + 1);
    }
}

/// Counting a message on a channel raises that channel's count by one and
/// leaves every other channel's count as it was.
pub proof fn lemma_increment_counts(c: Seq<(MessageChannel, usize)>, ch: MessageChannel, other: MessageChannel)
    requires
        can_increment(c, ch),
    ensures
        count_of(incremented(c, ch), ch) == count_of(c, ch) + 1,
        other != ch ==> count_of(incremented(c, ch), other) == count_of(c, other),
{
    let n = incremented(c, ch);
    lemma_channel_index_some(c, ch, 0);
    lemma_channel_index_some(c, other, 0);
    match channel_index(c, ch, 0) {
        Some(i) => {
            assert forall|m: int| 0 <= m < i implies n[m].0 != ch by {
                assert(n[m] == c[m]);
            }
            lemma_channel_index_at(n, ch, 0, i);
            if other != ch {
                match channel_index(c, other, 0) {
                    Some(k) => {
                        assert forall|m: int| 0 <= m < k implies n[m].0 != other by {
                            if m != i {
                                assert(n[m] == c[m]);
                            }
                        }
                        lemma_channel_index_at(n, other, 0, k);
                    },
                    None => {
                        assert forall|m: int| 0 <= m < n.len() implies n[m].0 != other by {
                            if m != i {
                                assert(n[m] == c[m]);
                            }
                        }
                        lemma_channel_index_none(n, other, 0);
                    },
                }
            }
        },
        None => {
            assert forall|m: int| 0 <= m < c.len() implies n[m].0 != ch by {
                assert(n[m] == c[m]);
            }
            lemma_channel_index_at(n, ch, 0, c.len() as int);
            if other != ch {
                match channel_index(c, other, 0) {
                    Some(k) => {
                        assert forall|m: int| 0 <= m < k implies n[m].0 != other by {
                            assert(n[m] == c[m]);
                        }
                        lemma_channel_index_at(n, other, 0, k);
                    },
                    None => {
                        assert forall|m: int| 0 <= m < n.len() implies n[m].0 != other by {
                            if m < c.len() {
                                assert(n[m] == c[m]);
                            }
                        }
                        lemma_channel_index_none(n, other, 0);
                    },
                }
            }
        },
    }
}

/// Each channel has at most one count entry.
pub open spec fn channels_unique(c: Seq<(MessageChannel, usize)>) -> bool {
    forall|i: int, j: int| 0 <= i < j < c.len() ==> c[i].0 != c[j].0
}

/// Counting a message keeps at most one entry per channel: the channel's
/// entry is raised in place, or `(channel, 1)` is appended when it had none;
/// every other entry stays where and as it was.
pub proof fn lemma_increment_keeps_entries(c: Seq<(MessageChannel, usize)>, ch: MessageChannel)
    requires
        channels_unique(c),
        can_increment(c, ch),
    ensures
        channels_unique(incremented(c, ch)),
        channel_index(c, ch, 0) is None ==> incremented(c, ch) == c.push((ch, 1usize)),
        channel_index(c, ch, 0) matches Some(i) ==> incremented(c, ch).len() == c.len() && incremented(
            c,
            ch,
        )[i] == (ch, (c[i].1 + 1) as usize),
        forall|m: int| 0 <= m < c.len() && c[m].0 != ch ==> #[trigger] incremented(c, ch)[m] == c[m],
{
    let n = incremented(c, ch);
    lemma_channel_index_some(c, ch, 0);
    match channel_index(c, ch, 0) {
        Some(i) => {
            assert forall|a: int, b: int| 0 <= a < b < n.len() implies n[a].0 != n[b].0 by {
                if a != i && b != i {
                    assert(n[a] == c[a] && n[b] == c[b]);
                } else if a == i {
                    assert(n[b] == c[b]);
                    assert(c[a].0 == ch);
                } else {
                    assert(n[a] == c[a]);
                    assert(c[b].0 == ch);
                }
            }
        },
        None => {
            assert forall|a: int, b: int| 0 <= a < b < n.len() implies n[a].0 != n[b].0 by {
                if b < c.len() {
                    assert(n[a] == c[a] && n[b] == c[b]);
                } else {
                    assert(n[a] == c[a]);
                    assert(c[a].0 != ch);
                }
            }
        },
    }
}

/// A history within the configured maximum stays within it when a message
/// is logged.
pub proof fn lemma_history_bounded(h: Seq<MessageLogM>, entry: MessageLogM, max: usize)
    requires
        h.len() <= max,
    ensures
        pushed_history(h, entry, max).len() <= max,
        max > 0 ==> pushed_history(h, entry, max).last() == entry,
{
}

} // verus!
