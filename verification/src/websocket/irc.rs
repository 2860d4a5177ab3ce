//! The chat protocol proper: the events a line can stand for, how a line is
//! told apart, and what the client does about each event.

use crate::config::Config;
use crate::text::{
    begins_with, find, frame_lines, has_occurrence, is_line, join, lemma_frame_lines_of_joined,
    line_break, same_text, split_lines, to_chars,
};
use vstd::prelude::*;

verus! {

/// The line that answers a liveness request of the server.
pub const KEEPALIVE_PONG: &'static str = "PONG";

/// The line that asks the server for a sign of life.
pub const KEEPALIVE_PING: &'static str = "PING";

/// The capability request that opens every login.
pub const REQ: &'static str = "CAP REQ :twitch.tv/tags twitch.tv/commands";

/// How a liveness request of the server begins.
pub const PING_LINE: &'static str = "PING :tmi.twitch.tv";

/// How the server's answer to a liveness request of ours begins.
pub const PONG_LINE: &'static str = "PONG :tmi.twitch.tv";

/// The command word of a chat message.
pub const PRIVMSG: &'static str = "PRIVMSG";

/// Chat message: the value of the display-name tag, which ends where the
/// next tag or the end of the tags begins, the channel after `PRIVMSG #`, and
/// the text behind the ` :` that follows the channel.
pub const CHAT_PATTERN: &'static str =
    "^.*?display-name=(?P<chatter>[^; ]+).*? PRIVMSG #(?P<channel>\\w+) :(?P<content>.*)";

/// State notice: the command word that follows the server's prefix.
pub const STATE_PATTERN: &'static str = "^.*? :tmi.twitch.tv (?P<state_type>\\w+)";

/// The value of the display-name tag.
pub const CHATTER_PATTERN: &'static str = "^.*?display-name=(?P<chatter>[^; ]+).*";

/// The word behind the first ` #`.
pub const CHANNEL_PATTERN: &'static str = "^.*? #(?P<channel>\\w+)";

/// The groups that `pattern`, read as a regular expression, captures at its
/// first match in `text`: group 0 is the whole match, the others follow in the
/// order of their opening parentheses, and a group that took no part in the
/// match is `None`. The result is `None` where the expression matches nowhere
/// in `text`, or where `pattern` is no regular expression at all.
pub uninterp spec fn pattern_captures(pattern: Seq<char>, text: Seq<char>) -> Option<
    Seq<Option<Seq<char>>>,
>;

/// Compiles `pattern` with `regex::Regex::new` and searches `text` with
/// `Regex::captures`, handing out the text of every group as
/// `Captures::iter` yields them. Nothing is claimed about what a given
/// expression matches: the result is only given its name,
/// [`pattern_captures`], as it depends on the two arguments alone.
#[verifier::external_body]
fn captures(pattern: &str, text: &str) -> (groups: Option<Vec<Option<String>>>)
    ensures
        groups.deep_view() == pattern_captures(pattern@, text@),
{
    let expression = regex::Regex::new(pattern).ok()?;
    let found = expression.captures(text)?;
    Some(found.iter().map(|group| group.map(|m| m.as_str().to_string())).collect())
}

/// The three notices by which the server tells that a state has changed.
#[derive(Clone, Copy, Debug, PartialEq, Eq, Structural)]
pub enum StateKind {
    /// The client has connected to the server.
    GlobalUserState,
    /// The client has joined a channel, or the channel's settings changed.
    RoomState,
    /// A user has joined a channel, or the client has posted a message.
    UserState,
}

/// Why a line that announces a chat message or a state notice could not be
/// taken apart.
#[derive(Clone, Copy, Debug, PartialEq, Eq, Structural)]
pub enum ParseError {
    /// A chat message lacks its display name, its channel or its content.
    MalformedChat,
    /// A state notice lacks the command word behind the server's prefix.
    MalformedState,
    /// The command word of a state notice is none of the three state keywords.
    UnknownState,
    /// A state notice that names a user lacks the display name.
    MissingChatter,
    /// A state notice that names a channel lacks the channel.
    MissingChannel,
}

/// A message that a user posted in a channel.
#[derive(Clone, Debug, PartialEq, Eq)]
pub struct ChatMessage {
    pub chatter: String,
    pub channel: String,
    pub content: String,
}

/// What a [`ChatMessage`] holds.
pub struct ChatMessageView {
    pub chatter: Seq<char>,
    pub channel: Seq<char>,
    pub content: Seq<char>,
}

impl View for ChatMessage {
    type V = ChatMessageView;

    open spec fn view(&self) -> ChatMessageView {
        ChatMessageView { chatter: self.chatter@, channel: self.channel@, content: self.content@ }
    }
}

impl ChatMessage {
    pub fn new(chatter: String, channel: String, content: String) -> (message: Self)
        ensures
            message@ == (ChatMessageView {
                chatter: chatter@,
                channel: channel@,
                content: content@,
            }),
    {
        Self { chatter, channel, content }
    }
}

/// A notice that a state has changed, with the user and the channel it is
/// about where its kind carries them.
#[derive(Clone, Debug, PartialEq, Eq)]
pub struct StateChanged {
    pub state_kind: StateKind,
    pub chatter: Option<String>,
    pub channel: Option<String>,
}

/// What a [`StateChanged`] holds.
pub struct StateChangedView {
    pub state_kind: StateKind,
    pub chatter: Option<Seq<char>>,
    pub channel: Option<Seq<char>>,
}

impl View for StateChanged {
    type V = StateChangedView;

    open spec fn view(&self) -> StateChangedView {
        StateChangedView {
            state_kind: self.state_kind,
            chatter: self.chatter.deep_view(),
            channel: self.channel.deep_view(),
        }
    }
}

impl StateChanged {
    pub fn new(state_kind: StateKind, chatter: Option<String>, channel: Option<String>) -> (notice:
        Self)
        ensures
            notice@ == (StateChangedView {
                state_kind,
                chatter: chatter.deep_view(),
                channel: channel.deep_view(),
            }),
    {
        Self { state_kind, chatter, channel }
    }
}

/// What one protocol line stands for.
#[derive(Clone, Debug, PartialEq, Eq)]
pub enum Event {
    /// A user posted a message.
    ChatMessage(ChatMessage),
    /// The server announced a change of state.
    StateChanged(StateChanged),
    /// The server asks for a sign of life.
    KeepaliveRequest,
    /// The server has answered a liveness request of ours.
    KeepaliveAck,
    /// Any other line, kept as it came.
    Unclassified { raw_line: String },
}

/// What an [`Event`] holds.
pub enum EventView {
    ChatMessage(ChatMessageView),
    StateChanged(StateChangedView),
    KeepaliveRequest,
    KeepaliveAck,
    Unclassified { raw_line: Seq<char> },
}

impl View for Event {
    type V = EventView;

    open spec fn view(&self) -> EventView {
        match self {
            Event::ChatMessage(message) => EventView::ChatMessage(message@),
            Event::StateChanged(notice) => EventView::StateChanged(notice@),
            Event::KeepaliveRequest => EventView::KeepaliveRequest,
            Event::KeepaliveAck => EventView::KeepaliveAck,
            Event::Unclassified { raw_line } => EventView::Unclassified { raw_line: raw_line@ },
        }
    }
}

/// The keyword by which a state notice of this kind is told.
pub open spec fn kind_keyword(kind: StateKind) -> Seq<char> {
    match kind {
        StateKind::GlobalUserState => "GLOBALUSERSTATE"@,
        StateKind::RoomState => "ROOMSTATE"@,
        StateKind::UserState => "USERSTATE"@,
    }
}

/// The kind of state notice that `word` is the keyword of.
pub open spec fn keyword_kind(word: Seq<char>) -> Option<StateKind> {
    if word == "GLOBALUSERSTATE"@ {
        Some(StateKind::GlobalUserState)
    } else if word == "ROOMSTATE"@ {
        Some(StateKind::RoomState)
    } else if word == "USERSTATE"@ {
        Some(StateKind::UserState)
    } else {
        None
    }
}

/// A notice of this kind names the user it is about.
pub open spec fn carries_chatter(kind: StateKind) -> bool {
    kind is GlobalUserState || kind is UserState
}

/// A notice of this kind names the channel it is about.
pub open spec fn carries_channel(kind: StateKind) -> bool {
    kind is UserState
}

impl StateKind {
    /// The keyword by which a notice of this kind is told.
    pub fn keyword(self) -> (word: &'static str)
        ensures
            word@ == kind_keyword(self),
    {
        match self {
            StateKind::GlobalUserState => "GLOBALUSERSTATE",
            StateKind::RoomState => "ROOMSTATE",
            StateKind::UserState => "USERSTATE",
        }
    }

    /// The kind whose keyword is `word`, if it is one of the three.
    pub fn from_keyword(word: &str) -> (kind: Option<StateKind>)
        ensures
            kind == keyword_kind(word@),
    {
        if same_text(word, "GLOBALUSERSTATE") {
            Some(StateKind::GlobalUserState)
        } else if same_text(word, "ROOMSTATE") {
            Some(StateKind::RoomState)
        } else if same_text(word, "USERSTATE") {
            Some(StateKind::UserState)
        } else {
            None
        }
    }

    /// Whether a notice of this kind names the user it is about.
    pub fn has_chatter(self) -> (carries: bool)
        ensures
            carries == carries_chatter(self),
    {
        match self {
            StateKind::GlobalUserState => true,
            StateKind::RoomState => false,
            StateKind::UserState => true,
        }
    }

    /// Whether a notice of this kind names the channel it is about.
    pub fn has_channel(self) -> (carries: bool)
        ensures
            carries == carries_channel(self),
    {
        match self {
            StateKind::GlobalUserState => false,
            StateKind::RoomState => false,
            StateKind::UserState => true,
        }
    }
}

/// The text that group `index` took, where the expression matched and the
/// group took part in the match.
pub open spec fn group_text(groups: Option<Seq<Option<Seq<char>>>>, index: int) -> Option<
    Seq<char>,
> {
    match groups {
        Some(found) if 0 <= index < found.len() => found[index],
        _ => None,
    }
}

/// The chat message that the groups of [`CHAT_PATTERN`] make: the display
/// name, the channel and the content, all three of which must be there.
pub open spec fn chat_of(groups: Option<Seq<Option<Seq<char>>>>) -> Result<
    ChatMessageView,
    ParseError,
> {
    match (group_text(groups, 1), group_text(groups, 2), group_text(groups, 3)) {
        (Some(chatter), Some(channel), Some(content)) => Ok(
            ChatMessageView { chatter, channel, content },
        ),
        _ => Err(ParseError::MalformedChat),
    }
}

/// The kind of notice that the groups of [`STATE_PATTERN`] tell: the command
/// word must be there and be one of the three state keywords.
pub open spec fn state_kind_of(groups: Option<Seq<Option<Seq<char>>>>) -> Result<
    StateKind,
    ParseError,
> {
    match group_text(groups, 1) {
        None => Err(ParseError::MalformedState),
        Some(word) => match keyword_kind(word) {
            Some(kind) => Ok(kind),
            None => Err(ParseError::UnknownState),
        },
    }
}

/// The notice of the given kind about the user and the channel found in the
/// line. What the kind carries must have been found, the user first; what it
/// does not carry is left out of the notice, found or not.
pub open spec fn state_of(
    kind: StateKind,
    chatter: Option<Seq<char>>,
    channel: Option<Seq<char>>,
) -> Result<StateChangedView, ParseError> {
    if carries_chatter(kind) && chatter is None {
        Err(ParseError::MissingChatter)
    } else if carries_channel(kind) && channel is None {
        Err(ParseError::MissingChannel)
    } else {
        Ok(
            StateChangedView {
                state_kind: kind,
                chatter: if carries_chatter(kind) {
                    chatter
                } else {
                    None
                },
                channel: if carries_channel(kind) {
                    channel
                } else {
                    None
                },
            },
        )
    }
}

/// The chat message that a line holds.
pub open spec fn chat_message(line: Seq<char>) -> Result<ChatMessageView, ParseError> {
    chat_of(pattern_captures(CHAT_PATTERN@, line))
}

/// The state notice that a line holds.
pub open spec fn state_notice(line: Seq<char>) -> Result<StateChangedView, ParseError> {
    match state_kind_of(pattern_captures(STATE_PATTERN@, line)) {
        Err(error) => Err(error),
        Ok(kind) => state_of(
            kind,
            group_text(pattern_captures(CHATTER_PATTERN@, line), 1),
            group_text(pattern_captures(CHANNEL_PATTERN@, line), 1),
        ),
    }
}

/// One of the three state keywords stands somewhere in the line.
pub open spec fn mentions_state(line: Seq<char>) -> bool {
    ||| has_occurrence(line, kind_keyword(StateKind::GlobalUserState))
    ||| has_occurrence(line, kind_keyword(StateKind::RoomState))
    ||| has_occurrence(line, kind_keyword(StateKind::UserState))
}

/// What a line stands for, by the first rule that applies: a liveness
/// request, the answer to one, a chat message, a state notice, and else the
/// line itself. A chat message or state notice that cannot be taken apart is
/// an error.
pub open spec fn classification(line: Seq<char>) -> Result<EventView, ParseError> {
    if PING_LINE@.is_prefix_of(line) {
        Ok(EventView::KeepaliveRequest)
    } else if PONG_LINE@.is_prefix_of(line) {
        Ok(EventView::KeepaliveAck)
    } else if has_occurrence(line, PRIVMSG@) {
        match chat_message(line) {
            Ok(message) => Ok(EventView::ChatMessage(message)),
            Err(error) => Err(error),
        }
    } else if mentions_state(line) {
        match state_notice(line) {
            Ok(notice) => Ok(EventView::StateChanged(notice)),
            Err(error) => Err(error),
        }
    } else {
        Ok(EventView::Unclassified { raw_line: line })
    }
}

/// The event that a line yields: its classification, and the line itself,
/// unclassified, where that is an error.
pub open spec fn classified(line: Seq<char>) -> EventView {
    match classification(line) {
        Ok(event) => event,
        Err(_) => EventView::Unclassified { raw_line: line },
    }
}

/// The text that group `index` took.
pub fn group(groups: &Option<Vec<Option<String>>>, index: usize) -> (text: Option<String>)
    ensures
        text.deep_view() == group_text(groups.deep_view(), index as int),
{
    match groups {
        Some(found) => {
            if index < found.len() {
                match &found[index] {
                    Some(taken) => Some(taken.clone()),
                    None => None,
                }
            } else {
                None
            }
        },
        None => None,
    }
}

/// The chat message that the groups of [`CHAT_PATTERN`] make.
pub fn chat_from_groups(groups: &Option<Vec<Option<String>>>) -> (message: Result<
    ChatMessage,
    ParseError,
>)
    ensures
        match message {
            Ok(found) => chat_of(groups.deep_view()) == Ok::<ChatMessageView, ParseError>(found@),
            Err(error) => chat_of(groups.deep_view()) == Err::<ChatMessageView, ParseError>(error),
        },
{
    let chatter = group(groups, 1);
    let channel = group(groups, 2);
    let content = group(groups, 3);
    match (chatter, channel, content) {
        (Some(chatter), Some(channel), Some(content)) => Ok(
            ChatMessage::new(chatter, channel, content),
        ),
        _ => Err(ParseError::MalformedChat),
    }
}

/// The kind of notice that the groups of [`STATE_PATTERN`] tell.
pub fn state_kind_from_groups(groups: &Option<Vec<Option<String>>>) -> (kind: Result<
    StateKind,
    ParseError,
>)
    ensures
        kind == state_kind_of(groups.deep_view()),
{
    match group(groups, 1) {
        None => Err(ParseError::MalformedState),
        Some(word) => match StateKind::from_keyword(word.as_str()) {
            Some(kind) => Ok(kind),
            None => Err(ParseError::UnknownState),
        },
    }
}

/// The notice of the given kind about the user and the channel found in the
/// line.
pub fn state_from_parts(kind: StateKind, chatter: Option<String>, channel: Option<String>) -> (notice:
    Result<StateChanged, ParseError>)
    ensures
        match notice {
            Ok(found) => state_of(kind, chatter.deep_view(), channel.deep_view()) == Ok::<
                StateChangedView,
                ParseError,
            >(found@),
            Err(error) => state_of(kind, chatter.deep_view(), channel.deep_view()) == Err::<
                StateChangedView,
                ParseError,
            >(error),
        },
{
    if kind.has_chatter() && chatter.is_none() {
        Err(ParseError::MissingChatter)
    } else if kind.has_channel() && channel.is_none() {
        Err(ParseError::MissingChannel)
    } else {
        let chatter = if kind.has_chatter() {
            chatter
        } else {
            None
        };
        let channel = if kind.has_channel() {
            channel
        } else {
            None
        };
        Ok(StateChanged::new(kind, chatter, channel))
    }
}

/// The chat message that the line `msg` holds.
pub fn chatroom(msg: &str) -> (message: Result<ChatMessage, ParseError>)
    ensures
        match message {
            Ok(found) => chat_message(msg@) == Ok::<ChatMessageView, ParseError>(found@),
            Err(error) => chat_message(msg@) == Err::<ChatMessageView, ParseError>(error),
        },
{
    chat_from_groups(&captures(CHAT_PATTERN, msg))
}

/// The state notice that the line `msg` holds.
pub fn curr_state(msg: &str) -> (notice: Result<StateChanged, ParseError>)
    ensures
        match notice {
            Ok(found) => state_notice(msg@) == Ok::<StateChangedView, ParseError>(found@),
            Err(error) => state_notice(msg@) == Err::<StateChangedView, ParseError>(error),
        },
{
    let kind = match state_kind_from_groups(&captures(STATE_PATTERN, msg)) {
        Ok(kind) => kind,
        Err(error) => {
            return Err(error);
        },
    };
    let chatter = if kind.has_chatter() {
        group(&captures(CHATTER_PATTERN, msg), 1)
    } else {
        None
    };
    let channel = if kind.has_channel() {
        group(&captures(CHANNEL_PATTERN, msg), 1)
    } else {
        None
    };
    state_from_parts(kind, chatter, channel)
}

/// Whether one of the three state keywords stands somewhere in the line.
pub fn names_state(line: &Vec<char>) -> (found: bool)
    ensures
        found == mentions_state(line@),
{
    find(line, &to_chars(StateKind::GlobalUserState.keyword())).is_some() || find(
        line,
        &to_chars(StateKind::RoomState.keyword()),
    ).is_some() || find(line, &to_chars(StateKind::UserState.keyword())).is_some()
}

/// What the line stands for, or why it could not be taken apart.
pub fn try_classify(line: &str) -> (event: Result<Event, ParseError>)
    ensures
        match event {
            Ok(found) => classification(line@) == Ok::<EventView, ParseError>(found@),
            Err(error) => classification(line@) == Err::<EventView, ParseError>(error),
        },
{
    let chars = to_chars(line);
    if begins_with(&chars, &to_chars(PING_LINE)) {
        Ok(Event::KeepaliveRequest)
    } else if begins_with(&chars, &to_chars(PONG_LINE)) {
        Ok(Event::KeepaliveAck)
    } else if find(&chars, &to_chars(PRIVMSG)).is_some() {
        match chatroom(line) {
            Ok(message) => Ok(Event::ChatMessage(message)),
            Err(error) => Err(error),
        }
    } else if names_state(&chars) {
        match curr_state(line) {
            Ok(notice) => Ok(Event::StateChanged(notice)),
            Err(error) => Err(error),
        }
    } else {
        Ok(Event::Unclassified { raw_line: line.to_owned() })
    }
}

/// The event that the line yields. Every line yields exactly one: a chat
/// message or state notice that cannot be taken apart is handed on
/// unclassified, as it came.
pub fn classify(line: &str) -> (event: Event)
    ensures
        event@ == classified(line@),
{
    match try_classify(line) {
        Ok(event) => event,
        Err(_) => Event::Unclassified { raw_line: line.to_owned() },
    }
}

/// The events that the lines of a frame yield, one for each line and in the
/// order of the lines.
pub open spec fn frame_events(frame: Seq<char>) -> Seq<EventView> {
    frame_lines(frame).map_values(|line: Seq<char>| classified(line))
}

/// A frame of protocol lines, with a line break between each two and with
/// or without one behind the last, yields exactly one event for each line:
/// as many events as lines, each what its line yields by itself, in the
/// order of the lines.
pub proof fn lemma_one_event_for_each_line(lines: Seq<Seq<char>>)
    requires
        forall|i: int| 0 <= i < lines.len() ==> is_line(#[trigger] lines[i]),
    ensures
        frame_events(join(lines, line_break())).len() == lines.len(),
        forall|i: int|
            0 <= i < lines.len() ==> #[trigger] frame_events(join(lines, line_break()))[i]
                == classified(lines[i]),
        frame_events(join(lines, line_break()) + line_break()) == frame_events(
            join(lines, line_break()),
        ),
{
    lemma_frame_lines_of_joined(lines);
}

/// The events of a frame: each of its lines is classified once, in order.
pub fn classify_frame(frame: &str) -> (events: Vec<Event>)
    ensures
        events.len() == frame_lines(frame@).len(),
        forall|i: int|
            0 <= i < events.len() ==> (#[trigger] events[i])@ == classified(frame_lines(frame@)[i]),
        events@.map_values(|event: Event| event@) == frame_events(frame@),
{
    let lines = split_lines(frame);
    let mut events: Vec<Event> = Vec::new();
    let mut at: usize = 0;
    while at < lines.len()
        invariant
            at <= lines.len(),
            lines.deep_view() == frame_lines(frame@),
            events.len() == at,
            forall|i: int| 0 <= i < at ==> (#[trigger] events[i])@ == classified(lines[i]@),
        decreases lines.len() - at,
    {
        events.push(classify(lines[at].as_str()));
        at += 1;
    }
    proof {
        assert forall|i: int| 0 <= i < events.len() implies (#[trigger] events[i])@ == classified(
            frame_lines(frame@)[i],
        ) by {
            assert(lines.deep_view()[i] == lines[i]@);
        }
        assert(events@.map_values(|event: Event| event@) =~= frame_events(frame@));
    }
    events
}

/// What the client does about an event: the line it sends back, if any, and
/// what it has to report.
#[derive(Clone, Debug, PartialEq, Eq)]
pub struct Reaction {
    /// The line to send through the writer before anything else happens.
    pub reply: Option<String>,
    /// The text to report.
    pub report: String,
}

/// What a [`Reaction`] holds.
pub struct ReactionView {
    pub reply: Option<Seq<char>>,
    pub report: Seq<char>,
}

impl View for Reaction {
    type V = ReactionView;

    open spec fn view(&self) -> ReactionView {
        ReactionView { reply: self.reply.deep_view(), report: self.report@ }
    }
}

/// What is reported once a liveness request of the server has been answered.
pub const PING_REPORT: &'static str = "[+] Client response to server PING ok.";

/// What is reported when the server has answered a liveness request of ours.
pub const PONG_REPORT: &'static str = "[+] Server response to client PING (handshake ok).";

/// What is reported of a chat message: its three fields in the order
/// chatter, channel, content, the first behind `#` and the second behind `/`.
pub open spec fn chat_report(message: ChatMessageView) -> Seq<char> {
    "[+] <[in '#"@ + message.chatter + "'][from '/"@ + message.channel + "']> -> '"@
        + message.content + "'"@
}

/// What is reported of a state notice: its keyword, then the channel and the
/// user as far as the notice names them.
pub open spec fn state_report(notice: StateChangedView) -> Seq<char> {
    "[*] New state: "@ + kind_keyword(notice.state_kind) + match (notice.channel, notice.chatter) {
        (Some(channel), Some(chatter)) => " - in '#"@ + channel + "' - for '/"@ + chatter + "'"@,
        (Some(channel), None) => " - in '#"@ + channel + "'"@,
        (None, Some(chatter)) => " - for '/"@ + chatter + "'"@,
        (None, None) => Seq::<char>::empty(),
    }
}

/// What the client does about a liveness line: a request of the server is
/// answered with [`KEEPALIVE_PONG`], the server's answer is only reported.
pub open spec fn keepalive_reaction(request: bool) -> ReactionView {
    if request {
        ReactionView { reply: Some(KEEPALIVE_PONG@), report: PING_REPORT@ }
    } else {
        ReactionView { reply: None, report: PONG_REPORT@ }
    }
}

/// What the client does about an event. Only a liveness request is answered;
/// every event is reported, an unclassified line as it came.
pub open spec fn reaction_to(event: EventView) -> ReactionView {
    match event {
        EventView::KeepaliveRequest => keepalive_reaction(true),
        EventView::KeepaliveAck => keepalive_reaction(false),
        EventView::ChatMessage(message) => ReactionView {
            reply: None,
            report: chat_report(message),
        },
        EventView::StateChanged(notice) => ReactionView {
            reply: None,
            report: state_report(notice),
        },
        EventView::Unclassified { raw_line } => ReactionView { reply: None, report: raw_line },
    }
}

/// What the client does about a liveness line.
pub fn keepalive(request: bool) -> (reaction: Reaction)
    ensures
        reaction@ == keepalive_reaction(request),
{
    if request {
        Reaction {
            reply: Some(String::from_str(KEEPALIVE_PONG)),
            report: String::from_str(PING_REPORT),
        }
    } else {
        Reaction { reply: None, report: String::from_str(PONG_REPORT) }
    }
}

impl ChatMessage {
    /// What is reported of this message.
    pub fn report(&self) -> (text: String)
        ensures
            text@ == chat_report(self@),
    {
        let mut text = String::from_str("[+] <[in '#");
        text.append(self.chatter.as_str());
        text.append("'][from '/");
        text.append(self.channel.as_str());
        text.append("']> -> '");
        text.append(self.content.as_str());
        text.append("'");
        text
    }
}

impl StateChanged {
    /// What is reported of this notice.
    pub fn report(&self) -> (text: String)
        ensures
            text@ == state_report(self@),
    {
        let mut text = String::from_str("[*] New state: ");
        text.append(self.state_kind.keyword());
        let ghost head = text@;
        match (&self.channel, &self.chatter) {
            (Some(channel), Some(chatter)) => {
                text.append(" - in '#");
                text.append(channel.as_str());
                text.append("' - for '/");
                text.append(chatter.as_str());
                text.append("'");
                assert(text@ =~= head + (" - in '#"@ + channel@ + "' - for '/"@ + chatter@ + "'"@));
            },
            (Some(channel), None) => {
                text.append(" - in '#");
                text.append(channel.as_str());
                text.append("'");
                assert(text@ =~= head + (" - in '#"@ + channel@ + "'"@));
            },
            (None, Some(chatter)) => {
                text.append(" - for '/");
                text.append(chatter.as_str());
                text.append("'");
                assert(text@ =~= head + (" - for '/"@ + chatter@ + "'"@));
            },
            (None, None) => {
                assert(text@ =~= head + Seq::<char>::empty());
            },
        }
        text
    }
}

/// What the client does about an event.
pub fn react(event: &Event) -> (reaction: Reaction)
    ensures
        reaction@ == reaction_to(event@),
{
    match event {
        Event::KeepaliveRequest => keepalive(true),
        Event::KeepaliveAck => keepalive(false),
        Event::ChatMessage(message) => Reaction { reply: None, report: message.report() },
        Event::StateChanged(notice) => Reaction { reply: None, report: notice.report() },
        Event::Unclassified { raw_line } => Reaction { reply: None, report: raw_line.clone() },
    }
}

/// What the client does about a frame: the reactions to the events of its
/// lines, one for each line and in the order of the lines.
pub fn parse_msg(data: &str) -> (reactions: Vec<Reaction>)
    ensures
        reactions.len() == frame_lines(data@).len(),
        forall|i: int|
            0 <= i < reactions.len() ==> (#[trigger] reactions[i])@ == reaction_to(
                classified(frame_lines(data@)[i]),
            ),
{
    let events = classify_frame(data);
    let mut reactions: Vec<Reaction> = Vec::new();
    let mut at: usize = 0;
    while at < events.len()
        invariant
            at <= events.len(),
            reactions.len() == at,
            forall|i: int| 0 <= i < at ==> (#[trigger] reactions[i])@ == reaction_to(events[i]@),
        decreases events.len() - at,
    {
        reactions.push(react(&events[at]));
        at += 1;
    }
    reactions
}

/// The four lines that, after the capability request, log a client in.
#[derive(Clone, Debug, PartialEq, Eq)]
pub struct Irc {
    /// The `NICK` line.
    pub nick: String,
    /// The `USER` line.
    pub user: String,
    /// The `JOIN` line.
    pub channel: String,
    /// The `PASS` line.
    pub auth: String,
}

/// What an [`Irc`] holds.
pub struct IrcView {
    pub nick: Seq<char>,
    pub user: Seq<char>,
    pub channel: Seq<char>,
    pub auth: Seq<char>,
}

impl View for Irc {
    type V = IrcView;

    open spec fn view(&self) -> IrcView {
        IrcView { nick: self.nick@, user: self.user@, channel: self.channel@, auth: self.auth@ }
    }
}

/// The lines that log the account `user` in with the token `auth` and join
/// `channel`.
pub open spec fn login_commands(auth: Seq<char>, user: Seq<char>, channel: Seq<char>) -> IrcView {
    IrcView {
        auth: "PASS oauth:"@ + auth,
        nick: "NICK "@ + user,
        user: "USER "@ + user + " 8 * :"@ + user,
        channel: "JOIN #"@ + channel,
    }
}

/// The five lines of a login, in the order in which they have to be sent:
/// capabilities, token, nickname, user, channel.
pub open spec fn handshake(irc: IrcView) -> Seq<Seq<char>> {
    seq![REQ@, irc.auth, irc.nick, irc.user, irc.channel]
}

impl Irc {
    pub fn new(nick: String, user: String, channel: String, auth: String) -> (irc: Self)
        ensures
            irc@ == (IrcView { nick: nick@, user: user@, channel: channel@, auth: auth@ }),
    {
        Self { nick, user, channel, auth }
    }

    /// The lines to send once the connection stands, in their order.
    pub fn irc_init(&self) -> (lines: Vec<String>)
        ensures
            lines.deep_view() == handshake(self@),
    {
        let mut lines: Vec<String> = Vec::new();
        lines.push(String::from_str(REQ));
        lines.push(self.auth.clone());
        lines.push(self.nick.clone());
        lines.push(self.user.clone());
        lines.push(self.channel.clone());
        assert(lines.deep_view() =~= handshake(self@));
        lines
    }
}

/// The login of the account `user` with the token `auth` into `channel`.
pub fn login_lines(auth: &str, user: &str, channel: &str) -> (irc: Irc)
    ensures
        irc@ == login_commands(auth@, user@, channel@),
{
    let mut pass = String::from_str("PASS oauth:");
    pass.append(auth);
    let mut nick = String::from_str("NICK ");
    nick.append(user);
    let mut name = String::from_str("USER ");
    name.append(user);
    name.append(" 8 * :");
    name.append(user);
    let mut join = String::from_str("JOIN #");
    join.append(channel);
    Irc::new(nick, name, join, pass)
}

/// The login of the configured account into `channel`.
pub fn open_irc(config: &Config, channel: &str) -> (irc: Irc)
    ensures
        irc@ == login_commands(config@.authorization.auth, config@.authorization.user, channel@),
{
    login_lines(config.authorization.auth.as_str(), config.authorization.user.as_str(), channel)
}

} // verus!
