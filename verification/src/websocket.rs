//! The chat connection: what is sent when it opens and what is made of the
//! frames that come in.

pub mod events;
pub mod irc;
pub mod login;

use crate::config::Config;
use crate::text::{
    has_occurrence, is_line, is_nonempty, join, lemma_join_push, lemma_no_occurrence,
    lemma_nonempty_pieces_keeps_lines, lemma_nonempty_pieces_push, lemma_split_undoes_join,
    line_break, nonempty_pieces, occurs_at, same_text, split, split_text, trim, trimmed,
    trimmed_end, trimmed_start, white_space,
};
use crate::util::{URL_CHAT, URL_EVNT};
use crate::websocket::irc::{
    classified, classify, handshake, login_commands, login_lines, react, reaction_to, Irc,
    IrcView, Reaction,
};
use vstd::prelude::*;

verus! {

/// A client of the chat service: the four lines that, after the capability
/// request, log it in.
#[derive(Clone, Debug, PartialEq, Eq)]
pub struct WebsocketClient {
    /// The `NICK` line.
    pub nick: String,
    /// The `USER` line.
    pub user: String,
    /// The `JOIN` line.
    pub channel: String,
    /// The `PASS` line.
    pub auth: String,
}

impl View for WebsocketClient {
    type V = IrcView;

    open spec fn view(&self) -> IrcView {
        IrcView { nick: self.nick@, user: self.user@, channel: self.channel@, auth: self.auth@ }
    }
}

/// `url` is one of the two endpoints the client knows.
pub open spec fn is_known_endpoint(url: Seq<char>) -> bool {
    url == URL_CHAT@ || url == URL_EVNT@
}

/// What the client sends once the connection to `url` stands: the five
/// lines of the login on the chat endpoint, nothing on any other.
pub open spec fn opening_lines(client: IrcView, url: Seq<char>) -> Seq<Seq<char>> {
    if url == URL_CHAT@ {
        handshake(client)
    } else {
        Seq::empty()
    }
}

impl WebsocketClient {
    pub fn new(nick: String, user: String, channel: String, auth: String) -> (client: Self)
        ensures
            client@ == (IrcView { nick: nick@, user: user@, channel: channel@, auth: auth@ }),
    {
        Self { nick, user, channel, auth }
    }

    /// Whether `url` is one of the two endpoints the client knows.
    pub fn knows(url: &str) -> (known: bool)
        ensures
            known == is_known_endpoint(url@),
    {
        same_text(url, URL_CHAT) || same_text(url, URL_EVNT)
    }

    /// The lines to send, in their order, once the connection to `url`
    /// stands. The client has nothing to say to an endpoint it does not know.
    pub fn open_connection(&self, url: &str) -> (lines: Vec<String>)
        requires
            is_known_endpoint(url@),
        ensures
            lines.deep_view() == opening_lines(self@, url@),
    {
        if same_text(url, URL_CHAT) {
            let irc = Irc::new(
                self.nick.clone(),
                self.user.clone(),
                self.channel.clone(),
                self.auth.clone(),
            );
            irc.irc_init()
        } else {
            let lines: Vec<String> = Vec::new();
            assert(lines.deep_view() =~= Seq::<Seq<char>>::empty());
            lines
        }
    }
}

/// The client of the configured account, which joins the channel of its own
/// name.
pub fn open_conn(config: &Config) -> (client: WebsocketClient)
    ensures
        client@ == login_commands(
            config@.authorization.auth,
            config@.authorization.user,
            config@.authorization.user,
        ),
{
    let name = config.authorization.user.as_str();
    let irc = login_lines(config.authorization.auth.as_str(), name, name);
    WebsocketClient::new(irc.nick, irc.user, irc.channel, irc.auth)
}

/// The pieces of a frame, read generously: the frame without the white
/// space around it is cut at the line breaks, and each piece loses the white
/// space around it in turn.
pub open spec fn trimmed_lines(data: Seq<char>) -> Seq<Seq<char>> {
    split(trimmed(data), line_break()).map_values(|piece: Seq<char>| trimmed(piece))
}

/// The lines of a frame, read generously: its trimmed pieces, the empty ones
/// left out.
pub open spec fn incoming_lines(data: Seq<char>) -> Seq<Seq<char>> {
    nonempty_pieces(trimmed_lines(data))
}

/// A protocol line with no white space at its start or at its end.
pub open spec fn is_bare_line(line: Seq<char>) -> bool {
    is_line(line) && !white_space(line.first()) && !white_space(line.last())
}

/// A frame made of bare protocol lines with a line break between each two,
/// and with or without one behind the last, is read generously as exactly
/// these lines, in their order: the white space that is set aside is that of
/// the line breaks alone.
pub proof fn lemma_incoming_lines_of_joined(lines: Seq<Seq<char>>)
    requires
        forall|i: int| 0 <= i < lines.len() ==> is_bare_line(#[trigger] lines[i]),
    ensures
        incoming_lines(join(lines, line_break())) == lines,
        incoming_lines(join(lines, line_break()) + line_break()) == lines,
{
    let mark = line_break();
    let frame = join(lines, mark);
    let closed = frame + mark;
    let nothing = Seq::<char>::empty();
    assert(white_space('\r') && white_space('\n'));
    if lines.len() == 0 {
        assert(closed =~= mark);
        assert(closed.drop_first() =~= seq!['\n']);
        assert(seq!['\n'].drop_first() =~= nothing);
        assert(trimmed_start(closed) == nothing) by {
            reveal_with_fuel(trimmed_start, 3);
        }
        assert(trimmed(closed) == nothing && trimmed(frame) == nothing);
        assert forall|at: int| !occurs_at(nothing, mark, at) by {}
        lemma_no_occurrence(nothing, mark);
        assert(trimmed_lines(frame) =~= seq![nothing]);
        assert(Seq::<Seq<char>>::empty().push(nothing) =~= seq![nothing]);
        lemma_nonempty_pieces_push(Seq::<Seq<char>>::empty(), nothing);
        lemma_nonempty_pieces_keeps_lines(Seq::<Seq<char>>::empty());
    } else {
        let last = lines.last();
        assert(is_bare_line(lines[0]) && is_bare_line(last));
        assert(frame.len() > 0 && frame.first() == lines[0].first());
        assert(frame.last() == last.last()) by {
            if lines.len() >= 2 {
                assert(lines.drop_last().push(last) =~= lines);
                lemma_join_push(lines.drop_last(), last, mark);
            }
        }
        assert(trimmed(frame) == frame);
        assert(closed.drop_last() =~= frame.push('\r'));
        assert(frame.push('\r').drop_last() =~= frame);
        assert(trimmed_end(closed) == frame) by {
            reveal_with_fuel(trimmed_end, 3);
        }
        assert(trimmed(closed) == frame);
        assert forall|i: int| 0 <= i < lines.len() implies !has_occurrence(
            #[trigger] lines[i],
            mark,
        ) by {
            assert(is_bare_line(lines[i]));
        }
        lemma_split_undoes_join(lines);
        assert forall|i: int| 0 <= i < lines.len() implies trimmed(#[trigger] lines[i])
            == lines[i] by {
            assert(is_bare_line(lines[i]));
        }
        assert(trimmed_lines(frame) =~= lines);
        assert(trimmed_lines(closed) =~= lines);
        assert forall|i: int| 0 <= i < lines.len() implies is_nonempty(#[trigger] lines[i]) by {
            assert(is_bare_line(lines[i]));
        }
        lemma_nonempty_pieces_keeps_lines(lines);
    }
}

/// What the client does about the frame `data`: the reactions to the events
/// of its lines, one for each line that is left once the white space around
/// it is gone, in the order of the lines. Every liveness request in the
/// frame is answered, wherever it stands.
pub fn parse_incoming_irc(data: &str) -> (reactions: Vec<Reaction>)
    ensures
        reactions.len() == incoming_lines(data@).len(),
        forall|i: int|
            0 <= i < reactions.len() ==> (#[trigger] reactions[i])@ == reaction_to(
                classified(incoming_lines(data@)[i]),
            ),
{
    proof {
        reveal_strlit("\r\n");
        assert("\r\n"@ =~= line_break());
    }
    let whole = trim(data);
    let pieces = split_text(whole.as_str(), "\r\n");
    let mut reactions: Vec<Reaction> = Vec::new();
    let mut at: usize = 0;
    let ghost all = trimmed_lines(data@);
    assert(all.take(0) =~= Seq::<Seq<char>>::empty());
    assert(nonempty_pieces(all.take(0)) =~= Seq::<Seq<char>>::empty());
    while at < pieces.len()
        invariant
            at <= pieces.len(),
            pieces.deep_view() == split(trimmed(data@), line_break()),
            all == trimmed_lines(data@),
            reactions.len() == nonempty_pieces(all.take(at as int)).len(),
            forall|i: int|
                0 <= i < reactions.len() ==> (#[trigger] reactions[i])@ == reaction_to(
                    classified(nonempty_pieces(all.take(at as int))[i]),
                ),
        decreases pieces.len() - at,
    {
        let line = trim(pieces[at].as_str());
        proof {
            assert(pieces.deep_view()[at as int] == pieces[at as int]@);
            assert(all[at as int] == line@);
            assert(all.take(at as int).push(line@) =~= all.take(at + 1));
            lemma_nonempty_pieces_push(all.take(at as int), line@);
        }
        if !line.as_str().is_empty() {
            reactions.push(react(&classify(line.as_str())));
        }
        at += 1;
    }
    assert(all.take(at as int) =~= all);
    reactions
}

} // verus!
