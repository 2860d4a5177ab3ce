use afkttv::socket::Client;
use afkttv::websocket::irc::{
    classify, keepalive, parse_msg, react, ChatMessage, Event, Reaction, StateChanged, StateKind,
};
use afkttv::websocket::parse_incoming_irc;

fn report(text: &str) -> Reaction {
    Reaction { reply: None, report: text.to_string() }
}

fn pong() -> Reaction {
    Reaction {
        reply: Some("PONG".to_string()),
        report: "[+] Client response to server PING ok.".to_string(),
    }
}

#[test]
fn a_liveness_request_is_answered() {
    assert_eq!(react(&Event::KeepaliveRequest), pong());
    assert_eq!(keepalive(true), pong());
}

#[test]
fn a_liveness_answer_is_only_reported() {
    let expected = report("[+] Server response to client PING (handshake ok).");
    assert_eq!(react(&Event::KeepaliveAck), expected);
    assert_eq!(keepalive(false), expected);
}

#[test]
fn a_chat_message_is_reported() {
    let message =
        ChatMessage::new("Alice".to_string(), "bob".to_string(), "hello world".to_string());
    assert_eq!(message.report(), "[+] <[in '#Alice'][from '/bob']> -> 'hello world'");
    assert_eq!(
        react(&Event::ChatMessage(message)),
        report("[+] <[in '#Alice'][from '/bob']> -> 'hello world'")
    );
}

#[test]
fn a_state_notice_is_reported() {
    let a = || Some("Alice".to_string());
    let b = || Some("bob".to_string());
    let both = StateChanged::new(StateKind::UserState, a(), b());
    assert_eq!(both.report(), "[*] New state: USERSTATE - in '#bob' - for '/Alice'");
    let chatter = StateChanged::new(StateKind::GlobalUserState, a(), None);
    assert_eq!(chatter.report(), "[*] New state: GLOBALUSERSTATE - for '/Alice'");
    let channel = StateChanged::new(StateKind::UserState, None, b());
    assert_eq!(channel.report(), "[*] New state: USERSTATE - in '#bob'");
    let neither = StateChanged::new(StateKind::RoomState, None, None);
    assert_eq!(neither.report(), "[*] New state: ROOMSTATE");
    assert_eq!(react(&Event::StateChanged(neither)), report("[*] New state: ROOMSTATE"));
}

#[test]
fn an_unclassified_line_is_reported_as_it_came() {
    let event = Event::Unclassified { raw_line: "some random server notice".to_string() };
    assert_eq!(react(&event), report("some random server notice"));
}

#[test]
fn a_frame_is_reacted_to_line_by_line() {
    let frame = ":tmi.twitch.tv 001 alice :Welcome, GLHF!\r\n\
                 PING :tmi.twitch.tv\r\n\
                 @display-name=Alice;id=1 :alice!alice@alice.tmi.twitch.tv PRIVMSG #bob :hi\r\n";
    assert_eq!(
        parse_msg(frame),
        vec![
            report(":tmi.twitch.tv 001 alice :Welcome, GLHF!"),
            pong(),
            report("[+] <[in '#Alice'][from '/bob']> -> 'hi'"),
        ]
    );
    assert_eq!(parse_msg(""), vec![]);
    for line in ["PING :tmi.twitch.tv", "PONG :tmi.twitch.tv", "x", "a PRIVMSG b"] {
        assert_eq!(parse_msg(line), vec![react(&classify(line))]);
    }
}

/// A transport that hands out the frames it was given, one after the other,
/// and keeps what is sent through it.
struct Scripted {
    frames: Vec<&'static str>,
    next: usize,
    sent: Vec<String>,
}

impl Scripted {
    fn receive(&mut self) -> Option<&'static str> {
        let frame = self.frames.get(self.next).copied();
        self.next += 1;
        frame
    }
}

#[test]
fn a_ping_is_answered_once_before_the_next_frame() {
    let mut transport = Scripted {
        frames: vec![
            ":tmi.twitch.tv CAP * ACK :twitch.tv/tags twitch.tv/commands\r\n",
            ":tmi.twitch.tv 001 alice :Welcome, GLHF!\r\n",
            "PING :tmi.twitch.tv\r\n",
            "@display-name=Alice;id=1 :alice!alice@alice.tmi.twitch.tv PRIVMSG #bob :hi\r\n",
        ],
        next: 0,
        sent: Vec::new(),
    };
    let mut sent_after_frame = Vec::new();
    while let Some(frame) = transport.receive() {
        for reaction in parse_msg(frame) {
            if let Some(reply) = reaction.reply {
                transport.sent.push(reply);
            }
        }
        sent_after_frame.push(transport.sent.len());
    }
    assert_eq!(transport.sent, vec!["PONG".to_string()]);
    assert_eq!(sent_after_frame, vec![0, 0, 1, 1]);
}

#[test]
fn outgoing_lines_are_reported_unless_they_carry_the_token() {
    let join = Client::write_socket("JOIN #bob");
    assert_eq!(join.message, "JOIN #bob");
    assert_eq!(join.report, Some("[+] Send: 'JOIN #bob'".to_string()));
    let pass = Client::write_socket("PASS oauth:s3cr3t");
    assert_eq!(pass.message, "PASS oauth:s3cr3t");
    assert_eq!(pass.report, None);
    let empty = Client::write_socket("");
    assert_eq!(empty.message, "");
    assert_eq!(empty.report, Some("[+] Send: ''".to_string()));
}

#[test]
fn every_line_of_a_frame_is_reacted_to() {
    assert_eq!(parse_incoming_irc("PING :tmi.twitch.tv"), vec![pong()]);
    assert_eq!(parse_incoming_irc("PING :tmi.twitch.tv\r\n"), vec![pong()]);
    assert_eq!(parse_incoming_irc("  PING :tmi.twitch.tv \r\n"), vec![pong()]);
    assert_eq!(
        parse_incoming_irc("PONG :tmi.twitch.tv\r\n"),
        vec![report("[+] Server response to client PING (handshake ok).")]
    );
    assert_eq!(
        parse_incoming_irc(":tmi.twitch.tv 001 alice :Welcome, GLHF!\r\nPING :tmi.twitch.tv\r\n"),
        vec![report(":tmi.twitch.tv 001 alice :Welcome, GLHF!"), pong()]
    );
    assert_eq!(
        parse_incoming_irc("PING :tmi.twitch.tv\r\nmore\r\nPING :tmi.twitch.tv"),
        vec![pong(), report("more"), pong()]
    );
}

#[test]
fn white_space_around_a_line_is_set_aside() {
    assert_eq!(
        parse_incoming_irc(" a \r\n b\r\n\r\n \t \r\n\tPING :tmi.twitch.tv\r\n"),
        vec![report("a"), report("b"), pong()]
    );
    assert_eq!(parse_incoming_irc(""), vec![]);
    assert_eq!(parse_incoming_irc(" \r\n \r\n"), vec![]);
    assert_eq!(
        parse_incoming_irc("@display-name=Alice;id=1 :alice PRIVMSG #bob :hi there  \r\n"),
        vec![report("[+] <[in '#Alice'][from '/bob']> -> 'hi there'")]
    );
}

#[test]
fn a_frame_of_bare_lines_is_read_the_same_both_ways() {
    let frames = [
        "PING :tmi.twitch.tv\r\n",
        ":tmi.twitch.tv 001 alice :Welcome, GLHF!\r\nPING :tmi.twitch.tv\r\nPONG :tmi.twitch.tv",
        "@display-name=Alice;id=1 :tmi.twitch.tv USERSTATE #bob\r\nnotice\r\n",
    ];
    for frame in frames {
        assert_eq!(parse_incoming_irc(frame), parse_msg(frame));
    }
}
