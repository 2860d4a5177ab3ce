use afkttv::config::{Auth, Config};
use afkttv::util::{URL_CHAT, URL_EVNT};
use afkttv::websocket::irc::{login_lines, open_irc, Irc, REQ};
use afkttv::websocket::login::{login, Login, LoginStep};
use afkttv::websocket::{open_conn, WebsocketClient};

fn credentials() -> Auth {
    Auth { auth: "s3cr3t".to_string(), user: "alice".to_string() }
}

fn five_lines() -> Vec<String> {
    vec![
        "CAP REQ :twitch.tv/tags twitch.tv/commands".to_string(),
        "PASS oauth:s3cr3t".to_string(),
        "NICK alice".to_string(),
        "USER alice 8 * :alice".to_string(),
        "JOIN #bob".to_string(),
    ]
}

/// Runs a login against a transport whose sends turn out as `outcomes` tells,
/// and hands back what was sent and the step at which the login stopped.
fn run(login: &mut Login, outcomes: &[bool]) -> (Vec<String>, LoginStep) {
    let mut sent = Vec::new();
    let mut outcomes = outcomes.iter();
    loop {
        match login.step() {
            LoginStep::Send(line) => match outcomes.next() {
                Some(delivered) => {
                    sent.push(line);
                    login.record(*delivered);
                }
                None => return (sent, login.step()),
            },
            last => return (sent, last),
        }
    }
}

#[test]
fn login_sends_five_lines_in_order() {
    let mut machine = login(&credentials(), "bob");
    let (sent, last) = run(&mut machine, &[true; 5]);
    assert_eq!(sent, five_lines());
    assert_eq!(last, LoginStep::Done);
}

#[test]
fn login_sends_nothing_after_it_is_done() {
    let mut machine = login(&credentials(), "bob");
    let (sent, last) = run(&mut machine, &[true; 9]);
    assert_eq!(sent, five_lines());
    assert_eq!(last, LoginStep::Done);
    machine.record(true);
    machine.record(false);
    assert_eq!(machine.step(), LoginStep::Done);
}

#[test]
fn login_stops_at_the_first_failed_send() {
    for failing in 0..5usize {
        let mut outcomes = vec![true; 5];
        outcomes[failing] = false;
        let mut machine = login(&credentials(), "bob");
        let (sent, last) = run(&mut machine, &outcomes);
        assert_eq!(sent, five_lines()[..failing + 1].to_vec());
        assert_eq!(last, LoginStep::Aborted);
        machine.record(true);
        assert_eq!(machine.step(), LoginStep::Aborted);
    }
}

#[test]
fn login_waits_for_each_send() {
    let machine = login(&credentials(), "bob");
    assert_eq!(machine.step(), LoginStep::Send(five_lines()[0].clone()));
    assert_eq!(machine.step(), LoginStep::Send(five_lines()[0].clone()));
    let mut machine = machine;
    machine.record(true);
    assert_eq!(machine.step(), LoginStep::Send(five_lines()[1].clone()));
}

#[test]
fn login_lines_of_an_account() {
    let irc = login_lines("s3cr3t", "alice", "bob");
    assert_eq!(irc.auth, "PASS oauth:s3cr3t");
    assert_eq!(irc.nick, "NICK alice");
    assert_eq!(irc.user, "USER alice 8 * :alice");
    assert_eq!(irc.channel, "JOIN #bob");
    assert_eq!(irc.irc_init(), five_lines());
    let config = Config { authorization: credentials() };
    assert_eq!(open_irc(&config, "bob"), irc);
    assert_eq!(Login::new(&irc).step(), LoginStep::Send(REQ.to_string()));
}

#[test]
fn irc_keeps_its_lines() {
    let irc = Irc::new("n".to_string(), "u".to_string(), "c".to_string(), "a".to_string());
    assert_eq!((irc.nick.as_str(), irc.user.as_str()), ("n", "u"));
    assert_eq!((irc.channel.as_str(), irc.auth.as_str()), ("c", "a"));
    let lines = irc.irc_init();
    assert_eq!(lines, vec![REQ, "a", "n", "u", "c"]);
}

#[test]
fn client_joins_its_own_channel() {
    let config = Config { authorization: credentials() };
    let client = open_conn(&config);
    assert_eq!(client.auth, "PASS oauth:s3cr3t");
    assert_eq!(client.nick, "NICK alice");
    assert_eq!(client.user, "USER alice 8 * :alice");
    assert_eq!(client.channel, "JOIN #alice");
}

#[test]
fn client_opens_the_chat_with_the_login() {
    let client = WebsocketClient::new(
        "NICK alice".to_string(),
        "USER alice 8 * :alice".to_string(),
        "JOIN #bob".to_string(),
        "PASS oauth:s3cr3t".to_string(),
    );
    assert!(WebsocketClient::knows(URL_CHAT));
    assert!(WebsocketClient::knows(URL_EVNT));
    assert!(!WebsocketClient::knows("wss://example.org/"));
    assert!(!WebsocketClient::knows(""));
    assert_eq!(client.open_connection(URL_CHAT), five_lines());
    assert_eq!(client.open_connection(URL_EVNT), Vec::<String>::new());
}
