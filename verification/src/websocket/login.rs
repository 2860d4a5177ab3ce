//! The login as a machine of states: it says which line to send next, is told
//! how each send went, and stops at the first one that failed. Whoever owns
//! the transport runs it; the order of the lines is decided here.

use crate::config::Auth;
use crate::websocket::irc::{handshake, login_commands, login_lines, Irc, REQ};
use vstd::prelude::*;

verus! {

/// What a login asks of the transport next.
#[derive(Clone, Debug, PartialEq, Eq)]
pub enum LoginStep {
    /// Send this line and tell how it went.
    Send(String),
    /// Every line has been sent: the client is logged in.
    Done,
    /// A send failed: the login is given up and nothing more is sent.
    Aborted,
}

/// What a [`LoginStep`] holds.
pub enum LoginStepView {
    Send(Seq<char>),
    Done,
    Aborted,
}

impl View for LoginStep {
    type V = LoginStepView;

    open spec fn view(&self) -> LoginStepView {
        match self {
            LoginStep::Send(line) => LoginStepView::Send(line@),
            LoginStep::Done => LoginStepView::Done,
            LoginStep::Aborted => LoginStepView::Aborted,
        }
    }
}

/// A login under way.
#[derive(Debug)]
pub struct Login {
    lines: Vec<String>,
    sent: usize,
    failed: bool,
}

/// The state of a login: the lines it has to send, how many of them have
/// been delivered, and whether a send has failed.
pub struct LoginView {
    pub lines: Seq<Seq<char>>,
    pub sent: nat,
    pub failed: bool,
}

impl LoginView {
    /// A login of which nothing has been sent yet.
    pub open spec fn fresh(lines: Seq<Seq<char>>) -> LoginView {
        LoginView { lines, sent: 0, failed: false }
    }

    /// What the login asks for in this state.
    pub open spec fn step(self) -> LoginStepView {
        if self.failed {
            LoginStepView::Aborted
        } else if self.sent < self.lines.len() {
            LoginStepView::Send(self.lines[self.sent as int])
        } else {
            LoginStepView::Done
        }
    }

    /// The state after the send that [`Self::step`] asked for was delivered,
    /// or failed. A login that asks for no send stays as it is.
    pub open spec fn record(self, delivered: bool) -> LoginView {
        if self.failed || self.sent >= self.lines.len() {
            self
        } else if delivered {
            LoginView { sent: self.sent + 1, ..self }
        } else {
            LoginView { failed: true, ..self }
        }
    }

    /// The state after as many sends as `outcomes` tells of.
    pub open spec fn run(self, outcomes: Seq<bool>) -> LoginView
        decreases outcomes.len(),
    {
        if outcomes.len() == 0 {
            self
        } else {
            self.record(outcomes[0]).run(outcomes.skip(1))
        }
    }

    /// The lines handed to the transport while the sends turn out as
    /// `outcomes` tells, one outcome for each send, until the login asks for
    /// no further send.
    pub open spec fn transcript(self, outcomes: Seq<bool>) -> Seq<Seq<char>>
        decreases outcomes.len(),
    {
        if outcomes.len() == 0 {
            Seq::empty()
        } else {
            match self.step() {
                LoginStepView::Send(line) => seq![line] + self.record(outcomes[0]).transcript(
                    outcomes.skip(1),
                ),
                _ => Seq::empty(),
            }
        }
    }
}

/// The first `count` outcomes are all deliveries.
pub open spec fn all_delivered(outcomes: Seq<bool>, count: int) -> bool {
    &&& count <= outcomes.len()
    &&& forall|i: int| 0 <= i < count ==> outcomes[i]
}

/// A login that asks for no send stays as it is, whatever it is told.
proof fn lemma_settled_stays(state: LoginView, outcomes: Seq<bool>)
    requires
        state.failed || state.sent >= state.lines.len(),
    ensures
        state.run(outcomes) == state,
        state.transcript(outcomes) == Seq::<Seq<char>>::empty(),
    decreases outcomes.len(),
{
    if outcomes.len() > 0 {
        lemma_settled_stays(state, outcomes.skip(1));
    }
}

/// From any state without a failure, the lines handed out are the next ones
/// of the login, without a gap and in order.
proof fn lemma_transcript_is_next_lines(state: LoginView, outcomes: Seq<bool>)
    requires
        !state.failed,
        state.sent <= state.lines.len(),
    ensures
        state.sent + state.transcript(outcomes).len() <= state.lines.len(),
        state.transcript(outcomes) == state.lines.subrange(
            state.sent as int,
            (state.sent + state.transcript(outcomes).len()) as int,
        ),
    decreases outcomes.len(),
{
    if outcomes.len() == 0 || state.sent >= state.lines.len() {
        if outcomes.len() > 0 {
            lemma_settled_stays(state, outcomes);
        }
        assert(state.transcript(outcomes) =~= state.lines.subrange(
            state.sent as int,
            state.sent as int,
        ));
    } else {
        let next = state.record(outcomes[0]);
        let rest = next.transcript(outcomes.skip(1));
        if outcomes[0] {
            lemma_transcript_is_next_lines(next, outcomes.skip(1));
        } else {
            lemma_settled_stays(next, outcomes.skip(1));
        }
        assert(state.transcript(outcomes) =~= state.lines.subrange(
            state.sent as int,
            (state.sent + 1 + rest.len()) as int,
        ));
    }
}

/// While every send is delivered, the login goes through all of its
/// remaining lines and is then done.
proof fn lemma_delivered_to_the_end(state: LoginView, outcomes: Seq<bool>)
    requires
        !state.failed,
        state.sent <= state.lines.len(),
        all_delivered(outcomes, state.lines.len() - state.sent),
    ensures
        state.transcript(outcomes) == state.lines.subrange(
            state.sent as int,
            state.lines.len() as int,
        ),
        state.run(outcomes) == (LoginView { sent: state.lines.len(), ..state }),
    decreases outcomes.len(),
{
    if state.sent >= state.lines.len() {
        lemma_settled_stays(state, outcomes);
        assert(state.transcript(outcomes) =~= state.lines.subrange(
            state.sent as int,
            state.lines.len() as int,
        ));
    } else {
        assert(outcomes[0]);
        let next = state.record(true);
        assert forall|i: int| 0 <= i < next.lines.len() - next.sent implies outcomes.skip(1)[i] by {
            assert(outcomes[i + 1]);
        }
        lemma_delivered_to_the_end(next, outcomes.skip(1));
        assert(state.transcript(outcomes) =~= state.lines.subrange(
            state.sent as int,
            state.lines.len() as int,
        ));
    }
}

/// Once a send fails after `before` deliveries, the failed line is the last
/// one handed out and the login is given up.
proof fn lemma_failure_ends_it(state: LoginView, outcomes: Seq<bool>, before: int)
    requires
        !state.failed,
        0 <= before,
        state.sent + before < state.lines.len(),
        all_delivered(outcomes, before),
        before < outcomes.len(),
        !outcomes[before],
    ensures
        state.transcript(outcomes) == state.lines.subrange(
            state.sent as int,
            state.sent + before + 1,
        ),
        state.run(outcomes) == (LoginView {
            sent: (state.sent + before) as nat,
            failed: true,
            ..state
        }),
    decreases before,
{
    let next = state.record(outcomes[0]);
    if before == 0 {
        lemma_settled_stays(next, outcomes.skip(1));
        assert(state.transcript(outcomes) =~= state.lines.subrange(
            state.sent as int,
            (state.sent + 1) as int,
        ));
    } else {
        assert(outcomes[0]);
        assert forall|i: int| 0 <= i < before - 1 implies outcomes.skip(1)[i] by {
            assert(outcomes[i + 1]);
        }
        lemma_failure_ends_it(next, outcomes.skip(1), before - 1);
        assert(state.transcript(outcomes) =~= state.lines.subrange(
            state.sent as int,
            state.sent + before + 1,
        ));
    }
}

/// However the sends turn out, what a login hands to the transport is a
/// beginning of its lines: each line in its place, none twice, none out of
/// order and nothing else.
pub proof fn lemma_login_keeps_the_order(lines: Seq<Seq<char>>, outcomes: Seq<bool>)
    ensures
        LoginView::fresh(lines).transcript(outcomes).is_prefix_of(lines),
{
    let start = LoginView::fresh(lines);
    lemma_transcript_is_next_lines(start, outcomes);
    assert(start.transcript(outcomes) =~= lines.take(start.transcript(outcomes).len() as int));
}

/// Where every send is delivered, a login hands out all of its lines, in
/// their order, and is then done.
pub proof fn lemma_login_completes(lines: Seq<Seq<char>>, outcomes: Seq<bool>)
    requires
        all_delivered(outcomes, lines.len() as int),
    ensures
        LoginView::fresh(lines).transcript(outcomes) == lines,
        LoginView::fresh(lines).run(outcomes).step() == LoginStepView::Done,
{
    let start = LoginView::fresh(lines);
    lemma_delivered_to_the_end(start, outcomes);
    assert(lines.subrange(0, lines.len() as int) =~= lines);
}

/// Where the send of line `at` fails after all the sends before it were
/// delivered, that line is the last one handed out: the rest of the login is
/// given up.
pub proof fn lemma_login_aborts(lines: Seq<Seq<char>>, outcomes: Seq<bool>, at: int)
    requires
        0 <= at < lines.len(),
        at < outcomes.len(),
        all_delivered(outcomes, at),
        !outcomes[at],
    ensures
        LoginView::fresh(lines).transcript(outcomes) == lines.take(at + 1),
        LoginView::fresh(lines).run(outcomes).step() == LoginStepView::Aborted,
{
    let start = LoginView::fresh(lines);
    lemma_failure_ends_it(start, outcomes, at);
    assert(lines.subrange(0, at + 1) =~= lines.take(at + 1));
}

/// The login of an account into a channel sends, when every send is
/// delivered, exactly five lines: the capability request, `PASS` with the
/// token, `NICK` and `USER` with the account's name, and `JOIN` with the
/// channel, in this order. It is then done and sends nothing more.
pub proof fn lemma_login_order(
    auth: Seq<char>,
    user: Seq<char>,
    channel: Seq<char>,
    outcomes: Seq<bool>,
)
    requires
        all_delivered(outcomes, 5),
    ensures
        LoginView::fresh(handshake(login_commands(auth, user, channel))).transcript(outcomes)
            == seq![
            REQ@,
            "PASS oauth:"@ + auth,
            "NICK "@ + user,
            "USER "@ + user + " 8 * :"@ + user,
            "JOIN #"@ + channel,
        ],
        LoginView::fresh(handshake(login_commands(auth, user, channel))).run(outcomes).step()
            == LoginStepView::Done,
{
    lemma_login_completes(handshake(login_commands(auth, user, channel)), outcomes);
}

impl View for Login {
    type V = LoginView;

    closed spec fn view(&self) -> LoginView {
        LoginView { lines: self.lines.deep_view(), sent: self.sent as nat, failed: self.failed }
    }
}

impl Login {
    #[verifier::type_invariant]
    spec fn sent_in_range(self) -> bool {
        self.sent <= self.lines.len()
    }

    /// The login that sends the lines of `irc`, with nothing sent yet.
    pub fn new(irc: &Irc) -> (login: Login)
        ensures
            login@ == LoginView::fresh(handshake(irc@)),
    {
        Login { lines: irc.irc_init(), sent: 0, failed: false }
    }

    /// What the transport has to do next.
    pub fn step(&self) -> (step: LoginStep)
        ensures
            step@ == self@.step(),
    {
        proof {
            use_type_invariant(self);
        }
        if self.failed {
            LoginStep::Aborted
        } else if self.sent < self.lines.len() {
            LoginStep::Send(self.lines[self.sent].clone())
        } else {
            LoginStep::Done
        }
    }

    /// Takes note of how the send went that [`Self::step`] asked for.
    pub fn record(&mut self, delivered: bool)
        ensures
            final(self)@ == old(self)@.record(delivered),
    {
        proof {
            use_type_invariant(&*self);
        }
        if self.failed || self.sent >= self.lines.len() {
        } else if delivered {
            self.sent = self.sent + 1;
        } else {
            self.failed = true;
        }
    }
}

/// The login of the account `credentials` into `channel`, with nothing sent
/// yet: its lines are the capability request, the token, the nickname, the
/// user and the channel to join, in this order.
pub fn login(credentials: &Auth, channel: &str) -> (login: Login)
    ensures
        login@ == LoginView::fresh(
            handshake(login_commands(credentials@.auth, credentials@.user, channel@)),
        ),
{
    Login::new(&login_lines(credentials.auth.as_str(), credentials.user.as_str(), channel))
}

} // verus!
