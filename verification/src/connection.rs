//! The life of one shard's connection as a state machine. The machine does
//! no work itself: it is told what happened and answers with what to do
//! next, and whoever owns the transport carries that out.

use vstd::prelude::*;

verus! {

/// Seconds to wait after the first failed attempt.
pub const BASE_BACKOFF_SECS: u64 = 30;

/// Seconds by which the wait grows with each further failure in a row.
pub const BACKOFF_STEP_SECS: u64 = 30;

/// Failures in a row after which the shard gives up.
pub const MAX_FAILURES: u32 = 3;

/// Milliseconds to let pass after each join request, which keeps one
/// identity under twenty joins in ten seconds.
pub const JOIN_PACE_MILLIS: u64 = 600;

/// Where a shard's connection stands.
#[derive(Clone, Copy, Debug, PartialEq, Eq, Structural)]
pub enum ConnectionState {
    /// No transport is open and none has been lost.
    Disconnected,
    /// The transport is open; nothing has been sent.
    Connected,
    /// Capability request, credential and identity have been sent.
    Authenticated,
    /// At least one join request has gone out and more are to follow.
    Joining,
    /// Every join request has gone out; lines are being read.
    Listening,
    /// The transport was lost after it had been opened.
    Reconnecting,
    /// The shard has given up for good.
    Abandoned,
}

/// What the owner of the transport reports to the machine.
#[derive(Clone, Copy, Debug, PartialEq, Eq, Structural)]
pub enum Signal {
    /// The transport was opened.
    ConnectSucceeded,
    /// The transport could not be opened.
    ConnectFailed,
    /// Capability request, credential and identity were sent.
    AuthSent,
    /// The join request that was asked for went out.
    JoinIssued,
    /// The join request that was asked for could not be sent.
    JoinFailed,
    /// A line was read and has been dealt with.
    LineRead,
    /// Reading or writing failed on an open transport.
    TransportFailed,
    /// The wait that was asked for is over.
    BackoffElapsed,
}

/// What the machine asks the owner of the transport to do next.
#[derive(Clone, Copy, Debug, PartialEq, Eq, Structural)]
pub enum Action {
    /// Open the transport.
    Connect,
    /// Send capability request, credential and identity.
    Authenticate,
    /// Send the join request for the channel at `index`, then pause.
    Join { index: usize },
    /// Read the next line.
    Read,
    /// Wait for `secs` seconds.
    Backoff { secs: u64 },
    /// Stop: the shard is done.
    Stop,
}

/// The state of one shard's connection.
#[derive(Clone, Copy, Debug, PartialEq, Eq, Structural)]
pub struct Connection {
    pub state: ConnectionState,
    /// Failures in a row since the last session that reached `Listening`.
    pub reconnect_count: u32,
    /// Seconds to wait after the next failure.
    pub backoff_secs: u64,
    /// Number of channels that the shard joins.
    pub channels: usize,
    /// Index of the channel whose join request goes out next.
    pub next_join: usize,
}

impl Connection {
    /// The counters agree with each other and with the state.
    pub open spec fn wf(self) -> bool {
        &&& self.reconnect_count <= MAX_FAILURES
        &&& self.backoff_secs == BASE_BACKOFF_SECS + BACKOFF_STEP_SECS * self.reconnect_count
        &&& self.reconnect_count == MAX_FAILURES <==> self.state is Abandoned
        &&& self.state is Authenticated ==> self.next_join == 0 && self.channels > 0
        &&& self.state is Joining ==> 0 < self.next_join < self.channels
    }

    /// A connection that has not been tried yet.
    pub open spec fn fresh(channels: usize) -> Connection {
        Connection {
            state: ConnectionState::Disconnected,
            reconnect_count: 0,
            backoff_secs: BASE_BACKOFF_SECS,
            channels,
            next_join: 0,
        }
    }

    /// What the state is waiting for.
    pub open spec fn pending(self) -> Action {
        match self.state {
            ConnectionState::Disconnected | ConnectionState::Reconnecting => Action::Connect,
            ConnectionState::Connected => Action::Authenticate,
            ConnectionState::Authenticated | ConnectionState::Joining => Action::Join {
                index: self.next_join,
            },
            ConnectionState::Listening => Action::Read,
            ConnectionState::Abandoned => Action::Stop,
        }
    }

    /// One more failure before `Listening` was reached: the count goes up
    /// and the wait grows. At the limit the shard is abandoned; below it,
    /// the shard waits in `state` for the time that was due.
    pub open spec fn failed(self, state: ConnectionState) -> (Connection, Action) {
        let count = (self.reconnect_count + 1) as u32;
        let backoff = (self.backoff_secs + BACKOFF_STEP_SECS) as u64;
        if count >= MAX_FAILURES {
            (
                Connection {
                    state: ConnectionState::Abandoned,
                    reconnect_count: count,
                    backoff_secs: backoff,
                    ..self
                },
                Action::Stop,
            )
        } else {
            (
                Connection { state, reconnect_count: count, backoff_secs: backoff, ..self },
                Action::Backoff { secs: self.backoff_secs },
            )
        }
    }

    /// A join request is done with, sent or not: the next one goes out, or
    /// listening begins after the last.
    pub open spec fn joined(self) -> (Connection, Action) {
        let next = (self.next_join + 1) as usize;
        if next < self.channels {
            (
                Connection { state: ConnectionState::Joining, next_join: next, ..self },
                Action::Join { index: next },
            )
        } else {
            (Connection { state: ConnectionState::Listening, next_join: next, ..self }, Action::Read)
        }
    }

    /// The transition function: the state after `signal`, and what to do.
    /// A signal that the state does not wait for changes nothing and asks
    /// again for what is pending.
    pub open spec fn step_spec(self, signal: Signal) -> (Connection, Action) {
        match (self.state, signal) {
            (ConnectionState::Disconnected, Signal::ConnectSucceeded)
            | (ConnectionState::Reconnecting, Signal::ConnectSucceeded) => (
                Connection { state: ConnectionState::Connected, ..self },
                Action::Authenticate,
            ),
            (ConnectionState::Disconnected, Signal::ConnectFailed) => self.failed(
                ConnectionState::Disconnected,
            ),
            (ConnectionState::Reconnecting, Signal::ConnectFailed) => self.failed(
                ConnectionState::Reconnecting,
            ),
            (ConnectionState::Connected, Signal::AuthSent) => if self.channels == 0 {
                (Connection { state: ConnectionState::Listening, ..self }, Action::Read)
            } else {
                (
                    Connection { state: ConnectionState::Authenticated, next_join: 0, ..self },
                    Action::Join { index: 0 },
                )
            },
            (ConnectionState::Authenticated, Signal::JoinIssued)
            | (ConnectionState::Authenticated, Signal::JoinFailed)
            | (ConnectionState::Joining, Signal::JoinIssued)
            | (ConnectionState::Joining, Signal::JoinFailed) => self.joined(),
            (ConnectionState::Connected, Signal::TransportFailed)
            | (ConnectionState::Authenticated, Signal::TransportFailed)
            | (ConnectionState::Joining, Signal::TransportFailed) => self.failed(
                ConnectionState::Reconnecting,
            ),
            (ConnectionState::Listening, Signal::TransportFailed) => (
                Connection {
                    state: ConnectionState::Reconnecting,
                    reconnect_count: 0,
                    backoff_secs: BASE_BACKOFF_SECS,
                    ..self
                },
                Action::Connect,
            ),
            _ => (self, self.pending()),
        }
    }

    /// The state after `n` failed attempts to connect in a row, each
    /// followed by the end of its wait.
    pub open spec fn after_failed_attempts(self, n: nat) -> Connection
        decreases n,
    {
        if n == 0 {
            self
        } else {
            let before = self.after_failed_attempts((n - 1) as nat);
            before.step_spec(Signal::ConnectFailed).0.step_spec(Signal::BackoffElapsed).0
        }
    }

    /// A connection that has not been tried yet, for a shard of `channels`
    /// channels. Its first action is to connect.
    pub fn new(channels: usize) -> (c: Self)
        ensures
            c == Self::fresh(channels),
            c.wf(),
            c.pending() == Action::Connect,
    {
        Connection {
            state: ConnectionState::Disconnected,
            reconnect_count: 0,
            backoff_secs: BASE_BACKOFF_SECS,
            channels,
            next_join: 0,
        }
    }

    /// Whether the counters agree with each other and with the state.
    pub fn is_wf(&self) -> (b: bool)
        ensures
            b == self.wf(),
    {
        if self.reconnect_count > MAX_FAILURES {
            return false;
        }
        let due: u64 = BASE_BACKOFF_SECS + BACKOFF_STEP_SECS * (self.reconnect_count as u64);
        let abandoned: bool = match self.state {
            ConnectionState::Abandoned => true,
            _ => false,
        };
        let joins_agree: bool = match self.state {
            ConnectionState::Authenticated => self.next_join == 0 && self.channels > 0,
            ConnectionState::Joining => 0 < self.next_join && self.next_join < self.channels,
            _ => true,
        };
        self.backoff_secs == due && (self.reconnect_count == MAX_FAILURES) == abandoned
            && joins_agree
    }

    /// What the state is waiting for.
    pub fn action(&self) -> (a: Action)
        ensures
            a == self.pending(),
    {
        match self.state {
            ConnectionState::Disconnected | ConnectionState::Reconnecting => Action::Connect,
            ConnectionState::Connected => Action::Authenticate,
            ConnectionState::Authenticated | ConnectionState::Joining => Action::Join {
                index: self.next_join,
            },
            ConnectionState::Listening => Action::Read,
            ConnectionState::Abandoned => Action::Stop,
        }
    }

    /// Counts one more failure before `Listening`.
    fn fail(&mut self, state: ConnectionState) -> (a: Action)
        requires
            old(self).wf(),
            !(old(self).state is Abandoned),
            state is Disconnected || state is Reconnecting,
        ensures
            (*final(self), a) == old(self).failed(state),
            final(self).wf(),
    {
        let due: u64 = self.backoff_secs;
        self.reconnect_count = self.reconnect_count + 1;
        self.backoff_secs = self.backoff_secs + BACKOFF_STEP_SECS;
        if self.reconnect_count >= MAX_FAILURES {
            self.state = ConnectionState::Abandoned;
            Action::Stop
        } else {
            self.state = state;
            Action::Backoff { secs: due }
        }
    }

    /// Moves on to the next join request, or to listening.
    fn join_done(&mut self) -> (a: Action)
        requires
            old(self).wf(),
            old(self).state is Authenticated || old(self).state is Joining,
        ensures
            (*final(self), a) == old(self).joined(),
            final(self).wf(),
    {
        let next: usize = self.next_join + 1;
        self.next_join = next;
        if next < self.channels {
            self.state = ConnectionState::Joining;
            Action::Join { index: next }
        } else {
            self.state = ConnectionState::Listening;
            Action::Read
        }
    }

    /// Takes in what happened and says what to do next.
    pub fn step(&mut self, signal: Signal) -> (a: Action)
        requires
            old(self).wf(),
        ensures
            (*final(self), a) == old(self).step_spec(signal),
            final(self).wf(),
    {
        match (self.state, signal) {
            (ConnectionState::Disconnected, Signal::ConnectSucceeded)
            | (ConnectionState::Reconnecting, Signal::ConnectSucceeded) => {
                self.state = ConnectionState::Connected;
                Action::Authenticate
            },
            (ConnectionState::Disconnected, Signal::ConnectFailed) => self.fail(
                ConnectionState::Disconnected,
            ),
            (ConnectionState::Reconnecting, Signal::ConnectFailed) => self.fail(
                ConnectionState::Reconnecting,
            ),
            (ConnectionState::Connected, Signal::AuthSent) => {
                if self.channels == 0 {
                    self.state = ConnectionState::Listening;
                    Action::Read
                } else {
                    self.state = ConnectionState::Authenticated;
                    self.next_join = 0;
                    Action::Join { index: 0 }
                }
            },
            (ConnectionState::Authenticated, Signal::JoinIssued)
            | (ConnectionState::Authenticated, Signal::JoinFailed)
            | (ConnectionState::Joining, Signal::JoinIssued)
            | (ConnectionState::Joining, Signal::JoinFailed) => self.join_done(),
            (ConnectionState::Connected, Signal::TransportFailed)
            | (ConnectionState::Authenticated, Signal::TransportFailed)
            | (ConnectionState::Joining, Signal::TransportFailed) => self.fail(
                ConnectionState::Reconnecting,
            ),
            (ConnectionState::Listening, Signal::TransportFailed) => {
                self.state = ConnectionState::Reconnecting;
                self.reconnect_count = 0;
                self.backoff_secs = BASE_BACKOFF_SECS;
                Action::Connect
            },
            _ => self.action(),
        }
    }
}

/// Every step keeps the counters in agreement.
pub proof fn lemma_step_preserves_wf(c: Connection, signal: Signal)
    requires
        c.wf(),
    ensures
        c.step_spec(signal).0.wf(),
{
}

/// An abandoned shard stays abandoned and is only ever told to stop: it
/// makes no further attempt to connect.
pub proof fn lemma_abandoned_is_final(c: Connection, signal: Signal)
    requires
        c.state is Abandoned,
    ensures
        c.step_spec(signal) == (c, Action::Stop),
{
}

/// A failed attempt to connect asks for a wait that grows by the step with
/// every failure in a row, and at the limit abandons the shard instead.
pub proof fn lemma_backoff_grows(c: Connection)
    requires
        c.wf(),
        c.state is Disconnected || c.state is Reconnecting,
    ensures
        c.reconnect_count + 1 < MAX_FAILURES ==> c.step_spec(Signal::ConnectFailed).1
            == (Action::Backoff {
            secs: (BASE_BACKOFF_SECS + BACKOFF_STEP_SECS * c.reconnect_count) as u64,
        }),
        c.reconnect_count + 1 < MAX_FAILURES ==> c.step_spec(Signal::ConnectFailed).0.state
            == c.state,
        c.reconnect_count + 1 >= MAX_FAILURES ==> c.step_spec(Signal::ConnectFailed).0.state
            is Abandoned,
        c.step_spec(Signal::ConnectFailed).0.reconnect_count == c.reconnect_count + 1,
{
}

/// Failed attempts in a row, none of which reached `Listening`, end in
/// `Abandoned` once their number reaches the limit.
pub proof fn lemma_failures_abandon(c: Connection, n: nat)
    requires
        c.wf(),
        c.state is Disconnected || c.state is Reconnecting,
    ensures
        c.after_failed_attempts(n).wf(),
        c.reconnect_count + n < MAX_FAILURES ==> c.after_failed_attempts(n).state == c.state
            && c.after_failed_attempts(n).reconnect_count == c.reconnect_count + n,
        c.reconnect_count + n >= MAX_FAILURES ==> c.after_failed_attempts(n).state is Abandoned,
    decreases n,
{
    if n > 0 {
        lemma_failures_abandon(c, (n - 1) as nat);
    }
}

/// A shard that has never connected is abandoned after three failed
/// attempts in a row, and not before.
pub proof fn lemma_three_failures_abandon(channels: usize)
    ensures
        !(Connection::fresh(channels).after_failed_attempts(2).state is Abandoned),
        Connection::fresh(channels).after_failed_attempts(3).state is Abandoned,
{
    lemma_failures_abandon(Connection::fresh(channels), 2);
    lemma_failures_abandon(Connection::fresh(channels), 3);
}

/// Losing the transport while listening starts over: the failure count is
/// 0 and the wait is the base again, and the shard connects at once.
pub proof fn lemma_listening_resets(c: Connection)
    requires
        c.state is Listening,
    ensures
        c.step_spec(Signal::TransportFailed).0.state is Reconnecting,
        c.step_spec(Signal::TransportFailed).0.reconnect_count == 0,
        c.step_spec(Signal::TransportFailed).0.backoff_secs == BASE_BACKOFF_SECS,
        c.step_spec(Signal::TransportFailed).1 == Action::Connect,
{
}

/// A join request that could not be sent does not hold the shard back: it
/// goes on exactly as after one that was sent.
pub proof fn lemma_join_failure_is_skipped(c: Connection)
    ensures
        c.step_spec(Signal::JoinFailed) == c.step_spec(Signal::JoinIssued),
{
}

} // verus!
