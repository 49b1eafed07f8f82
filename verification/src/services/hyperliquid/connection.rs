//! The connection of the feed: its states, the delay before a new attempt,
//! the heartbeat deadline, and the bounded queue of outbound frames.

use vstd::prelude::*;

verus! {

/// The delay after the first failure, in milliseconds.
pub const INITIAL_BACKOFF_MS: u64 = 500;

/// The longest delay, in milliseconds.
pub const MAX_BACKOFF_MS: u64 = 30_000;

/// How long a connection must last for the failures before it to be
/// forgotten, in milliseconds.
pub const STABLE_AFTER_MS: u64 = 60_000;

/// The number of frames that the outbound queue holds.
pub const OUTBOUND_DEPTH: usize = 64;

/// The state of the connection.
#[derive(Clone, Copy, Debug, PartialEq, Eq, Structural)]
pub enum ConnectionState {
    Disconnected,
    Connecting,
    Connected,
    Backoff,
}

/// What happens to the connection.
#[derive(Clone, Copy, Debug, PartialEq, Eq, Structural)]
pub enum ConnectionEvent {
    /// The supervisor sets out to connect.
    Connect,
    /// The handshake succeeded.
    HandshakeOk,
    /// The handshake failed.
    HandshakeFail,
    /// The socket reported an error.
    Error,
    /// The socket was closed.
    Close,
    /// Nothing was read before the heartbeat deadline.
    HeartbeatTimeout,
    /// The delay before a new attempt is over.
    BackoffElapsed,
}

/// What the supervisor is to do after a transition.
#[derive(Clone, Copy, Debug, PartialEq, Eq, Structural)]
pub enum ConnectionAction {
    /// Nothing.
    Nothing,
    /// Open the socket and start the handshake.
    OpenSocket,
    /// Start reader and writer and send a subscribe frame for every key.
    ReplaySubscriptions,
    /// Wait this many milliseconds, then report `BackoffElapsed`.
    Sleep(u64),
    /// Drop reader and writer and report `Connect`.
    Reconnect,
}

/// The supervisor of the connection: its state, the number of failures in a
/// row, and the time at which the connection was last established, in Unix
/// milliseconds.
#[derive(Clone, Copy, Debug, PartialEq, Eq, Structural)]
pub struct ConnectionSupervisor {
    pub state: ConnectionState,
    pub failures: u32,
    pub connected_at: i64,
}

/// Two to the power `e`.
pub open spec fn pow2(e: nat) -> nat
    decreases e,
{
    if e == 0 {
        1
    } else {
        2 * pow2((e - 1) as nat)
    }
}

/// The delay without jitter after `failures` failures in a row: the initial
/// delay, doubled with every further failure, at most the longest delay.
pub open spec fn backoff_base(failures: nat) -> nat
    decreases failures,
{
    if failures <= 1 {
        INITIAL_BACKOFF_MS as nat
    } else if 2 * backoff_base((failures - 1) as nat) > MAX_BACKOFF_MS {
        MAX_BACKOFF_MS as nat
    } else {
        2 * backoff_base((failures - 1) as nat)
    }
}

/// The delay after `failures` failures in a row: the delay without jitter
/// plus the jitter, which counts up to that delay; at most the longest delay.
pub open spec fn backoff_delay(failures: nat, jitter_ms: nat) -> nat {
    let base = backoff_base(failures);
    let jitter = if jitter_ms > base {
        base
    } else {
        jitter_ms
    };
    if base + jitter > MAX_BACKOFF_MS {
        MAX_BACKOFF_MS as nat
    } else {
        base + jitter
    }
}

/// The number of failures after one more.
pub open spec fn one_more(failures: u32) -> u32 {
    if failures < u32::MAX {
        (failures + 1) as u32
    } else {
        failures
    }
}

/// Whether a connection established at `connected_at` has lasted long
/// enough at `now_ms` for the failures before it to be forgotten.
pub open spec fn lasted(connected_at: i64, now_ms: i64) -> bool {
    now_ms - connected_at >= STABLE_AFTER_MS
}

/// The supervisor after an event, and what it is to do.
///
/// Disconnected goes to Connecting on `Connect`. Connecting goes to Connected
/// on `HandshakeOk`, and to Backoff, with one more failure, on
/// `HandshakeFail`, `Error` and `Close`. Backoff goes to Disconnected when the
/// delay is over. Connected goes to Disconnected on `Error`, `Close` and
/// `HeartbeatTimeout`; the failures are forgotten where the connection has
/// lasted, else there is one more. Every other event changes nothing.
pub open spec fn transition(
    supervisor: ConnectionSupervisor,
    event: ConnectionEvent,
    now_ms: i64,
    jitter_ms: u64,
) -> (ConnectionSupervisor, ConnectionAction) {
    match (supervisor.state, event) {
        (ConnectionState::Disconnected, ConnectionEvent::Connect) => (
            ConnectionSupervisor { state: ConnectionState::Connecting, ..supervisor },
            ConnectionAction::OpenSocket,
        ),
        (ConnectionState::Connecting, ConnectionEvent::HandshakeOk) => (
            ConnectionSupervisor {
                state: ConnectionState::Connected,
                connected_at: now_ms,
                ..supervisor
            },
            ConnectionAction::ReplaySubscriptions,
        ),
        (ConnectionState::Connecting, ConnectionEvent::HandshakeFail)
        | (ConnectionState::Connecting, ConnectionEvent::Error)
        | (ConnectionState::Connecting, ConnectionEvent::Close) => (
            ConnectionSupervisor {
                state: ConnectionState::Backoff,
                failures: one_more(supervisor.failures),
                ..supervisor
            },
            ConnectionAction::Sleep(
                backoff_delay(one_more(supervisor.failures) as nat, jitter_ms as nat) as u64,
            ),
        ),
        (ConnectionState::Backoff, ConnectionEvent::BackoffElapsed) => (
            ConnectionSupervisor { state: ConnectionState::Disconnected, ..supervisor },
            ConnectionAction::Reconnect,
        ),
        (ConnectionState::Connected, ConnectionEvent::Error)
        | (ConnectionState::Connected, ConnectionEvent::Close)
        | (ConnectionState::Connected, ConnectionEvent::HeartbeatTimeout) => (
            ConnectionSupervisor {
                state: ConnectionState::Disconnected,
                failures: if lasted(supervisor.connected_at, now_ms) {
                    0
                } else {
                    one_more(supervisor.failures)
                },
                ..supervisor
            },
            ConnectionAction::Reconnect,
        ),
        _ => (supervisor, ConnectionAction::Nothing),
    }
}

/// Whenever the connection comes up, the subscriptions are replayed: a
/// transition into the connected state asks for just that.
pub proof fn lemma_connected_replays(
    supervisor: ConnectionSupervisor,
    event: ConnectionEvent,
    now_ms: i64,
    jitter_ms: u64,
)
    requires
        supervisor.state != ConnectionState::Connected,
        transition(supervisor, event, now_ms, jitter_ms).0.state == ConnectionState::Connected,
    ensures
        transition(supervisor, event, now_ms, jitter_ms).1 == ConnectionAction::ReplaySubscriptions,
        supervisor.state == ConnectionState::Connecting,
        event == ConnectionEvent::HandshakeOk,
{
}

/// The delay without jitter lies between the initial and the longest delay,
/// and is at most the initial delay doubled once for every failure but the
/// first.
pub proof fn lemma_backoff_base_bounds(failures: nat)
    ensures
        INITIAL_BACKOFF_MS <= backoff_base(failures) <= MAX_BACKOFF_MS,
        failures >= 1 ==> backoff_base(failures) <= INITIAL_BACKOFF_MS * pow2(
            (failures - 1) as nat,
        ),
    decreases failures,
{
    if failures > 1 {
        lemma_backoff_base_bounds((failures - 1) as nat);
        assert(pow2((failures - 1) as nat) == 2 * pow2((failures - 2) as nat));
        assert(INITIAL_BACKOFF_MS * (2 * pow2((failures - 2) as nat)) == 2 * (INITIAL_BACKOFF_MS
            * pow2((failures - 2) as nat))) by (nonlinear_arith);
    } else {
        assert(pow2(0) == 1);
    }
}

/// After the first failure the delay is the initial delay plus at most the
/// jitter. After the `n`-th failure the delay is at least the delay without
/// jitter, and at most the smaller of the longest delay and the initial
/// delay doubled `n` times.
pub proof fn lemma_backoff_delay_bounds(failures: nat, jitter_ms: nat)
    requires
        failures >= 1,
    ensures
        backoff_base(failures) <= backoff_delay(failures, jitter_ms) <= MAX_BACKOFF_MS,
        backoff_delay(failures, jitter_ms) <= INITIAL_BACKOFF_MS * pow2(failures),
        INITIAL_BACKOFF_MS <= backoff_delay(1, jitter_ms) <= INITIAL_BACKOFF_MS + jitter_ms,
{
    lemma_backoff_base_bounds(failures);
    assert(pow2(failures) == 2 * pow2((failures - 1) as nat));
    assert(INITIAL_BACKOFF_MS * (2 * pow2((failures - 1) as nat)) == 2 * (INITIAL_BACKOFF_MS
        * pow2((failures - 1) as nat))) by (nonlinear_arith);
}

/// The delay without jitter after `failures` failures in a row.
pub fn backoff_base_ms(failures: u32) -> (r: u64)
    ensures
        r == backoff_base(failures as nat),
        INITIAL_BACKOFF_MS <= r <= MAX_BACKOFF_MS,
{
    let mut base: u64 = INITIAL_BACKOFF_MS;
    let mut n: u32 = 1;
    proof {
        lemma_backoff_base_bounds(failures as nat);
    }
    while n < failures && base < MAX_BACKOFF_MS
        invariant
            1 <= n,
            n <= failures || failures == 0,
            failures == 0 ==> n == 1,
            base == backoff_base(n as nat),
            INITIAL_BACKOFF_MS <= base <= MAX_BACKOFF_MS,
        decreases failures - n,
    {
        base = if 2 * base > MAX_BACKOFF_MS {
            MAX_BACKOFF_MS
        } else {
            2 * base
        };
        n = n + 1;
    }
    proof {
        if n < failures {
            lemma_backoff_base_capped(n as nat, failures as nat);
        }
    }
    base
}

/// Once the delay without jitter has reached the longest delay, it stays
/// there.
pub proof fn lemma_backoff_base_capped(n: nat, m: nat)
    requires
        1 <= n <= m,
        backoff_base(n) == MAX_BACKOFF_MS,
    ensures
        backoff_base(m) == MAX_BACKOFF_MS,
    decreases m,
{
    if n < m {
        lemma_backoff_base_capped(n, (m - 1) as nat);
    }
}

/// The delay after `failures` failures in a row, with the given jitter.
pub fn backoff_delay_ms(failures: u32, jitter_ms: u64) -> (r: u64)
    ensures
        r == backoff_delay(failures as nat, jitter_ms as nat),
        r <= MAX_BACKOFF_MS,
{
    let base = backoff_base_ms(failures);
    let jitter = if jitter_ms > base {
        base
    } else {
        jitter_ms
    };
    if base + jitter > MAX_BACKOFF_MS {
        MAX_BACKOFF_MS
    } else {
        base + jitter
    }
}

/// The time by which something must have been read, given the time of the
/// last read and the interval of the server's pings: two intervals after
/// the last read.
pub open spec fn heartbeat_deadline(last_read_ms: i64, ping_interval_ms: u64) -> int {
    last_read_ms + 2 * ping_interval_ms
}

/// Whether the heartbeat deadline has passed.
pub fn heartbeat_expired(now_ms: i64, last_read_ms: i64, ping_interval_ms: u64) -> (r: bool)
    ensures
        r == (now_ms > heartbeat_deadline(last_read_ms, ping_interval_ms)),
{
    let deadline: i128 = last_read_ms as i128 + 2 * (ping_interval_ms as i128);
    (now_ms as i128) > deadline
}

impl ConnectionSupervisor {
    /// A supervisor that is disconnected and has seen no failure.
    pub fn new() -> (r: ConnectionSupervisor)
        ensures
            r == (ConnectionSupervisor {
                state: ConnectionState::Disconnected,
                failures: 0,
                connected_at: 0,
            }),
    {
        ConnectionSupervisor { state: ConnectionState::Disconnected, failures: 0, connected_at: 0 }
    }

    /// Whether the connection is up.
    pub fn is_connected(&self) -> (r: bool)
        ensures
            r == (self.state == ConnectionState::Connected),
    {
        match self.state {
            ConnectionState::Connected => true,
            _ => false,
        }
    }

    /// Takes an event at the time `now_ms`, with the jitter to use should a
    /// delay follow. Returns the supervisor after it and what is to be done.
    pub fn step(self, event: ConnectionEvent, now_ms: i64, jitter_ms: u64) -> (r: (
        ConnectionSupervisor,
        ConnectionAction,
    ))
        ensures
            r == transition(self, event, now_ms, jitter_ms),
    {
        let more: u32 = if self.failures < u32::MAX {
            self.failures + 1
        } else {
            self.failures
        };
        match self.state {
            ConnectionState::Disconnected => match event {
                ConnectionEvent::Connect => (
                    ConnectionSupervisor { state: ConnectionState::Connecting, ..self },
                    ConnectionAction::OpenSocket,
                ),
                _ => (self, ConnectionAction::Nothing),
            },
            ConnectionState::Connecting => match event {
                ConnectionEvent::HandshakeOk => (
                    ConnectionSupervisor {
                        state: ConnectionState::Connected,
                        connected_at: now_ms,
                        ..self
                    },
                    ConnectionAction::ReplaySubscriptions,
                ),
                ConnectionEvent::HandshakeFail | ConnectionEvent::Error | ConnectionEvent::Close => (
                    ConnectionSupervisor { state: ConnectionState::Backoff, failures: more, ..self },
                    ConnectionAction::Sleep(backoff_delay_ms(more, jitter_ms)),
                ),
                _ => (self, ConnectionAction::Nothing),
            },
            ConnectionState::Backoff => match event {
                ConnectionEvent::BackoffElapsed => (
                    ConnectionSupervisor { state: ConnectionState::Disconnected, ..self },
                    ConnectionAction::Reconnect,
                ),
                _ => (self, ConnectionAction::Nothing),
            },
            ConnectionState::Connected => match event {
                ConnectionEvent::Error
                | ConnectionEvent::Close
                | ConnectionEvent::HeartbeatTimeout => {
                    let age: i128 = now_ms as i128 - self.connected_at as i128;
                    let failures: u32 = if age >= STABLE_AFTER_MS as i128 {
                        0
                    } else {
                        more
                    };
                    (
                        ConnectionSupervisor {
                            state: ConnectionState::Disconnected,
                            failures,
                            ..self
                        },
                        ConnectionAction::Reconnect,
                    )
                },
                _ => (self, ConnectionAction::Nothing),
            },
        }
    }
}

/// The queue of frames waiting to be written to the socket, oldest first.
/// It holds at most `OUTBOUND_DEPTH` frames; a frame offered to a full queue
/// is dropped.
pub struct OutboundQueue {
    frames: Vec<String>,
}

impl View for OutboundQueue {
    type V = Seq<String>;

    closed spec fn view(&self) -> Seq<String> {
        self.frames@
    }
}

impl OutboundQueue {
    #[verifier::type_invariant]
    spec fn well_formed(self) -> bool {
        self.frames@.len() <= OUTBOUND_DEPTH
    }

    /// An empty queue.
    pub fn new() -> (r: OutboundQueue)
        ensures
            r@ == Seq::<String>::empty(),
    {
        OutboundQueue { frames: Vec::new() }
    }

    /// The number of frames waiting.
    pub fn len(&self) -> (r: usize)
        ensures
            r == self@.len(),
            r <= OUTBOUND_DEPTH,
    {
        proof {
            use_type_invariant(self);
        }
        self.frames.len()
    }

    /// Offers a frame. Returns whether it was taken; a full queue takes
    /// nothing.
    pub fn offer(&mut self, frame: String) -> (r: bool)
        ensures
            r == (old(self)@.len() < OUTBOUND_DEPTH),
            final(self)@ == if r {
                old(self)@.push(frame)
            } else {
                old(self)@
            },
    {
        proof {
            use_type_invariant(&*self);
        }
        if self.frames.len() >= OUTBOUND_DEPTH {
            false
        } else {
            let mut frames: Vec<String> = Vec::new();
            core::mem::swap(&mut self.frames, &mut frames);
            frames.push(frame);
            self.frames = frames;
            true
        }
    }

    /// Takes the oldest frame out of the queue.
    pub fn next(&mut self) -> (r: Option<String>)
        ensures
            old(self)@.len() == 0 ==> r is None && final(self)@ == old(self)@,
            old(self)@.len() > 0 ==> r == Some(old(self)@[0]) && final(self)@ == old(self)@.skip(1),
    {
        proof {
            use_type_invariant(&*self);
        }
        if self.frames.len() == 0 {
            None
        } else {
            let mut frames: Vec<String> = Vec::new();
            core::mem::swap(&mut self.frames, &mut frames);
            let first = frames.remove(0);
            assert(frames@ =~= old(self)@.skip(1));
            self.frames = frames;
            Some(first)
        }
    }
}

} // verus!
