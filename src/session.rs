use vstd::prelude::*;

use crate::message::{admitted, Chat, ValidationError};

verus! {

/// Where a connection is in its life.
#[derive(Clone, Copy, Debug, PartialEq, Eq, Structural)]
pub enum SessionState {
    /// Upgraded, not yet replayed history and subscribed.
    Connecting,
    /// Relaying messages both ways.
    Active,
    /// One loop has ended; the sibling is being cancelled and resources released.
    Closing,
    /// Finished for good.
    Closed,
}

/// What happened on a connection.
pub enum Event {
    /// The token frame was checked; whether it verified.
    Authenticated(bool),
    /// History was replayed to the client and the subscription is in place.
    Joined,
    /// A text frame from the client.
    Text(String),
    /// A ping control frame from the client, with its payload.
    Ping(Vec<u8>),
    /// A close frame from the client.
    Close,
    /// Reading from the transport failed.
    ReadFailed,
    /// Writing to the transport failed.
    WriteFailed,
    /// The subscription and the registry entry were released.
    Released,
}

/// What the connection's driver is to do next.
pub enum Action {
    /// Nothing.
    Nothing,
    /// Subscribe and replay the history snapshot taken in the same step.
    Join,
    /// Store and broadcast this accepted message.
    Publish(Chat),
    /// Drop the frame: it failed validation. The sender is not told.
    Discard(ValidationError),
    /// Reply to this session alone with a pong carrying this payload.
    Pong(Vec<u8>),
    /// Cancel the sibling loop, leave the hub and unregister the session.
    Shutdown,
    /// Close the connection; the session never became active.
    Disconnect,
}

/// Whether the event ends the transport side of a connection.
pub open spec fn is_termination(e: &Event) -> bool {
    e is Close || e is ReadFailed || e is WriteFailed
}

/// The state after `e` in state `s`.
pub open spec fn next_state(s: SessionState, e: &Event) -> SessionState {
    match s {
        SessionState::Connecting => match e {
            Event::Authenticated(ok) => if *ok { SessionState::Connecting } else { SessionState::Closed },
            Event::Joined => SessionState::Active,
            _ => if is_termination(e) { SessionState::Closed } else { SessionState::Connecting },
        },
        SessionState::Active => if is_termination(e) { SessionState::Closing } else { SessionState::Active },
        SessionState::Closing => if e is Released { SessionState::Closed } else { SessionState::Closing },
        SessionState::Closed => SessionState::Closed,
    }
}

/// Whether `a` is the action for `e` in state `s` at time `now`.
pub open spec fn action_for(s: SessionState, e: &Event, now: i64, a: Action) -> bool {
    match s {
        SessionState::Connecting => match e {
            Event::Authenticated(ok) => if *ok { a is Join } else { a is Disconnect },
            _ => if is_termination(e) { a is Disconnect } else { a is Nothing },
        },
        SessionState::Active => match e {
            Event::Text(raw) => match admitted(raw@, now) {
                Ok(c) => a matches Action::Publish(m) && m@ == c,
                Err(err) => a == Action::Discard(err),
            },
            Event::Ping(payload) => a matches Action::Pong(p) && p@ == payload@,
            _ => if is_termination(e) { a is Shutdown } else { a is Nothing },
        },
        _ => a is Nothing,
    }
}

/// Whether `e` in state `s` releases the session's resources.
pub open spec fn releases(s: SessionState, e: &Event) -> bool {
    s == SessionState::Active && is_termination(e)
}

/// The state after each of `es` in turn, from `s`.
pub open spec fn run(s: SessionState, es: Seq<Event>) -> SessionState
    decreases es.len(),
{
    if es.len() == 0 {
        s
    } else {
        next_state(run(s, es.drop_last()), &es.last())
    }
}

/// How many of `es`, applied in turn from `s`, release the session.
pub open spec fn release_count(s: SessionState, es: Seq<Event>) -> nat
    decreases es.len(),
{
    if es.len() == 0 {
        0
    } else {
        release_count(s, es.drop_last()) + if releases(run(s, es.drop_last()), &es.last()) { 1nat } else { 0nat }
    }
}

/// Once past `Active` a session never returns to it.
pub proof fn lemma_no_resurrection(s: SessionState, es: Seq<Event>)
    requires
        s == SessionState::Closing || s == SessionState::Closed,
    ensures
        run(s, es) == SessionState::Closing || run(s, es) == SessionState::Closed,
        s == SessionState::Closed ==> run(s, es) == SessionState::Closed,
    decreases es.len(),
{
    if es.len() > 0 {
        lemma_no_resurrection(s, es.drop_last());
    }
}

/// Whatever events arrive, and whichever loop sees the end first, a session
/// releases its subscription and registry entry at most once; and when it
/// does, it is past `Active` for good.
pub proof fn lemma_release_once(s: SessionState, es: Seq<Event>)
    requires
        s != SessionState::Closing,
    ensures
        release_count(s, es) <= 1,
        release_count(s, es) == 1 ==> run(s, es) == SessionState::Closing || run(s, es) == SessionState::Closed,
        release_count(s, es) == 0 ==> run(s, es) != SessionState::Closing,
    decreases es.len(),
{
    if es.len() > 0 {
        let prev = es.drop_last();
        lemma_release_once(s, prev);
        if release_count(s, prev) == 1 {
            let p = run(s, prev);
            assert(p == SessionState::Closing || p == SessionState::Closed);
        }
    }
}

/// One connection: its identifier and where it is in its life.
pub struct Session {
    pub id: u128,
    pub state: SessionState,
}

impl Session {
    /// A session that has just been accepted.
    pub fn new(id: u128) -> (r: Session)
        ensures
            r.id == id,
            r.state == SessionState::Connecting,
    {
        Session { id, state: SessionState::Connecting }
    }

    /// Takes `event` at time `now`: moves to the next state and says what is
    /// to be done. A text frame in `Active` is validated; a ping is answered
    /// with a pong; the first end of the transport in `Active` asks for the
    /// one shutdown.
    pub fn handle(&mut self, event: Event, now: i64) -> (r: Action)
        ensures
            final(self).id == old(self).id,
            final(self).state == next_state(old(self).state, &event),
            action_for(old(self).state, &event, now, r),
    {
        let state = self.state;
        let terminating = match &event {
            Event::Close | Event::ReadFailed | Event::WriteFailed => true,
            _ => false,
        };
        match state {
            SessionState::Connecting => match event {
                Event::Authenticated(ok) => {
                    if ok {
                        Action::Join
                    } else {
                        self.state = SessionState::Closed;
                        Action::Disconnect
                    }
                },
                Event::Joined => {
                    self.state = SessionState::Active;
                    Action::Nothing
                },
                _ => {
                    if terminating {
                        self.state = SessionState::Closed;
                        Action::Disconnect
                    } else {
                        Action::Nothing
                    }
                },
            },
            SessionState::Active => match event {
                Event::Text(raw) => match Chat::accept(raw.as_str(), now) {
                    Ok(c) => Action::Publish(c),
                    Err(e) => Action::Discard(e),
                },
                Event::Ping(payload) => Action::Pong(payload),
                _ => {
                    if terminating {
                        self.state = SessionState::Closing;
                        Action::Shutdown
                    } else {
                        Action::Nothing
                    }
                },
            },
            SessionState::Closing => {
                if let Event::Released = event {
                    self.state = SessionState::Closed;
                }
                Action::Nothing
            },
            SessionState::Closed => Action::Nothing,
        }
    }
}

} // verus!
