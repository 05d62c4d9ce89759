use vstd::prelude::*;
use crate::canvas::{CanvasSpec, CellWrite, process_written_cell, in_bounds, record_offset, record};
use crate::color::{Color, color_text};
use crate::messages::{SocketMessage, Request, decode_text};
use crate::position::{Position, position_text};
use crate::user::{
    User, UserView, MaybeUser, CreditUpdate, can_consume_at, credit_update_at, applied,
    COOLDOWN_NANOS,
};

verus! {

/// Where a connection stands.
#[derive(Clone, Copy, Debug, PartialEq, Eq, Structural)]
pub enum Phase {
    /// Waiting for the canvas snapshot to greet the client with.
    Connecting,
    /// Waiting for the client's next frame.
    Active,
    /// A paint was granted; waiting for the account store to record it.
    AwaitingCredit(Position, Color, CreditUpdate),
    /// The paint was recorded; waiting for the canvas store to write the cell.
    AwaitingWrite(Position, Color),
    /// The connection is over.
    Closed,
}

/// What happened on a connection.
pub enum SessionEvent {
    /// The canvas snapshot was read, or why it could not be.
    Snapshot(Result<CanvasSpec, String>),
    /// The client sent a text frame.
    Text(String),
    /// The client sent a ping.
    Ping,
    /// The account store recorded the paint, or failed to.
    CreditSaved(bool),
    /// The canvas store wrote the cell, or failed to, for the reason given.
    CellWritten(Result<(), String>),
    /// Sending to the client failed.
    SendFailed,
    /// The client closed the connection, or the transport failed.
    Closed,
}

/// What the connection's driver does next.
pub enum SessionAction {
    /// Send this greeting, then register the session.
    Init(String),
    /// Send this text to this client alone.
    Reply(String),
    /// Record this in the account store, then report `CreditSaved`.
    SaveCredit(CreditUpdate),
    /// Write this record into the canvas store, then report `CellWritten`.
    Write(CellWrite),
    /// Send this text to every registered session.
    Broadcast(String),
    /// Answer the ping.
    Pong,
    /// Remove the session from the registry and stop.
    Deregister,
    /// Close the connection, unregistered, for this reason.
    Abort(String),
    /// Nothing to do.
    Ignore,
}

/// The reply to a paint that is not granted.
pub open spec fn no_token_text() -> Seq<char> {
    "Cannot consume a token at this moment."@
}

/// An error reply.
pub open spec fn error_text(m: Seq<char>) -> Seq<char> {
    seq!['5', ';'] + m
}

/// The broadcast of a paint.
pub open spec fn wrote_text(name: Seq<char>, p: Position, c: Color) -> Seq<char> {
    seq!['3', ';'] + name + seq![','] + position_text(p) + seq![','] + color_text(c)
}

/// The broadcast of a cursor move.
pub open spec fn moved_text(name: Seq<char>, p: Position) -> Seq<char> {
    seq!['4', ';'] + name + seq![','] + position_text(p)
}

/// The greeting of a signed-in user.
pub open spec fn init_text(name: Seq<char>, spec: CanvasSpec) -> Seq<char> {
    seq!['6', ';'] + name + seq![','] + spec.text()
}

/// Nothing changes and nothing is done.
pub open spec fn ignored(ph: Phase, u: UserView, ph2: Phase, u2: UserView, a: SessionAction) -> bool {
    ph2 == ph && u2 == u && a is Ignore
}

/// What a text frame leads to on an active connection.
pub open spec fn on_text(u: UserView, s: Seq<char>, now: int, ph2: Phase, a: SessionAction) -> bool {
    match decode_text(s) {
        Err(m) => ph2 is Active && (a matches SessionAction::Reply(t) && t@ == error_text(m)),
        Ok(Request::MoveCursor(p)) => ph2 is Active && (a matches SessionAction::Broadcast(t) && t@
            == moved_text(u.username, p)),
        Ok(Request::WriteCell(p, c)) => if can_consume_at(u, now) {
            &&& credit_update_at(u, now) is Ok
            &&& ph2 == Phase::AwaitingCredit(p, c, credit_update_at(u, now)->Ok_0)
            &&& a matches SessionAction::SaveCredit(cu) && cu == credit_update_at(u, now)->Ok_0
        } else {
            ph2 is Active && (a matches SessionAction::Reply(t) && t@ == error_text(no_token_text()))
        },
    }
}

/// One step of a connection: from phase `ph` and account `u`, the event `e`
/// at time `now` leads to phase `ph2`, account `u2` and action `a`.
pub open spec fn step_relation(
    ph: Phase,
    u: UserView,
    e: SessionEvent,
    now: int,
    ph2: Phase,
    u2: UserView,
    a: SessionAction,
) -> bool {
    if ph is Closed {
        ignored(ph, u, ph2, u2, a)
    } else {
        match e {
            SessionEvent::Closed => ph2 is Closed && u2 == u && a is Deregister,
            SessionEvent::SendFailed => ph2 is Closed && u2 == u && a is Deregister,
            SessionEvent::Ping => ph2 == ph && u2 == u && a is Pong,
            SessionEvent::Snapshot(res) => if ph is Connecting {
                u2 == u && match res {
                    Ok(spec) => ph2 is Active && (a matches SessionAction::Init(t) && t@ == init_text(
                        u.username,
                        spec,
                    )),
                    Err(m) => ph2 is Closed && (a matches SessionAction::Abort(t) && t@ == m@),
                }
            } else {
                ignored(ph, u, ph2, u2, a)
            },
            SessionEvent::Text(s) => if ph is Active {
                u2 == u && on_text(u, s@, now, ph2, a)
            } else {
                ignored(ph, u, ph2, u2, a)
            },
            SessionEvent::CreditSaved(ok) => match ph {
                Phase::AwaitingCredit(p, c, cu) => if ok {
                    &&& u2 == applied(u, cu)
                    &&& if in_bounds(p) {
                        &&& ph2 == Phase::AwaitingWrite(p, c)
                        &&& a matches SessionAction::Write(w) && w.offset == record_offset(p)
                            && w.bytes@ == record(c, u.id as i32)
                    } else {
                        ph2 is Active && (a matches SessionAction::Reply(t) && t@ == error_text(
                            "Coordinates out of bounds."@,
                        ))
                    }
                } else {
                    u2 == u && ph2 is Active && (a matches SessionAction::Reply(t) && t@
                        == error_text(no_token_text()))
                },
                _ => ignored(ph, u, ph2, u2, a),
            },
            SessionEvent::CellWritten(res) => match ph {
                Phase::AwaitingWrite(p, c) => u2 == u && ph2 is Active && match res {
                    Ok(_) => a matches SessionAction::Broadcast(t) && t@ == wrote_text(
                        u.username,
                        p,
                        c,
                    ),
                    Err(m) => a matches SessionAction::Reply(t) && t@ == error_text(m@),
                },
                _ => ignored(ph, u, ph2, u2, a),
            },
        }
    }
}

/// The decisions of one connection.
pub struct SessionHandler {
    user: User,
    phase: Phase,
}

fn reply<'u>(m: SocketMessage<'u>) -> (r: SessionAction)
    requires
        m is SendError,
    ensures
        r matches SessionAction::Reply(t) && t@ == error_text(m->SendError_0@),
{
    let t = m.encode();
    SessionAction::Reply(t)
}

impl SessionHandler {
    pub closed spec fn phase_of(&self) -> Phase {
        self.phase
    }

    pub closed spec fn user_of(&self) -> UserView {
        self.user@
    }

    /// A granted paint that spends a credit has a credit to spend.
    pub open spec fn wf(&self) -> bool {
        self.phase_of() matches Phase::AwaitingCredit(_, _, cu) ==> (cu is Spend ==> self.user_of().credits
            > 0)
    }

    /// A connection of `user` that waits for the canvas snapshot.
    pub fn new(user: User) -> (r: SessionHandler)
        ensures
            r.phase_of() is Connecting,
            r.user_of() == user@,
            r.wf(),
    {
        SessionHandler { user, phase: Phase::Connecting }
    }

    pub fn phase(&self) -> (r: Phase)
        ensures
            r == self.phase_of(),
    {
        self.phase
    }

    pub fn user(&self) -> (r: &User)
        ensures
            r@ == self.user_of(),
    {
        &self.user
    }

    fn on_text_frame(&mut self, text: &str, now: i128) -> (r: SessionAction)
        requires
            old(self).phase_of() is Active,
            now <= i128::MAX - COOLDOWN_NANOS,
        ensures
            final(self).user_of() == old(self).user_of(),
            on_text(old(self).user_of(), text@, now as int, final(self).phase_of(), r),
            final(self).wf(),
    {
        let m = SocketMessage::decode(text);
        match m {
            SocketMessage::WriteCell(p, c) => {
                if !self.user.can_consume_credit_at(now) {
                    return reply(SocketMessage::SendError(String::from_str(
                        "Cannot consume a token at this moment.",
                    )));
                }
                match self.user.credit_update(now) {
                    Ok(cu) => {
                        self.phase = Phase::AwaitingCredit(p, c, cu);
                        SessionAction::SaveCredit(cu)
                    },
                    Err(_) => reply(
                        SocketMessage::SendError(
                            String::from_str("Cannot consume a token at this moment."),
                        ),
                    ),
                }
            },
            SocketMessage::MoveCursor(p) => {
                let b = m.to_sender(&self.user);
                let t = b.encode();
                SessionAction::Broadcast(t)
            },
            SocketMessage::SendError(_) => reply(m),
            _ => SessionAction::Ignore,
        }
    }

    fn on_credit_saved(&mut self, ok: bool) -> (r: SessionAction)
        requires
            old(self).phase_of() is AwaitingCredit,
            old(self).wf(),
        ensures
            step_relation(
                old(self).phase_of(),
                old(self).user_of(),
                SessionEvent::CreditSaved(ok),
                0,
                final(self).phase_of(),
                final(self).user_of(),
                r,
            ),
            final(self).wf(),
    {
        let (p, c, cu) = match self.phase {
            Phase::AwaitingCredit(p, c, cu) => (p, c, cu),
            _ => {
                return SessionAction::Ignore;
            },
        };
        if !ok {
            self.phase = Phase::Active;
            return reply(
                SocketMessage::SendError(String::from_str("Cannot consume a token at this moment.")),
            );
        }
        self.user.apply_credit_update(cu);
        match process_written_cell(&self.user, p, c) {
            Ok(w) => {
                self.phase = Phase::AwaitingWrite(p, c);
                SessionAction::Write(w)
            },
            Err(e) => {
                self.phase = Phase::Active;
                reply(SocketMessage::SendError(e.message()))
            },
        }
    }

    fn on_cell_written(&mut self, res: Result<(), String>) -> (r: SessionAction)
        requires
            old(self).phase_of() is AwaitingWrite,
        ensures
            step_relation(
                old(self).phase_of(),
                old(self).user_of(),
                SessionEvent::CellWritten(res),
                0,
                final(self).phase_of(),
                final(self).user_of(),
                r,
            ),
            final(self).wf(),
    {
        let (p, c) = match self.phase {
            Phase::AwaitingWrite(p, c) => (p, c),
            _ => {
                return SessionAction::Ignore;
            },
        };
        self.phase = Phase::Active;
        match res {
            Ok(()) => {
                let b = SocketMessage::WriteCell(p, c).to_sender(&self.user);
                SessionAction::Broadcast(b.encode())
            },
            Err(m) => reply(SocketMessage::SendError(m)),
        }
    }

    /// Takes one event of the connection at time `now` and says what to do.
    pub fn step(&mut self, event: SessionEvent, now: i128) -> (r: SessionAction)
        requires
            old(self).wf(),
            now <= i128::MAX - COOLDOWN_NANOS,
        ensures
            final(self).wf(),
            step_relation(
                old(self).phase_of(),
                old(self).user_of(),
                event,
                now as int,
                final(self).phase_of(),
                final(self).user_of(),
                r,
            ),
    {
        if self.phase == Phase::Closed {
            return SessionAction::Ignore;
        }
        match event {
            SessionEvent::Closed => {
                self.phase = Phase::Closed;
                SessionAction::Deregister
            },
            SessionEvent::SendFailed => {
                self.phase = Phase::Closed;
                SessionAction::Deregister
            },
            SessionEvent::Ping => SessionAction::Pong,
            SessionEvent::Snapshot(res) => {
                if self.phase != Phase::Connecting {
                    return SessionAction::Ignore;
                }
                match res {
                    Ok(spec) => {
                        let who = MaybeUser::Authorized(self.user.replica());
                        let t = SocketMessage::InitConnection(&who, spec).encode();
                        self.phase = Phase::Active;
                        SessionAction::Init(t)
                    },
                    Err(m) => {
                        self.phase = Phase::Closed;
                        SessionAction::Abort(m)
                    },
                }
            },
            SessionEvent::Text(s) => {
                if self.phase != Phase::Active {
                    return SessionAction::Ignore;
                }
                self.on_text_frame(s.as_str(), now)
            },
            SessionEvent::CreditSaved(ok) => {
                match self.phase {
                    Phase::AwaitingCredit(_, _, _) => self.on_credit_saved(ok),
                    _ => SessionAction::Ignore,
                }
            },
            SessionEvent::CellWritten(res) => {
                match self.phase {
                    Phase::AwaitingWrite(_, _) => self.on_cell_written(res),
                    _ => SessionAction::Ignore,
                }
            },
        }
    }
}

} // verus!
