//! The client's side of a SOCKS5 handshake (RFC 1928, sections 3, 4 and 6), as a
//! machine that is fed what the proxy sends and says what to do next.
use crate::socks::{connect_request, SocksError, Target};
use vstd::prelude::*;

verus! {

/// What the client waits for.
#[derive(Debug, Clone, Copy, PartialEq, Eq, Structural)]
pub enum Stage {
    /// The version and the method that the proxy chose.
    Method,
    /// The head of the reply: version, reply code, a reserved byte, address type.
    Head,
    /// The length of the name that the proxy is bound to.
    NameLength,
    /// The address and the port that the proxy is bound to, in so many bytes.
    Bound(usize),
    /// Nothing: the handshake is over.
    Closed,
}

impl Stage {
    /// The number of bytes that the client waits for.
    pub open spec fn awaits(self) -> nat {
        match self {
            Stage::Method => 2,
            Stage::Head => 4,
            Stage::NameLength => 1,
            Stage::Bound(n) => n as nat,
            Stage::Closed => 0,
        }
    }

    /// How many more times the client can wait.
    pub open spec fn remaining(self) -> nat {
        match self {
            Stage::Method => 4,
            Stage::Head => 3,
            Stage::NameLength => 2,
            Stage::Bound(_) => 1,
            Stage::Closed => 0,
        }
    }
}

/// What is to be done next.
#[derive(Debug, PartialEq, Eq)]
pub enum Action {
    /// Write `send` to the proxy, read exactly `receive` bytes from it, and hand
    /// these to [`Handshake::advance`].
    Exchange { send: Vec<u8>, receive: usize },
    /// The connection stands: what follows belongs to the target.
    Established,
    /// Give up.
    Fail(SocksError),
}

/// The value of an [`Action`].
pub enum ActionView {
    Exchange { send: Seq<u8>, receive: nat },
    Established,
    Fail(SocksError),
}

impl View for Action {
    type V = ActionView;

    open spec fn view(&self) -> ActionView {
        match *self {
            Action::Exchange { send, receive } => ActionView::Exchange {
                send: send@,
                receive: receive as nat,
            },
            Action::Established => ActionView::Established,
            Action::Fail(error) => ActionView::Fail(error),
        }
    }
}

/// What a client that asks for `target` does at `stage` once it has `received`
/// the bytes that it waits for: what it waits for then, and what it does.
pub open spec fn step(
    target: crate::socks::TargetView,
    stage: Stage,
    received: Seq<u8>,
) -> (Stage, ActionView) {
    match stage {
        Stage::Method => if received[0] != 5 || received[1] != 0 {
            fail(SocksError::MethodRejected(received[0], received[1]))
        } else if !target.encodable() {
            fail(SocksError::HostNameTooLong)
        } else {
            (Stage::Head, ActionView::Exchange { send: target.request(), receive: 4 })
        },
        Stage::Head => if received[1] != 0 {
            fail(SocksError::ConnectFailed(received[1]))
        } else if received[3] == 1 {
            read(Stage::Bound(6))
        } else if received[3] == 4 {
            read(Stage::Bound(18))
        } else if received[3] == 3 {
            read(Stage::NameLength)
        } else {
            fail(SocksError::UnknownAddressType(received[3]))
        },
        Stage::NameLength => read(Stage::Bound((received[0] + 2) as usize)),
        Stage::Bound(_) => (Stage::Closed, ActionView::Established),
        Stage::Closed => fail(SocksError::HandshakeOver),
    }
}

/// The handshake ends with an error.
pub open spec fn fail(error: SocksError) -> (Stage, ActionView) {
    (Stage::Closed, ActionView::Fail(error))
}

/// The client has nothing to say, and reads on.
pub open spec fn read(next: Stage) -> (Stage, ActionView) {
    (next, ActionView::Exchange { send: Seq::empty(), receive: next.awaits() })
}

/// A handshake under way.
#[derive(Debug)]
pub struct Handshake {
    target: Target,
    stage: Stage,
}

/// Version 5, one method, "no authentication".
pub open spec fn greeting() -> Seq<u8> {
    seq![5u8, 1u8, 0u8]
}

impl Handshake {
    /// What the client asks for.
    pub closed spec fn target(self) -> crate::socks::TargetView {
        self.target@
    }

    /// What the client waits for.
    pub closed spec fn stage(self) -> Stage {
        self.stage
    }

    /// Begins a handshake that asks for `target`.
    pub fn start(target: Target) -> (started: (Handshake, Action))
        ensures
            started.0.target() == target@,
            started.0.stage() == Stage::Method,
            started.1@ == (ActionView::Exchange { send: greeting(), receive: 2 }),
    {
        let send: Vec<u8> = vec![0x05, 0x01, 0x00];
        assert(send@ =~= greeting());
        (Handshake { target, stage: Stage::Method }, Action::Exchange { send, receive: 2 })
    }

    /// Takes the bytes that the proxy was waited for, and says what to do next. A
    /// handshake that is over waits for nothing, and answers with an error.
    pub fn advance(&mut self, received: &[u8]) -> (action: Action)
        requires
            old(self).stage() != Stage::Closed ==> received@.len() == old(self).stage().awaits(),
        ensures
            final(self).target() == old(self).target(),
            (final(self).stage(), action@) == step(
                old(self).target(),
                old(self).stage(),
                received@,
            ),
    {
        let (next, action) = match self.stage {
            Stage::Method => if received[0] != 0x05 || received[1] != 0x00 {
                (
                    Stage::Closed,
                    Action::Fail(SocksError::MethodRejected(received[0], received[1])),
                )
            } else {
                match connect_request(&self.target) {
                    Ok(send) => (Stage::Head, Action::Exchange { send, receive: 4 }),
                    Err(error) => (Stage::Closed, Action::Fail(error)),
                }
            },
            Stage::Head => if received[1] != 0x00 {
                (Stage::Closed, Action::Fail(SocksError::ConnectFailed(received[1])))
            } else {
                match received[3] {
                    0x01 => (Stage::Bound(6), Action::Exchange { send: Vec::new(), receive: 6 }),
                    0x04 => (Stage::Bound(18), Action::Exchange { send: Vec::new(), receive: 18 }),
                    0x03 => (Stage::NameLength, Action::Exchange { send: Vec::new(), receive: 1 }),
                    other => (
                        Stage::Closed,
                        Action::Fail(SocksError::UnknownAddressType(other)),
                    ),
                }
            },
            Stage::NameLength => {
                let receive: usize = received[0] as usize + 2;
                (Stage::Bound(receive), Action::Exchange { send: Vec::new(), receive })
            },
            Stage::Bound(_) => (Stage::Closed, Action::Established),
            Stage::Closed => (Stage::Closed, Action::Fail(SocksError::HandshakeOver)),
        };
        self.stage = next;
        action
    }
}

/// How a handshake ends.
pub enum End {
    /// The connection stands; `rest` is what the target sent already.
    Established { rest: Seq<u8> },
    /// The client gave up.
    Failed(SocksError),
    /// The proxy stopped sending.
    Starved,
}

/// What a client that waits at `stage` still sends, and how its handshake ends,
/// where `stream` is all that still comes from the proxy.
pub open spec fn drive(
    target: crate::socks::TargetView,
    stage: Stage,
    stream: Seq<u8>,
) -> (Seq<u8>, End)
    decreases stage.remaining(),
{
    let n = stage.awaits() as int;
    if stream.len() < n {
        (Seq::empty(), End::Starved)
    } else {
        let (next, action) = step(target, stage, stream.take(n));
        match action {
            ActionView::Exchange { send, .. } => {
                let (sent, end) = drive(target, next, stream.skip(n));
                (send + sent, end)
            },
            ActionView::Established => (Seq::empty(), End::Established { rest: stream.skip(n) }),
            ActionView::Fail(error) => (Seq::empty(), End::Failed(error)),
        }
    }
}

/// The number of bytes that the proxy's answers take, where they tell it: two for
/// the method, four for the head of the reply, the bound address with the length
/// of a name before it, and two for the port.
pub open spec fn answers_len(stream: Seq<u8>) -> Option<nat> {
    if stream.len() < 6 {
        None
    } else if stream[5] == 1 {
        Some(12)
    } else if stream[5] == 4 {
        Some(24)
    } else if stream[5] == 3 && stream.len() > 6 {
        Some((9 + stream[6]) as nat)
    } else {
        None
    }
}

/// What comes of a whole handshake. The request is sent only once the proxy has
/// chosen the method "no authentication" of version 5. The connection stands just
/// where the proxy then replies with code 0 and an address type that there is,
/// and no byte beyond that reply is taken from the target. Each error has its own
/// cause, the earliest one counting.
pub proof fn law_handshake(target: crate::socks::TargetView, stream: Seq<u8>)
    ensures
        ({
            let (sent, end) = drive(target, Stage::Method, stream);
            let accepted = stream.len() >= 2 && stream[0] == 5 && stream[1] == 0;
            let asked = accepted && target.encodable();
            let replied = asked && stream.len() >= 6;
            let known = replied && (stream[5] == 1 || stream[5] == 3 || stream[5] == 4);
            &&& sent == if asked {
                target.request()
            } else {
                Seq::empty()
            }
            &&& end is Established <==> known && stream[3] == 0 && (answers_len(stream) matches Some(
                n,
            ) && stream.len() >= n)
            &&& end matches End::Established { rest } ==> rest == stream.skip(
                answers_len(stream).unwrap() as int,
            )
            &&& forall|a: u8, b: u8|
                end == End::Failed(SocksError::MethodRejected(a, b)) <==> (stream.len() >= 2
                    && !accepted && a == stream[0] && b == stream[1])
            &&& end == End::Failed(SocksError::HostNameTooLong) <==> (accepted
                && !target.encodable())
            &&& forall|code: u8|
                end == End::Failed(SocksError::ConnectFailed(code)) <==> (replied && stream[3]
                    != 0 && code == stream[3])
            &&& forall|kind: u8|
                end == End::Failed(SocksError::UnknownAddressType(kind)) <==> (replied && stream[3]
                    == 0 && !known && kind == stream[5])
            &&& end != End::Failed(SocksError::HandshakeOver)
        }),
{
    reveal_with_fuel(drive, 5);
    let s1 = stream.skip(2);
    let s2 = s1.skip(4);
    let s3 = s2.skip(1);
    if stream.len() >= 2 {
        assert(stream.take(2)[0] == stream[0] && stream.take(2)[1] == stream[1]);
        if stream.len() >= 6 {
            assert(s1.take(4)[1] == stream[3] && s1.take(4)[3] == stream[5]);
            assert(s2 =~= stream.skip(6));
            if stream.len() >= 7 {
                assert(s2.take(1)[0] == stream[6]);
                assert(s3 =~= stream.skip(7));
            }
        }
    }
}

} // verus!
