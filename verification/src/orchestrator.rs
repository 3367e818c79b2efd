//! The four-message exchange as a pure state machine.  The caller performs
//! every read and write: it feeds each completed read or write in as an
//! `Event` and carries the returned `Action` out.  The machine is strictly
//! linear; any failure moves it to `Aborted` and no retry is made.

use crate::error::AuthError;
use crate::greeting::{parse_greeting, parse_initial_handshake, InitialHandshake};
use crate::response::{build_handshake_response, response_bytes, Credentials};
use vstd::prelude::*;

verus! {

/// Where the exchange stands.  Each state waits for exactly one event.
#[derive(Clone, Copy, PartialEq, Eq, Structural, Debug)]
pub enum HandshakeState {
    /// Waiting for the server's greeting frame.
    AwaitServerGreeting,
    /// Waiting for the greeting forward to the client to complete.
    ForwardGreetingToClient,
    /// Waiting for the client's own response frame, which is discarded.
    AwaitClientResponse,
    /// Waiting for the substituted response write to the server to complete.
    ComputeAndSendSubstitutedResponse,
    /// Waiting for the server's result frame.
    AwaitServerResult,
    /// Waiting for the result forward to the client to complete.
    ForwardResultToClient,
    /// Terminal: the handshake succeeded; relay bytes opaquely from here on.
    HandoffToRelay,
    /// Terminal: the handshake failed; close both connections.
    Aborted,
}

/// A completed piece of outside work, fed back into the machine.
pub enum Event {
    /// A read from the server returned these bytes.
    ServerBytes(Vec<u8>),
    /// A read from the client returned these bytes.
    ClientBytes(Vec<u8>),
    /// The requested write completed.
    WriteDone,
    /// A read or write failed.
    IoFailed,
}

/// What the caller must do next.
pub enum Action {
    /// Read the next frame from the server.
    ReadServer,
    /// Read the next frame from the client.
    ReadClient,
    /// Write these bytes to the client.
    WriteClient(Vec<u8>),
    /// Write these bytes to the server.
    WriteServer(Vec<u8>),
    /// Hand both connections to the relay.
    Relay,
    /// Close both connections.
    CloseBoth,
}

/// Drives one connection's handshake.  Holds the proxy's credentials and,
/// once the greeting arrived, its parsed fields.
pub struct Orchestrator {
    pub state: HandshakeState,
    pub credentials: Credentials,
    pub greeting: Option<InitialHandshake>,
    pub failure: Option<AuthError>,
}

impl Orchestrator {
    /// The machine's invariant: the credentials are encodable, a parsed
    /// greeting is held from the moment the greeting was forwarded until the
    /// handshake ends, and a failure is recorded exactly when aborted.
    pub open spec fn wf(self) -> bool {
        &&& self.credentials@.wf()
        &&& match self.state {
            HandshakeState::AwaitServerGreeting => true,
            HandshakeState::Aborted => self.failure is Some,
            HandshakeState::HandoffToRelay => true,
            _ => self.greeting matches Some(h) && h@.wf(),
        }
    }

    /// Starts a connection's handshake with the held credentials.
    pub fn new(credentials: Credentials) -> (r: Orchestrator)
        requires
            credentials@.wf(),
        ensures
            r.wf(),
            r.state is AwaitServerGreeting,
            r.credentials@ == credentials@,
            r.greeting is None,
            r.failure is None,
    {
        Orchestrator {
            state: HandshakeState::AwaitServerGreeting,
            credentials,
            greeting: None,
            failure: None,
        }
    }

    /// The first thing to do: read the server's greeting.
    pub fn start(&self) -> (a: Action)
        ensures
            a is ReadServer,
    {
        Action::ReadServer
    }

    /// Feeds one completed piece of outside work in and says what to do
    /// next.  The exchange is strictly linear:
    /// greeting in → greeting forwarded → client response discarded →
    /// substituted response out → server result in → result forwarded →
    /// relay.  `IoFailed`, a malformed greeting, an unsupported server, an
    /// oversized response, or an event the current state does not expect all
    /// abort.
    pub fn step(&mut self, event: Event) -> (a: Action)
        requires
            old(self).wf(),
        ensures
            final(self).wf(),
            final(self).credentials@ == old(self).credentials@,
            // terminal states stay terminal
            old(self).state is HandoffToRelay ==> final(self).state is HandoffToRelay
                && a is Relay,
            old(self).state is Aborted ==> final(self).state is Aborted && a is CloseBoth,
            // an i/o failure aborts from any waiting state
            !(old(self).state is HandoffToRelay) && !(old(self).state is Aborted) && event
                is IoFailed ==> final(self).state is Aborted && final(self).failure == Some(
                AuthError::IoError,
            ) && a is CloseBoth,
            // the greeting arrives: parse it, keep it, forward its frame
            old(self).state is AwaitServerGreeting ==> (match event {
                Event::ServerBytes(buf) => match parse_greeting(buf@) {
                    Ok(gv) => {
                        &&& final(self).state is ForwardGreetingToClient
                        &&& final(self).greeting matches Some(h) && h@ == gv
                        &&& a matches Action::WriteClient(v) && v@ == buf@.take(
                            4 + gv.payload_len,
                        )
                    },
                    Err(e) => final(self).state is Aborted && final(self).failure == Some(e)
                        && a is CloseBoth,
                },
                _ => final(self).state is Aborted && a is CloseBoth,
            }),
            // the greeting reached the client: read the client's response
            old(self).state is ForwardGreetingToClient ==> (match event {
                Event::WriteDone => final(self).state is AwaitClientResponse
                    && final(self).greeting == old(self).greeting && a is ReadClient,
                _ => final(self).state is Aborted && a is CloseBoth,
            }),
            // the client's response is discarded; the substituted response,
            // built from the held credentials, goes to the server
            old(self).state is AwaitClientResponse ==> (match event {
                Event::ClientBytes(_) => {
                    let gv = old(self).greeting->Some_0@;
                    if 55 + old(self).credentials@.username.len() + gv.auth_plugin_name.len()
                        < 16777216 {
                        &&& final(self).state is ComputeAndSendSubstitutedResponse
                        &&& final(self).greeting == old(self).greeting
                        &&& a matches Action::WriteServer(v) && v@ == response_bytes(
                            gv,
                            old(self).credentials@,
                        )
                    } else {
                        final(self).state is Aborted && final(self).failure == Some(
                            AuthError::EncodingError,
                        ) && a is CloseBoth
                    }
                },
                _ => final(self).state is Aborted && a is CloseBoth,
            }),
            // the substituted response reached the server: read its verdict
            old(self).state is ComputeAndSendSubstitutedResponse ==> (match event {
                Event::WriteDone => final(self).state is AwaitServerResult && a is ReadServer,
                _ => final(self).state is Aborted && a is CloseBoth,
            }),
            // the server's result arrives: forward its frame to the client
            old(self).state is AwaitServerResult ==> (match event {
                Event::ServerBytes(buf) => if crate::frame::holds_frame(buf@) {
                    final(self).state is ForwardResultToClient && (a matches Action::WriteClient(
                        v,
                    ) && v@ == buf@.take(4 + crate::frame::declared_len(buf@)))
                } else {
                    final(self).state is Aborted && final(self).failure == Some(
                        AuthError::ParseError,
                    ) && a is CloseBoth
                },
                _ => final(self).state is Aborted && a is CloseBoth,
            }),
            // the result reached the client: the handshake is done
            old(self).state is ForwardResultToClient ==> (match event {
                Event::WriteDone => final(self).state is HandoffToRelay && a is Relay,
                _ => final(self).state is Aborted && a is CloseBoth,
            }),
    {
        match self.state {
            HandshakeState::HandoffToRelay => Action::Relay,
            HandshakeState::Aborted => Action::CloseBoth,
            HandshakeState::AwaitServerGreeting => match event {
                Event::ServerBytes(buf) => match parse_initial_handshake(buf.as_slice()) {
                    Ok(h) => {
                        proof {
                            crate::greeting::lemma_parse_greeting_ok(buf@);
                        }
                        let fwd = crate::bytes::copy_range(buf.as_slice(), 0, 4 + h.payload_len);
                        proof {
                            assert(fwd@ =~= buf@.take(4 + h@.payload_len));
                        }
                        self.state = HandshakeState::ForwardGreetingToClient;
                        self.greeting = Some(h);
                        Action::WriteClient(fwd)
                    },
                    Err(e) => self.abort(e),
                },
                _ => self.abort_io(event),
            },
            HandshakeState::ForwardGreetingToClient => match event {
                Event::WriteDone => {
                    self.state = HandshakeState::AwaitClientResponse;
                    Action::ReadClient
                },
                _ => self.abort_io(event),
            },
            HandshakeState::AwaitClientResponse => match event {
                Event::ClientBytes(_) => {
                    let g = match &self.greeting {
                        Some(h) => h,
                        None => {
                            proof {
                                assert(false);
                            }
                            return Action::CloseBoth;
                        },
                    };
                    match build_handshake_response(g, &self.credentials) {
                        Ok(v) => {
                            self.state = HandshakeState::ComputeAndSendSubstitutedResponse;
                            Action::WriteServer(v)
                        },
                        Err(e) => self.abort(e),
                    }
                },
                _ => self.abort_io(event),
            },
            HandshakeState::ComputeAndSendSubstitutedResponse => match event {
                Event::WriteDone => {
                    self.state = HandshakeState::AwaitServerResult;
                    Action::ReadServer
                },
                _ => self.abort_io(event),
            },
            HandshakeState::AwaitServerResult => match event {
                Event::ServerBytes(buf) => match crate::frame::decode_frame(buf.as_slice()) {
                    Ok(f) => {
                        let fwd = crate::bytes::copy_range(
                            buf.as_slice(),
                            0,
                            4 + f.payload.len(),
                        );
                        proof {
                            assert(fwd@ =~= buf@.take(4 + crate::frame::declared_len(buf@)));
                        }
                        self.state = HandshakeState::ForwardResultToClient;
                        Action::WriteClient(fwd)
                    },
                    Err(e) => self.abort(e),
                },
                _ => self.abort_io(event),
            },
            HandshakeState::ForwardResultToClient => match event {
                Event::WriteDone => {
                    self.state = HandshakeState::HandoffToRelay;
                    Action::Relay
                },
                _ => self.abort_io(event),
            },
        }
    }

    /// Records a failure and aborts the connection's handshake.
    fn abort(&mut self, e: AuthError) -> (a: Action)
        ensures
            final(self).state is Aborted,
            final(self).failure == Some(e),
            final(self).credentials == old(self).credentials,
            final(self).greeting == old(self).greeting,
            a is CloseBoth,
    {
        self.state = HandshakeState::Aborted;
        self.failure = Some(e);
        Action::CloseBoth
    }

    /// Aborts on an i/o failure or on an event the state does not expect.
    fn abort_io(&mut self, _event: Event) -> (a: Action)
        ensures
            final(self).state is Aborted,
            final(self).failure == Some(AuthError::IoError),
            final(self).credentials == old(self).credentials,
            final(self).greeting == old(self).greeting,
            a is CloseBoth,
    {
        self.abort(AuthError::IoError)
    }
}

} // verus!
