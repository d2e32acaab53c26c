use vstd::prelude::*;

use crate::codec::encode_envelope;
use crate::message::ChatMessage;
use crate::registry::Registry;
use crate::text::{trim, trimmed};

verus! {

/// Where a connection stands.
#[derive(Clone, Copy, Debug, PartialEq, Eq, Structural)]
pub enum Phase {
    /// Waiting for the first text frame, which names the client.
    AwaitingHandshake,
    /// Relaying chat in both directions.
    Active,
    /// Done: the name, if one was taken, has been given back.
    Closed,
}

/// What the client's side of the transport delivered.
pub enum Frame {
    Text(String),
    Close,
    /// A frame that carries no text (binary, ping, pong).
    Other,
    /// The transport failed while reading.
    Failed,
    /// The stream ended.
    Ended,
}

/// What the caller has to do on the connection's behalf.
pub enum Action {
    /// Hand the envelope to every subscriber of the broadcast channel.
    Publish(ChatMessage),
    /// Send the text to this client.
    Send(String),
    /// Send a close signal to this client; only a client whose name is taken gets one.
    Close,
}

/// The state of one client's connection to the chat server.
pub struct Connection {
    phase: Phase,
    username: String,
}

impl View for Connection {
    type V = (Phase, Seq<char>);

    closed spec fn view(&self) -> (Phase, Seq<char>) {
        (self.phase, self.username@)
    }
}

/// The author of the server's own notices.
pub open spec fn host() -> Seq<char> {
    seq!['H', 'o', 's', 't']
}

pub open spec fn join_notice(name: Seq<char>) -> Seq<char> {
    name + " has joined the chat!"@
}

pub open spec fn taken_notice(name: Seq<char>) -> Seq<char> {
    "Username '"@ + name + "' is already taken. Please choose a different one."@
}

pub open spec fn publishes(r: Seq<Action>, m: (Seq<char>, Seq<char>)) -> bool {
    r.len() == 1 && r[0] is Publish && r[0]->Publish_0@ == m
}

pub open spec fn sends(r: Seq<Action>, text: Seq<char>) -> bool {
    r.len() == 1 && r[0] is Send && r[0]->Send_0@ == text
}

pub open spec fn sends_then_closes(r: Seq<Action>, text: Seq<char>) -> bool {
    r.len() == 2 && r[0] is Send && r[0]->Send_0@ == text && r[1] is Close
}

fn host_name() -> (r: String)
    ensures
        r@ == host(),
{
    let r = String::from_str("Host");
    proof {
        reveal_strlit("Host");
    }
    assert(r@ =~= host());
    r
}

impl Connection {
    pub fn new() -> (r: Connection)
        ensures
            r@ == (Phase::AwaitingHandshake, Seq::<char>::empty()),
    {
        Connection { phase: Phase::AwaitingHandshake, username: String::new() }
    }

    pub fn phase(&self) -> (r: Phase)
        ensures
            r == self@.0,
    {
        self.phase
    }

    pub fn username(&self) -> (r: String)
        ensures
            r@ == self@.1,
    {
        self.username.clone()
    }

    /// Gives the name back and ends the connection; nothing is sent.
    fn close(&mut self, registry: &mut Registry) -> (r: Vec<Action>)
        requires
            old(registry).wf(),
        ensures
            final(registry).wf(),
            forall|n: Seq<char>| #[trigger]
                final(registry)@.contains(n) == (old(registry)@.contains(n) && n != old(
                    self,
                )@.1),
            final(self)@ == (Phase::Closed, old(self)@.1),
            r@.len() == 0,
    {
        registry.unregister(self.username.as_str());
        self.phase = Phase::Closed;
        Vec::new()
    }

    /// Takes one frame from the client.
    ///
    /// Before the handshake, a text frame names the client: the trimmed name is
    /// registered and a join notice published, or, where the name is taken, the client
    /// gets a notice from the host and the connection closes with nothing registered.
    /// Any other frame then ends the connection with nothing registered and nothing sent.
    /// Once active, a text frame is published
    /// under the client's name, a frame without text is ignored, and a close, a failure
    /// or the end of the stream gives the name back and ends the connection, with nothing
    /// sent.
    pub fn on_frame(&mut self, registry: &mut Registry, frame: Frame) -> (r: Vec<Action>)
        requires
            old(registry).wf(),
        ensures
            final(registry).wf(),
            old(self)@.0 == Phase::AwaitingHandshake && frame is Text ==> {
                let name = trimmed(frame->Text_0@);
                if !old(registry)@.contains(name) {
                    &&& final(registry)@ == old(registry)@.push(name)
                    &&& final(self)@ == (Phase::Active, name)
                    &&& publishes(r@, (host(), join_notice(name)))
                } else {
                    &&& final(registry)@ == old(registry)@
                    &&& final(self)@ == (Phase::Closed, old(self)@.1)
                    &&& sends_then_closes(r@, encode_envelope(host(), taken_notice(name)))
                }
            },
            old(self)@.0 == Phase::AwaitingHandshake && !(frame is Text) ==> {
                &&& final(registry)@ == old(registry)@
                &&& final(self)@ == (Phase::Closed, old(self)@.1)
                &&& r@.len() == 0
            },
            old(self)@.0 == Phase::Active && frame is Text ==> {
                &&& final(registry)@ == old(registry)@
                &&& final(self)@ == old(self)@
                &&& publishes(r@, (old(self)@.1, frame->Text_0@))
            },
            old(self)@.0 == Phase::Active && frame is Other ==> {
                &&& final(registry)@ == old(registry)@
                &&& final(self)@ == old(self)@
                &&& r@.len() == 0
            },
            old(self)@.0 == Phase::Active && !(frame is Text) && !(frame is Other) ==> {
                &&& forall|n: Seq<char>| #[trigger]
                    final(registry)@.contains(n) == (old(registry)@.contains(n) && n != old(
                        self,
                    )@.1)
                &&& final(self)@ == (Phase::Closed, old(self)@.1)
                &&& r@.len() == 0
            },
            old(self)@.0 == Phase::Closed ==> {
                &&& final(registry)@ == old(registry)@
                &&& final(self)@ == old(self)@
                &&& r@.len() == 0
            },
    {
        match self.phase {
            Phase::AwaitingHandshake => match frame {
                Frame::Text(text) => {
                    let name = trim(text.as_str());
                    if registry.try_register(name.as_str()) {
                        proof {
                            crate::text::lemma_trimmed_idempotent(text@);
                        }
                        let mut notice = name.clone();
                        notice.append(" has joined the chat!");
                        self.phase = Phase::Active;
                        self.username = name;
                        vec![Action::Publish(ChatMessage::new(host_name().as_str(), notice.as_str()))]
                    } else {
                        proof {
                            crate::text::lemma_trimmed_idempotent(text@);
                        }
                        let mut notice = String::from_str("Username '");
                        notice.append(name.as_str());
                        notice.append("' is already taken. Please choose a different one.");
                        let rejection = ChatMessage::new(host_name().as_str(), notice.as_str());
                        self.phase = Phase::Closed;
                        vec![Action::Send(rejection.encode()), Action::Close]
                    }
                },
                _ => {
                    self.phase = Phase::Closed;
                    Vec::new()
                },
            },
            Phase::Active => match frame {
                Frame::Text(text) => {
                    vec![Action::Publish(ChatMessage::new(self.username.as_str(), text.as_str()))]
                },
                Frame::Other => Vec::new(),
                _ => self.close(registry),
            },
            Phase::Closed => Vec::new(),
        }
    }

    /// Takes one envelope from the broadcast channel: an active connection forwards it to
    /// its client unless the client wrote it; otherwise nothing is sent.
    pub fn on_broadcast(&self, envelope: &ChatMessage) -> (r: Vec<Action>)
        ensures
            self@.0 == Phase::Active && envelope@.0 != self@.1 ==> sends(
                r@,
                encode_envelope(envelope@.0, envelope@.1),
            ),
            !(self@.0 == Phase::Active && envelope@.0 != self@.1) ==> r@.len() == 0,
    {
        if self.phase == Phase::Active {
            let author = envelope.get_username();
            if author != self.username {
                return vec![Action::Send(envelope.encode())];
            }
        }
        Vec::new()
    }

    /// Sending to the client failed: an active connection gives its name back and ends,
    /// with nothing sent.
    pub fn on_send_failed(&mut self, registry: &mut Registry) -> (r: Vec<Action>)
        requires
            old(registry).wf(),
        ensures
            final(registry).wf(),
            old(self)@.0 == Phase::Active ==> {
                &&& forall|n: Seq<char>| #[trigger]
                    final(registry)@.contains(n) == (old(registry)@.contains(n) && n != old(
                        self,
                    )@.1)
                &&& final(self)@ == (Phase::Closed, old(self)@.1)
                &&& r@.len() == 0
            },
            old(self)@.0 != Phase::Active ==> {
                &&& final(registry)@ == old(registry)@
                &&& final(self)@ == old(self)@
                &&& r@.len() == 0
            },
    {
        if self.phase == Phase::Active {
            self.close(registry)
        } else {
            Vec::new()
        }
    }
}

} // verus!
