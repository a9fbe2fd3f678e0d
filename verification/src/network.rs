//! The protocol layer: signed envelopes, the two request/response
//! sub-protocols, and the event-loop state that multiplexes inbound
//! network events against locally issued commands.
//!
//! The event loop here is a state object with pure handler functions:
//! the surrounding runtime owns the network handle and the channels,
//! feeds one inbound event or command at a time to the handlers, and
//! carries out the actions they return.

pub mod chat;
pub mod friends;
pub mod signable;

use crate::network::chat::{
    ChatCommand, DirectMessageRequest, DirectMessageResponse, Message, MessageResponse,
};
use crate::network::friends::{FriendCommand, FriendRequest, FriendResponse};
use crate::network::signable::{
    envelope_ok, signed_with, spec_verify, Keypair, PublicKey, Signed,
};
use crate::settings::Settings;
use libp2p::PeerId;
use vstd::prelude::*;

verus! {

/// Relies on libp2p's PeerId: an opaque peer identifier, carried
/// through the protocol layer and never inspected by it.
#[verifier::external_type_specification]
#[verifier::external_body]
pub struct ExPeerId(libp2p::PeerId);

/// A locally issued intent, produced by the client facade and consumed
/// exactly once by the event loop.
pub enum Command {
    ChatCommand(ChatCommand),
    FriendCommand(FriendCommand),
}

/// An outward-facing protocol event, delivered to the application
/// layer at most once per underlying network event.
#[derive(Debug)]
pub enum Event {
    InboundMessage { message: Message, sender: PublicKey },
    OutboundMessageReceived { message_id: u128 },
    OutboundMessageInvalidSignature { message_id: u128 },
}

/// A protocol-level event delivered by the overlay network: an inbound
/// request that awaits a reply on its single-use channel, or the
/// response to a request this node sent earlier.
pub enum NetEvent {
    InboundMessageRequest(DirectMessageRequest),
    InboundMessageResponse(DirectMessageResponse),
    InboundFriendRequest(FriendRequest),
    InboundFriendResponse(Signed<FriendResponse>),
}

/// What the event loop instructs the network layer to do in reaction
/// to one inbound event or local command: answer on the single-use
/// reply channel of the event being handled, open a new request toward
/// a peer, or surface an event to the application.
pub enum Action {
    ReplyDirectMessage(DirectMessageResponse),
    ReplyFriend(Signed<FriendResponse>),
    SendDirectMessage { peer: PeerId, request: DirectMessageRequest },
    SendFriendRequest { peer: PeerId, request: FriendRequest },
    Emit(Event),
}

/// The message id a response correlates to.
pub open spec fn message_id_of(r: MessageResponse) -> u128 {
    match r {
        MessageResponse::ACK { message_id } => message_id,
        MessageResponse::InvalidSignature { message_id } => message_id,
    }
}

/// The event a matched response gives rise to.
pub open spec fn response_event(r: MessageResponse) -> Event {
    match r {
        MessageResponse::ACK { message_id } => (Event::OutboundMessageReceived { message_id }),
        MessageResponse::InvalidSignature { message_id } => (Event::OutboundMessageInvalidSignature {
            message_id,
        }),
    }
}

/// The reply a responder owes an inbound direct message: an
/// acknowledgment when the envelope verifies, an invalid-signature
/// report otherwise, either way correlated by the embedded id.
pub open spec fn message_request_reply(request: DirectMessageRequest) -> DirectMessageResponse {
    if envelope_ok(request.0) {
        DirectMessageResponse(MessageResponse::ACK { message_id: request.0.content.id })
    } else {
        DirectMessageResponse(
            MessageResponse::InvalidSignature { message_id: request.0.content.id },
        )
    }
}

/// The response content a friend-handshake responder owes `req`,
/// given its current settings.
pub open spec fn friend_reply_matches(s: Settings, req: FriendRequest, v: FriendResponse) -> bool {
    match req {
        FriendRequest::RequestName => v matches FriendResponse::RequestName { name }
            && name@ == crate::settings::spec_response_name(s),
        FriendRequest::VerifyName { name } => if name@ == crate::settings::spec_response_name(s) {
            v == FriendResponse::VerifyName(None::<String>)
        } else {
            v matches FriendResponse::VerifyName(Some(current)) && current@
                == crate::settings::spec_response_name(s)
        },
        FriendRequest::AddFriend => v == FriendResponse::AddFriendAck,
        FriendRequest::AcceptFriend { decision: _ } => v == FriendResponse::AcceptFriendAck,
    }
}

/// After retiring `mid`: it is gone, every other id is untouched, and
/// exactly one slot was given up.
pub open spec fn pending_retire(before: Seq<u128>, after: Seq<u128>, mid: u128) -> bool {
    &&& !after.contains(mid)
    &&& forall|x: u128| x != mid ==> after.contains(x) == before.contains(x)
    &&& after.len() == before.len() - 1
}

/// What handling one chat command does to the pending-id record and
/// which action it yields.  Sending records the message id, so that at
/// most one outstanding request exists per id; the id stays recorded
/// until its response arrives.
pub open spec fn chat_command_effect(
    before: Seq<u128>,
    after: Seq<u128>,
    command: ChatCommand,
    r: Option<Action>,
) -> bool {
    match command {
        ChatCommand::SendMessage { receiver, message } => {
            &&& r == Some(
                Action::SendDirectMessage {
                    peer: receiver,
                    request: (DirectMessageRequest(message)),
                },
            )
            &&& after.contains(message.content.id)
            &&& forall|x: u128|
                x != message.content.id ==> after.contains(x) == before.contains(x)
            &&& (before.contains(message.content.id) ==> after == before)
            &&& (!before.contains(message.content.id) ==> after == before.push(
                message.content.id,
            ))
        },
        ChatCommand::ReadMessage { .. } => r is None && after == before,
    }
}

/// The request a friend-handshake command opens toward its peer.
pub open spec fn friend_command_action(command: FriendCommand) -> Action {
    match command {
        FriendCommand::RequestName { peer } => (Action::SendFriendRequest {
            peer,
            request: FriendRequest::RequestName,
        }),
        FriendCommand::VerifyName { name, peer } => (Action::SendFriendRequest {
            peer,
            request: (FriendRequest::VerifyName { name }),
        }),
        FriendCommand::AddFriend { peer } => (Action::SendFriendRequest {
            peer,
            request: FriendRequest::AddFriend,
        }),
        FriendCommand::AcceptFriend { peer, decision } => (Action::SendFriendRequest {
            peer,
            request: (FriendRequest::AcceptFriend { decision }),
        }),
    }
}

/// One full round trip of the direct-message sub-protocol, at the
/// specification level: an envelope freshly produced by `sign`
/// verifies at the receiver, whose reply is the acknowledgment
/// correlated by the message's own id; at the sender, where that id is
/// still pending, the acknowledgment yields exactly the delivery
/// event.
pub proof fn lemma_message_round_trip(
    env: Signed<Message>,
    m: Message,
    keypair: Seq<u8>,
    pending: Seq<u128>,
)
    requires
        signed_with(env, m, keypair),
        pending.contains(m.id),
    ensures
        envelope_ok(env),
        spec_verify(env) == Some((m, signable::pk_of(keypair))),
        message_request_reply(DirectMessageRequest(env)) == DirectMessageResponse(
            MessageResponse::ACK { message_id: m.id },
        ),
        response_event(MessageResponse::ACK { message_id: m.id }) == (Event::OutboundMessageReceived {
            message_id: m.id,
        }),
{
}

/// One full round trip of the name exchange, at the specification
/// level: the signed reply that the responder owes a name request
/// verifies at the requester, and recovers the responder's public key
/// together with the responder's actual current display name.
pub proof fn lemma_name_exchange_round_trip(
    env: Signed<FriendResponse>,
    keypair: Seq<u8>,
    settings: Settings,
)
    requires
        signed_with(env, env.content, keypair),
        friend_reply_matches(settings, FriendRequest::RequestName, env.content),
    ensures
        spec_verify(env) == Some((env.content, signable::pk_of(keypair))),
        env.content matches FriendResponse::RequestName { name } && name@
            == crate::settings::spec_response_name(settings),
{
}

/// No id occurs twice.
pub open spec fn unique_ids(s: Seq<u128>) -> bool {
    forall|i: int, j: int| 0 <= i < j < s.len() ==> s[i] != s[j]
}

/// Removing position `i` from a duplicate-free sequence retires
/// exactly the id that stood there.
proof fn lemma_unique_remove(s: Seq<u128>, i: int)
    requires
        unique_ids(s),
        0 <= i < s.len(),
    ensures
        unique_ids(s.remove(i)),
        pending_retire(s, s.remove(i), s[i]),
{
    let t = s.remove(i);
    assert forall|j: int| 0 <= j < t.len() implies t[j] != s[i] by {
        if j >= i {
            assert(t[j] == s[j + 1]);
        }
    }
    assert(!t.contains(s[i]));
    assert forall|x: u128| x != s[i] implies t.contains(x) == s.contains(x) by {
        if s.contains(x) {
            let j = choose|j: int| 0 <= j < s.len() && s[j] == x;
            if j < i {
                assert(t[j] == x);
            } else {
                assert(t[j - 1] == x);
            }
            assert(t.contains(x));
        }
        if t.contains(x) {
            let j = choose|j: int| 0 <= j < t.len() && t[j] == x;
            if j < i {
                assert(s[j] == x);
            } else {
                assert(s[j + 1] == x);
            }
            assert(s.contains(x));
        }
    }
    assert forall|p: int, q: int| 0 <= p < q < t.len() implies t[p] != t[q] by {
        let p0: int = if p < i {
            p
        } else {
            p + 1
        };
        let q0: int = if q < i {
            q
        } else {
            q + 1
        };
        assert(t[p] == s[p0]);
        assert(t[q] == s[q0]);
    }
}

/// The protocol and identity state of the dispatcher: the local
/// keypair, the local settings, and the ids of messages sent but not
/// yet answered.  Only the handlers below can change it.
pub struct EventLoop {
    id: Keypair,
    settings: Settings,
    pending: Vec<u128>,
}

impl EventLoop {
    #[verifier::type_invariant]
    spec fn inv(self) -> bool {
        unique_ids(self.pending@)
    }

    /// The secret view of the local keypair.
    pub closed spec fn spec_id(self) -> Seq<u8> {
        self.id@
    }

    /// The local settings.
    pub closed spec fn spec_settings(self) -> Settings {
        self.settings
    }

    /// The ids of sent messages still awaiting their response.
    pub closed spec fn spec_pending(self) -> Seq<u128> {
        self.pending@
    }

    pub fn new(id: Keypair, settings: Settings) -> (r: EventLoop)
        ensures
            r.spec_id() == id@,
            r.spec_settings() == settings,
            r.spec_pending() == Seq::<u128>::empty(),
    {
        let pending: Vec<u128> = Vec::new();
        proof {
            assert(pending@ =~= Seq::<u128>::empty());
        }
        EventLoop { id, settings, pending }
    }

    /// Responder side of an inbound direct message: on a valid
    /// signature, acknowledge and surface the message together with
    /// its proven sender; on any mismatch, report the invalid
    /// signature and surface nothing.  A reply is always produced.
    pub fn handle_message_request(&self, request: DirectMessageRequest) -> (r: (
        DirectMessageResponse,
        Option<Event>,
    ))
        ensures
            r.0 == message_request_reply(request),
            envelope_ok(request.0) ==> (r.1 matches Some(
                Event::InboundMessage { message, sender },
            ) && message == request.0.content && sender@ == request.0.pub_key@),
            !envelope_ok(request.0) ==> r.1 is None,
    {
        let DirectMessageRequest(envelope) = request;
        let message_id = envelope.content.id;
        match envelope.verify() {
            Some((message, sender)) => (
                DirectMessageResponse(MessageResponse::ACK { message_id }),
                Some(Event::InboundMessage { message, sender }),
            ),
            None => (
                DirectMessageResponse(MessageResponse::InvalidSignature { message_id }),
                None,
            ),
        }
    }

    /// Sender side of a response: an event is emitted only when the id
    /// matches a message this node sent and still awaits, and that id
    /// is then retired.  An unmatched response is dropped without any
    /// event.
    pub fn handle_message_response(&mut self, response: DirectMessageResponse) -> (r: Option<
        Event,
    >)
        ensures
            final(self).spec_id() == old(self).spec_id(),
            final(self).spec_settings() == old(self).spec_settings(),
            old(self).spec_pending().contains(message_id_of(response.0)) ==> r == Some(
                response_event(response.0),
            ) && pending_retire(
                old(self).spec_pending(),
                final(self).spec_pending(),
                message_id_of(response.0),
            ),
            !old(self).spec_pending().contains(message_id_of(response.0)) ==> r is None
                && *final(self) == *old(self),
    {
        proof {
            use_type_invariant(&*self);
        }
        let mid = match response.0 {
            MessageResponse::ACK { message_id } => message_id,
            MessageResponse::InvalidSignature { message_id } => message_id,
        };
        let n = self.pending.len();
        let mut idx: usize = n;
        let mut i: usize = 0;
        while i < n
            invariant
                i <= n,
                idx <= n,
                n == self.pending@.len(),
                idx == n ==> forall|j: int| 0 <= j < i ==> self.pending@[j] != mid,
                idx < n ==> self.pending@[idx as int] == mid,
            decreases n - i,
        {
            if idx == n && self.pending[i] == mid {
                idx = i;
            }
            i = i + 1;
        }
        if idx < n {
            proof {
                lemma_unique_remove(self.pending@, idx as int);
            }
            let mut pending: Vec<u128> = Vec::new();
            std::mem::swap(&mut pending, &mut self.pending);
            pending.remove(idx);
            self.pending = pending;
            match response.0 {
                MessageResponse::ACK { message_id } => Some(
                    Event::OutboundMessageReceived { message_id },
                ),
                MessageResponse::InvalidSignature { message_id } => Some(
                    Event::OutboundMessageInvalidSignature { message_id },
                ),
            }
        } else {
            proof {
                assert(!self.pending@.contains(mid));
            }
            None
        }
    }

    /// Responder side of the friend handshake: every request gets a
    /// response, built from the current settings and signed with the
    /// responder's own keypair, so that the requester can authenticate
    /// the responder's identity for what it just learned.
    pub fn handle_friend_request(&self, request: FriendRequest) -> (r: Signed<FriendResponse>)
        ensures
            signed_with(r, r.content, self.spec_id()),
            friend_reply_matches(self.spec_settings(), request, r.content),
    {
        let reply = match request {
            FriendRequest::RequestName => FriendResponse::RequestName {
                name: self.settings.response_name(),
            },
            FriendRequest::VerifyName { name } => {
                let current = self.settings.response_name();
                if name == current {
                    FriendResponse::VerifyName(None)
                } else {
                    FriendResponse::VerifyName(Some(current))
                }
            },
            FriendRequest::AddFriend => FriendResponse::AddFriendAck,
            FriendRequest::AcceptFriend { decision: _ } => FriendResponse::AcceptFriendAck,
        };
        crate::network::signable::sign(reply, &self.id)
    }

    /// Requester side of the handshake: verification gates the
    /// response.  An unverifiable response is discarded and no event
    /// is raised; a verified one is handed back with the proven
    /// responder identity.  The protocol layer keeps no friend state
    /// of its own.
    pub fn handle_friend_response(&self, response: Signed<FriendResponse>) -> (r: Option<
        (FriendResponse, PublicKey),
    >)
        ensures
            match r {
                Some((v, pk)) => spec_verify(response) == Some((v, pk@)),
                None => spec_verify(response) is None,
            },
    {
        response.verify()
    }

    /// One dispatcher step for a single inbound network event: the
    /// returned actions are everything the protocol prescribes for it,
    /// in order, and nothing else.
    pub fn handle_event(&mut self, event: NetEvent) -> (r: Vec<Action>)
        ensures
            final(self).spec_id() == old(self).spec_id(),
            final(self).spec_settings() == old(self).spec_settings(),
            match event {
                NetEvent::InboundMessageRequest(request) => {
                    &&& *final(self) == *old(self)
                    &&& r@[0] == Action::ReplyDirectMessage(message_request_reply(request))
                    &&& if envelope_ok(request.0) {
                        r@.len() == 2 && (r@[1] matches Action::Emit(
                            Event::InboundMessage { message, sender },
                        ) && message == request.0.content && sender@ == request.0.pub_key@)
                    } else {
                        r@.len() == 1
                    }
                },
                NetEvent::InboundMessageResponse(response) => {
                    &&& (old(self).spec_pending().contains(message_id_of(response.0))
                        ==> r@.len() == 1 && r@[0] == Action::Emit(response_event(response.0))
                        && pending_retire(
                        old(self).spec_pending(),
                        final(self).spec_pending(),
                        message_id_of(response.0),
                    ))
                    &&& (!old(self).spec_pending().contains(message_id_of(response.0))
                        ==> r@.len() == 0 && *final(self) == *old(self))
                },
                NetEvent::InboundFriendRequest(request) => {
                    &&& *final(self) == *old(self)
                    &&& r@.len() == 1
                    &&& (r@[0] matches Action::ReplyFriend(env) && signed_with(
                        env,
                        env.content,
                        old(self).spec_id(),
                    ) && friend_reply_matches(old(self).spec_settings(), request, env.content))
                },
                NetEvent::InboundFriendResponse(_) => r@.len() == 0 && *final(self) == *old(self),
            },
    {
        let mut actions: Vec<Action> = Vec::new();
        match event {
            NetEvent::InboundMessageRequest(request) => {
                let (reply, emitted) = self.handle_message_request(request);
                actions.push(Action::ReplyDirectMessage(reply));
                match emitted {
                    Some(ev) => {
                        actions.push(Action::Emit(ev));
                    },
                    None => {},
                }
            },
            NetEvent::InboundMessageResponse(response) => {
                match self.handle_message_response(response) {
                    Some(ev) => {
                        actions.push(Action::Emit(ev));
                    },
                    None => {},
                }
            },
            NetEvent::InboundFriendRequest(request) => {
                let reply = self.handle_friend_request(request);
                actions.push(Action::ReplyFriend(reply));
            },
            NetEvent::InboundFriendResponse(response) => {
                let _ = self.handle_friend_response(response);
            },
        }
        actions
    }

    /// One dispatcher step for a single local command: builds the
    /// outbound request that the command asks for.
    pub fn handle_command(&mut self, command: Command) -> (r: Option<Action>)
        ensures
            final(self).spec_id() == old(self).spec_id(),
            final(self).spec_settings() == old(self).spec_settings(),
            match command {
                Command::ChatCommand(c) => chat_command_effect(
                    old(self).spec_pending(),
                    final(self).spec_pending(),
                    c,
                    r,
                ),
                Command::FriendCommand(c) => r == Some(friend_command_action(c)) && *final(self)
                    == *old(self),
            },
    {
        match command {
            Command::ChatCommand(c) => self.handle_chat_command(c),
            Command::FriendCommand(c) => Some(self.handle_friend_command(c)),
        }
    }
}

/// The client facade: turns high-level calls into commands for the
/// event loop.  It holds the local keypair for signing and never
/// touches the network handle or verification logic; the surrounding
/// runtime moves the commands onto the loop's queue.
pub struct Client {
    pub id: Keypair,
}

impl Clone for Client {
    /// The clone signs with the same identity.
    fn clone(&self) -> (r: Self)
        ensures
            r.id@ == self.id@,
    {
        Client { id: self.id.clone() }
    }
}

} // verus!
