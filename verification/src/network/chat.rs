//! The direct-message sub-protocol: a signed chat message as the
//! request, an acknowledgment correlated by message id as the response.

use crate::codec::{
    canon_text, lemma_canon_text_injective, lemma_canon_text_valid, lemma_seq_split, put_str,
    put_u128, put_u8, take_rest_text, take_u128, take_u8,
};
use crate::network::signable::{canon_signed, sign, signed_with, Signable, Signed};
use crate::network::{chat_command_effect, unique_ids, Action, Client, Command, EventLoop};
use libp2p::PeerId;
use vstd::bytes::{lemma_auto_spec_u128_to_from_le_bytes, spec_u128_to_le_bytes};
use vstd::prelude::*;
use vstd::slice::slice_index_get;

verus! {

/// A single chat message.  The id is a 128-bit identifier, globally
/// unique per message, used to correlate the later response.
#[derive(Clone, Debug)]
pub struct Message {
    pub content: String,
    pub id: u128,
}

/// Canonical encoding of a message: its id as sixteen little-endian
/// bytes, then its content as UTF-8 text.
pub open spec fn canon_message(id: u128, content: Seq<char>) -> Seq<u8> {
    spec_u128_to_le_bytes(id) + canon_text(content)
}

impl Signable for Message {
    open spec fn canon(&self) -> Seq<u8> {
        canon_message(self.id, self.content@)
    }

    fn encode(&self) -> (r: Vec<u8>) {
        let mut out: Vec<u8> = Vec::new();
        put_u128(&mut out, self.id);
        put_str(&mut out, self.content.as_str());
        proof {
            assert(out@ =~= self.canon());
        }
        out
    }

    fn decode(bytes: &[u8]) -> (r: Option<Message>) {
        match take_u128(bytes, 0) {
            None => {
                proof {
                    assert forall|m: Message| (#[trigger] m.canon()) != bytes@ by {
                        lemma_auto_spec_u128_to_from_le_bytes();
                    }
                }
                None
            },
            Some((id, j)) => {
                match take_rest_text(bytes, j) {
                    None => {
                        proof {
                            assert forall|m: Message| (#[trigger] m.canon()) != bytes@ by {
                                lemma_auto_spec_u128_to_from_le_bytes();
                                if m.canon() == bytes@ {
                                    assert(bytes@.subrange(16, bytes@.len() as int) =~= canon_text(
                                        m.content@,
                                    ));
                                    lemma_canon_text_valid(m.content@);
                                }
                            }
                        }
                        None
                    },
                    Some(content) => {
                        let m = Message { content, id };
                        proof {
                            lemma_seq_split(bytes@, 0, 16, bytes@.len() as int);
                            assert(m.canon() =~= bytes@);
                        }
                        Some(m)
                    },
                }
            },
        }
    }
}

/// Two messages with the same canonical encoding are the same message:
/// the encoding is unambiguous, so a signature over it binds the
/// signer to exactly one message id and content.
pub proof fn lemma_canon_message_injective(m1: Message, m2: Message)
    requires
        m1.canon() == m2.canon(),
    ensures
        m1.id == m2.id,
        m1.content@ == m2.content@,
{
    lemma_auto_spec_u128_to_from_le_bytes();
    let b = m1.canon();
    assert(b.subrange(0, 16) =~= spec_u128_to_le_bytes(m1.id));
    assert(b.subrange(0, 16) =~= spec_u128_to_le_bytes(m2.id));
    let n = b.len() as int;
    assert(b.subrange(16, n) =~= canon_text(m1.content@));
    assert(b.subrange(16, n) =~= canon_text(m2.content@));
    lemma_canon_text_injective(m1.content@, m2.content@);
}

/// The response to a direct message, always correlated back to exactly
/// one prior message by its id.
#[derive(Clone, Copy, Debug, PartialEq, Eq, Structural)]
pub enum MessageResponse {
    ACK { message_id: u128 },
    InvalidSignature { message_id: u128 },
}

/// Canonical encoding of a response: a tag byte, then the message id.
pub open spec fn canon_message_response(r: MessageResponse) -> Seq<u8> {
    match r {
        MessageResponse::ACK { message_id } => seq![0u8] + spec_u128_to_le_bytes(message_id),
        MessageResponse::InvalidSignature { message_id } => seq![1u8] + spec_u128_to_le_bytes(
            message_id,
        ),
    }
}

impl Signable for MessageResponse {
    open spec fn canon(&self) -> Seq<u8> {
        canon_message_response(*self)
    }

    fn encode(&self) -> (r: Vec<u8>) {
        let mut out: Vec<u8> = Vec::new();
        match self {
            MessageResponse::ACK { message_id } => {
                put_u8(&mut out, 0);
                put_u128(&mut out, *message_id);
            },
            MessageResponse::InvalidSignature { message_id } => {
                put_u8(&mut out, 1);
                put_u128(&mut out, *message_id);
            },
        }
        proof {
            assert(out@ =~= self.canon());
        }
        out
    }

    fn decode(bytes: &[u8]) -> (r: Option<MessageResponse>) {
        proof {
            lemma_auto_spec_u128_to_from_le_bytes();
        }
        if bytes.len() != 17 {
            proof {
                assert forall|v: MessageResponse| (#[trigger] v.canon()) != bytes@ by {
                    lemma_auto_spec_u128_to_from_le_bytes();
                    assert(v.canon().len() == 17);
                }
            }
            return None;
        }
        let tag = *slice_index_get(bytes, 0);
        match take_u128(bytes, 1) {
            None => None,
            Some((message_id, _j)) => {
                if tag == 0 {
                    let v = MessageResponse::ACK { message_id };
                    proof {
                        lemma_seq_split(bytes@, 0, 1, 17);
                        assert(bytes@.subrange(0, 1) =~= seq![0u8]);
                        assert(v.canon() =~= bytes@);
                    }
                    Some(v)
                } else if tag == 1 {
                    let v = MessageResponse::InvalidSignature { message_id };
                    proof {
                        lemma_seq_split(bytes@, 0, 1, 17);
                        assert(bytes@.subrange(0, 1) =~= seq![1u8]);
                        assert(v.canon() =~= bytes@);
                    }
                    Some(v)
                } else {
                    proof {
                        assert forall|v: MessageResponse| (#[trigger] v.canon()) != bytes@ by {
                            assert(v.canon()[0] == 0 || v.canon()[0] == 1);
                        }
                    }
                    None
                }
            },
        }
    }
}

/// The wire body of a direct-message request: the signed envelope of
/// the message.
#[derive(Clone, Debug)]
pub struct DirectMessageRequest(pub Signed<Message>);

/// The wire body of a direct-message response.
#[derive(Clone, Copy, Debug, PartialEq, Eq, Structural)]
pub struct DirectMessageResponse(pub MessageResponse);

impl DirectMessageRequest {
    pub fn encode(&self) -> (r: Vec<u8>)
        ensures
            r@ == canon_signed(self.0),
    {
        self.0.encode()
    }

    pub fn decode(bytes: &[u8]) -> (r: Option<DirectMessageRequest>)
        ensures
            match r {
                Some(v) => canon_signed(v.0) == bytes@,
                None => forall|v: DirectMessageRequest| (#[trigger] canon_signed(v.0)) != bytes@,
            },
    {
        match Signed::<Message>::decode(bytes) {
            None => None,
            Some(e) => Some(DirectMessageRequest(e)),
        }
    }
}

impl DirectMessageResponse {
    pub fn encode(&self) -> (r: Vec<u8>)
        ensures
            r@ == canon_message_response(self.0),
    {
        self.0.encode()
    }

    pub fn decode(bytes: &[u8]) -> (r: Option<DirectMessageResponse>)
        ensures
            match r {
                Some(v) => canon_message_response(v.0) == bytes@,
                None => forall|v: DirectMessageResponse|
                    (#[trigger] canon_message_response(v.0)) != bytes@,
            },
    {
        match MessageResponse::decode(bytes) {
            None => {
                proof {
                    assert forall|v: DirectMessageResponse|
                        (#[trigger] canon_message_response(v.0)) != bytes@ by {
                        assert(v.0.canon() == canon_message_response(v.0));
                    }
                }
                None
            },
            Some(v) => {
                proof {
                    assert(v.canon() == canon_message_response(v));
                }
                Some(DirectMessageResponse(v))
            },
        }
    }
}

/// A locally issued chat intent, addressed to a peer.
pub enum ChatCommand {
    SendMessage { receiver: PeerId, message: Signed<Message> },
    ReadMessage { receiver: PeerId },
}

impl EventLoop {
    /// Issues the outbound request for one chat command.  Sending a
    /// message records its id as pending, so that the eventual
    /// response can be correlated; at most one record exists per id.
    /// Reading stored messages is no business of this protocol layer,
    /// so that command does nothing here.
    pub fn handle_chat_command(&mut self, command: ChatCommand) -> (r: Option<Action>)
        ensures
            final(self).spec_id() == old(self).spec_id(),
            final(self).spec_settings() == old(self).spec_settings(),
            chat_command_effect(
                old(self).spec_pending(),
                final(self).spec_pending(),
                command,
                r,
            ),
    {
        proof {
            use_type_invariant(&*self);
        }
        match command {
            ChatCommand::SendMessage { receiver, message } => {
                let mid = message.content.id;
                let n = self.pending.len();
                let mut idx: usize = n;
                let mut i: usize = 0;
                while i < n
                    invariant
                        i <= n,
                        idx <= n,
                        n == self.pending@.len(),
                        idx == n ==> forall|j: int| 0 <= j < i ==> self.pending@[j] != mid,
                        idx < n ==> self.pending@[idx as int] == mid,
                    decreases n - i,
                {
                    if idx == n && self.pending[i] == mid {
                        idx = i;
                    }
                    i = i + 1;
                }
                if idx == n {
                    proof {
                        assert(!self.pending@.contains(mid));
                        let pushed = self.pending@.push(mid);
                        assert(unique_ids(pushed)) by {
                            assert forall|p: int, q: int|
                                0 <= p < q < pushed.len() implies pushed[p] != pushed[q] by {
                                if q < n {
                                    assert(pushed[p] == self.pending@[p]);
                                    assert(pushed[q] == self.pending@[q]);
                                } else {
                                    assert(pushed[p] == self.pending@[p]);
                                    assert(pushed[q] == mid);
                                }
                            }
                        }
                    }
                    let ghost before = self.pending@;
                    let mut pending: Vec<u128> = Vec::new();
                    std::mem::swap(&mut pending, &mut self.pending);
                    pending.push(mid);
                    self.pending = pending;
                    proof {
                        assert(self.pending@ == before.push(mid));
                        assert(self.pending@[n as int] == mid);
                        assert(self.pending@.contains(mid));
                        assert forall|x: u128| x != mid implies self.pending@.contains(x)
                            == before.contains(x) by {
                            if before.contains(x) {
                                let j = choose|j: int| 0 <= j < before.len() && before[j] == x;
                                assert(self.pending@[j] == x);
                            }
                            if self.pending@.contains(x) {
                                let j = choose|j: int|
                                    0 <= j < self.pending@.len() && self.pending@[j] == x;
                                assert(j < n);
                                assert(before[j] == x);
                            }
                        }
                    }
                } else {
                    proof {
                        assert(self.pending@.contains(mid));
                    }
                }
                Some(Action::SendDirectMessage { peer: receiver, request: DirectMessageRequest(message) })
            },
            ChatCommand::ReadMessage { receiver: _ } => None,
        }
    }
}

/// Relies on uuid's v4 generation: a fresh random 128-bit identifier.
#[verifier::external_body]
fn fresh_message_id() -> (r: u128) {
    uuid::Uuid::new_v4().as_u128()
}

impl Client {
    /// Builds a message with a freshly drawn 128-bit id, signs it with
    /// this client's keypair, and yields the command that sends it to
    /// `receiver`.
    pub fn send_message(&self, receiver: PeerId, message: String) -> (r: Command)
        ensures
            r matches Command::ChatCommand(
                ChatCommand::SendMessage { receiver: rcv, message: env },
            ) && rcv == receiver && signed_with(env, env.content, self.id@)
                && env.content.content == message,
    {
        let m = Message { content: message, id: fresh_message_id() };
        let env = sign(m, &self.id);
        Command::ChatCommand(ChatCommand::SendMessage { receiver, message: env })
    }
}

} // verus!
