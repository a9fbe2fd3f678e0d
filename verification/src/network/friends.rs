//! The friend-handshake sub-protocol: stateless request/response pairs
//! for name exchange, name re-verification, and friend add/accept.

use crate::codec::{canon_text, lemma_canon_text_injective, lemma_canon_text_valid, lemma_seq_split, put_str, put_u8,
    take_rest_text, take_u8};
use crate::network::signable::Signable;
use crate::network::{friend_command_action, Action, Client, Command, EventLoop};
use libp2p::PeerId;
use vstd::prelude::*;
use vstd::slice::slice_index_get;

verus! {

/// A request of the friend handshake.  Requests are stateless: each is
/// answered independently from the responder's current identity and
/// settings.
#[derive(Clone, Debug)]
pub enum FriendRequest {
    RequestName,
    VerifyName { name: String },
    AddFriend,
    AcceptFriend { decision: bool },
}

/// The response to a friend-handshake request.  `VerifyName` carries
/// `None` when the queried name matched the responder's current name,
/// and the corrected current name otherwise.
#[derive(Clone, Debug)]
pub enum FriendResponse {
    RequestName { name: String },
    VerifyName(Option<String>),
    AddFriendAck,
    AcceptFriendAck,
}

/// A locally issued friend-handshake intent, addressed to a peer.
pub enum FriendCommand {
    RequestName { peer: PeerId },
    VerifyName { name: String, peer: PeerId },
    AddFriend { peer: PeerId },
    AcceptFriend { peer: PeerId, decision: bool },
}

/// Canonical encoding of a friend request: a tag byte, then the
/// variant's payload.
pub open spec fn canon_friend_request(r: FriendRequest) -> Seq<u8> {
    match r {
        FriendRequest::RequestName => seq![0u8],
        FriendRequest::VerifyName { name } => seq![1u8] + canon_text(name@),
        FriendRequest::AddFriend => seq![2u8],
        FriendRequest::AcceptFriend { decision } => seq![
            3u8,
            if decision {
                1u8
            } else {
                0u8
            },
        ],
    }
}

impl Signable for FriendRequest {
    open spec fn canon(&self) -> Seq<u8> {
        canon_friend_request(*self)
    }

    fn encode(&self) -> (r: Vec<u8>) {
        let mut out: Vec<u8> = Vec::new();
        match self {
            FriendRequest::RequestName => {
                put_u8(&mut out, 0);
            },
            FriendRequest::VerifyName { name } => {
                put_u8(&mut out, 1);
                put_str(&mut out, name.as_str());
            },
            FriendRequest::AddFriend => {
                put_u8(&mut out, 2);
            },
            FriendRequest::AcceptFriend { decision } => {
                put_u8(&mut out, 3);
                put_u8(&mut out, if *decision { 1 } else { 0 });
            },
        }
        proof {
            assert(out@ =~= self.canon());
        }
        out
    }

    fn decode(bytes: &[u8]) -> (r: Option<FriendRequest>) {
        match take_u8(bytes, 0) {
            None => {
                proof {
                    assert forall|v: FriendRequest| (#[trigger] v.canon()) != bytes@ by {
                        assert(v.canon().len() >= 1);
                    }
                }
                None
            },
            Some((tag, _j)) => {
                if tag == 0 {
                    if bytes.len() == 1 {
                        let v = FriendRequest::RequestName;
                        proof {
                            assert(v.canon() =~= bytes@);
                        }
                        Some(v)
                    } else {
                        proof {
                            assert forall|v: FriendRequest| (#[trigger] v.canon()) != bytes@ by {
                                if v.canon() == bytes@ {
                                    assert(v.canon()[0] == 0);
                                    assert(v matches FriendRequest::RequestName);
                                }
                            }
                        }
                        None
                    }
                } else if tag == 1 {
                    match take_rest_text(bytes, 1) {
                        Some(name) => {
                            let v = FriendRequest::VerifyName { name };
                            proof {
                                lemma_seq_split(bytes@, 0, 1, bytes@.len() as int);
                                assert(bytes@.subrange(0, 1) =~= seq![1u8]);
                                assert(v.canon() =~= bytes@);
                            }
                            Some(v)
                        },
                        None => {
                            proof {
                                assert forall|v: FriendRequest| (#[trigger] v.canon())
                                    != bytes@ by {
                                    if v.canon() == bytes@ {
                                        assert(v.canon()[0] == 1);
                                        if let FriendRequest::VerifyName { name } = v {
                                            assert(bytes@.subrange(1, bytes@.len() as int)
                                                =~= canon_text(name@));
                                            lemma_canon_text_valid(name@);
                                        }
                                    }
                                }
                            }
                            None
                        },
                    }
                } else if tag == 2 {
                    if bytes.len() == 1 {
                        let v = FriendRequest::AddFriend;
                        proof {
                            assert(v.canon() =~= bytes@);
                        }
                        Some(v)
                    } else {
                        proof {
                            assert forall|v: FriendRequest| (#[trigger] v.canon()) != bytes@ by {
                                if v.canon() == bytes@ {
                                    assert(v.canon()[0] == 2);
                                    assert(v matches FriendRequest::AddFriend);
                                }
                            }
                        }
                        None
                    }
                } else if tag == 3 {
                    if bytes.len() == 2 {
                        let b = *slice_index_get(bytes, 1);
                        if b == 0 || b == 1 {
                            let v = FriendRequest::AcceptFriend { decision: b == 1 };
                            proof {
                                assert(v.canon() =~= bytes@);
                            }
                            Some(v)
                        } else {
                            proof {
                                assert forall|v: FriendRequest| (#[trigger] v.canon())
                                    != bytes@ by {
                                    if v.canon() == bytes@ {
                                        assert(v.canon()[0] == 3);
                                        assert(v.canon()[1] == 0 || v.canon()[1] == 1);
                                    }
                                }
                            }
                            None
                        }
                    } else {
                        proof {
                            assert forall|v: FriendRequest| (#[trigger] v.canon()) != bytes@ by {
                                if v.canon() == bytes@ {
                                    assert(v.canon()[0] == 3);
                                    assert(v.canon().len() == 2);
                                }
                            }
                        }
                        None
                    }
                } else {
                    proof {
                        assert forall|v: FriendRequest| (#[trigger] v.canon()) != bytes@ by {
                            if v.canon() == bytes@ {
                                assert(v.canon()[0] == 0 || v.canon()[0] == 1 || v.canon()[0] == 2
                                    || v.canon()[0] == 3);
                            }
                        }
                    }
                    None
                }
            },
        }
    }
}

/// Canonical encoding of a friend response: a tag byte, for
/// `VerifyName` a presence byte, then the text payload if any.
pub open spec fn canon_friend_response(r: FriendResponse) -> Seq<u8> {
    match r {
        FriendResponse::RequestName { name } => seq![0u8] + canon_text(name@),
        FriendResponse::VerifyName(None) => seq![1u8, 0u8],
        FriendResponse::VerifyName(Some(name)) => seq![1u8, 1u8] + canon_text(name@),
        FriendResponse::AddFriendAck => seq![2u8],
        FriendResponse::AcceptFriendAck => seq![3u8],
    }
}

/// Variant-and-payload equality of two friend responses, at the view
/// level.
pub open spec fn friend_response_like(a: FriendResponse, b: FriendResponse) -> bool {
    match (a, b) {
        (
            FriendResponse::RequestName { name: x },
            FriendResponse::RequestName { name: y },
        ) => x@ == y@,
        (FriendResponse::VerifyName(None), FriendResponse::VerifyName(None)) => true,
        (
            FriendResponse::VerifyName(Some(x)),
            FriendResponse::VerifyName(Some(y)),
        ) => x@ == y@,
        (FriendResponse::AddFriendAck, FriendResponse::AddFriendAck) => true,
        (FriendResponse::AcceptFriendAck, FriendResponse::AcceptFriendAck) => true,
        _ => false,
    }
}

/// Two friend responses with the same canonical encoding carry the
/// same variant and the same name: a signature over the encoding
/// binds the responder to exactly one answer.
pub proof fn lemma_canon_friend_response_injective(v1: FriendResponse, v2: FriendResponse)
    requires
        canon_friend_response(v1) == canon_friend_response(v2),
    ensures
        friend_response_like(v1, v2),
{
    let b = canon_friend_response(v1);
    match (v1, v2) {
        (FriendResponse::RequestName { name: x }, FriendResponse::RequestName { name: y }) => {
            assert(b.subrange(1, b.len() as int) =~= canon_text(x@));
            assert(b.subrange(1, b.len() as int) =~= canon_text(y@));
            lemma_canon_text_injective(x@, y@);
        },
        (FriendResponse::VerifyName(Some(x)), FriendResponse::VerifyName(Some(y))) => {
            assert(b.subrange(2, b.len() as int) =~= canon_text(x@));
            assert(b.subrange(2, b.len() as int) =~= canon_text(y@));
            lemma_canon_text_injective(x@, y@);
        },
        _ => {
            // distinct variants disagree on the tag byte or, between
            // the two shapes of VerifyName, on the presence byte
            assert(b[0] == canon_friend_response(v2)[0]);
        },
    }
}

impl Signable for FriendResponse {
    open spec fn canon(&self) -> Seq<u8> {
        canon_friend_response(*self)
    }

    fn encode(&self) -> (r: Vec<u8>) {
        let mut out: Vec<u8> = Vec::new();
        match self {
            FriendResponse::RequestName { name } => {
                put_u8(&mut out, 0);
                put_str(&mut out, name.as_str());
            },
            FriendResponse::VerifyName(opt) => {
                put_u8(&mut out, 1);
                match opt {
                    None => {
                        put_u8(&mut out, 0);
                    },
                    Some(name) => {
                        put_u8(&mut out, 1);
                        put_str(&mut out, name.as_str());
                    },
                }
            },
            FriendResponse::AddFriendAck => {
                put_u8(&mut out, 2);
            },
            FriendResponse::AcceptFriendAck => {
                put_u8(&mut out, 3);
            },
        }
        proof {
            assert(out@ =~= self.canon());
        }
        out
    }

    fn decode(bytes: &[u8]) -> (r: Option<FriendResponse>) {
        match take_u8(bytes, 0) {
            None => {
                proof {
                    assert forall|v: FriendResponse| (#[trigger] v.canon()) != bytes@ by {
                        assert(v.canon().len() >= 1);
                    }
                }
                None
            },
            Some((tag, _j)) => {
                if tag == 0 {
                    match take_rest_text(bytes, 1) {
                        Some(name) => {
                            let v = FriendResponse::RequestName { name };
                            proof {
                                lemma_seq_split(bytes@, 0, 1, bytes@.len() as int);
                                assert(bytes@.subrange(0, 1) =~= seq![0u8]);
                                assert(v.canon() =~= bytes@);
                            }
                            Some(v)
                        },
                        None => {
                            proof {
                                assert forall|v: FriendResponse| (#[trigger] v.canon())
                                    != bytes@ by {
                                    if v.canon() == bytes@ {
                                        assert(v.canon()[0] == 0);
                                        if let FriendResponse::RequestName { name } = v {
                                            assert(bytes@.subrange(1, bytes@.len() as int)
                                                =~= canon_text(name@));
                                            lemma_canon_text_valid(name@);
                                        }
                                    }
                                }
                            }
                            None
                        },
                    }
                } else if tag == 1 {
                    match take_u8(bytes, 1) {
                        None => {
                            proof {
                                assert forall|v: FriendResponse| (#[trigger] v.canon())
                                    != bytes@ by {
                                    if v.canon() == bytes@ {
                                        assert(v.canon()[0] == 1);
                                        assert(v.canon().len() >= 2);
                                    }
                                }
                            }
                            None
                        },
                        Some((b, _j2)) => {
                            if b == 0 {
                                if bytes.len() == 2 {
                                    let v = FriendResponse::VerifyName(None);
                                    proof {
                                        assert(v.canon() =~= bytes@);
                                    }
                                    Some(v)
                                } else {
                                    proof {
                                        assert forall|v: FriendResponse| (#[trigger] v.canon())
                                            != bytes@ by {
                                            if v.canon() == bytes@ {
                                                assert(v.canon()[0] == 1 && v.canon()[1] == 0);
                                                assert(v matches FriendResponse::VerifyName(None));
                                            }
                                        }
                                    }
                                    None
                                }
                            } else if b == 1 {
                                match take_rest_text(bytes, 2) {
                                    Some(name) => {
                                        let v = FriendResponse::VerifyName(Some(name));
                                        proof {
                                            lemma_seq_split(bytes@, 0, 2, bytes@.len() as int);
                                            assert(bytes@.subrange(0, 2) =~= seq![1u8, 1u8]);
                                            assert(v.canon() =~= bytes@);
                                        }
                                        Some(v)
                                    },
                                    None => {
                                        proof {
                                            assert forall|v: FriendResponse|
                                                (#[trigger] v.canon()) != bytes@ by {
                                                if v.canon() == bytes@ {
                                                    assert(v.canon()[0] == 1 && v.canon()[1]
                                                        == 1);
                                                    if let FriendResponse::VerifyName(
                                                        Some(name),
                                                    ) = v {
                                                        assert(bytes@.subrange(
                                                            2,
                                                            bytes@.len() as int,
                                                        ) =~= canon_text(name@));
                                                        lemma_canon_text_valid(name@);
                                                    }
                                                }
                                            }
                                        }
                                        None
                                    },
                                }
                            } else {
                                proof {
                                    assert forall|v: FriendResponse| (#[trigger] v.canon())
                                        != bytes@ by {
                                        if v.canon() == bytes@ {
                                            assert(v.canon()[0] == 1);
                                            assert(v.canon()[1] == 0 || v.canon()[1] == 1);
                                        }
                                    }
                                }
                                None
                            }
                        },
                    }
                } else if tag == 2 {
                    if bytes.len() == 1 {
                        let v = FriendResponse::AddFriendAck;
                        proof {
                            assert(v.canon() =~= bytes@);
                        }
                        Some(v)
                    } else {
                        proof {
                            assert forall|v: FriendResponse| (#[trigger] v.canon()) != bytes@ by {
                                if v.canon() == bytes@ {
                                    assert(v.canon()[0] == 2);
                                    assert(v matches FriendResponse::AddFriendAck);
                                }
                            }
                        }
                        None
                    }
                } else if tag == 3 {
                    if bytes.len() == 1 {
                        let v = FriendResponse::AcceptFriendAck;
                        proof {
                            assert(v.canon() =~= bytes@);
                        }
                        Some(v)
                    } else {
                        proof {
                            assert forall|v: FriendResponse| (#[trigger] v.canon()) != bytes@ by {
                                if v.canon() == bytes@ {
                                    assert(v.canon()[0] == 3);
                                    assert(v matches FriendResponse::AcceptFriendAck);
                                }
                            }
                        }
                        None
                    }
                } else {
                    proof {
                        assert forall|v: FriendResponse| (#[trigger] v.canon()) != bytes@ by {
                            if v.canon() == bytes@ {
                                assert(v.canon()[0] == 0 || v.canon()[0] == 1 || v.canon()[0] == 2
                                    || v.canon()[0] == 3);
                            }
                        }
                    }
                    None
                }
            },
        }
    }
}

impl EventLoop {
    /// Maps a friend-handshake command onto the request it opens
    /// toward the addressed peer.
    pub fn handle_friend_command(&self, command: FriendCommand) -> (r: Action)
        ensures
            r == friend_command_action(command),
    {
        match command {
            FriendCommand::RequestName { peer } => Action::SendFriendRequest {
                peer,
                request: FriendRequest::RequestName,
            },
            FriendCommand::VerifyName { peer, name } => Action::SendFriendRequest {
                peer,
                request: FriendRequest::VerifyName { name },
            },
            FriendCommand::AddFriend { peer } => Action::SendFriendRequest {
                peer,
                request: FriendRequest::AddFriend,
            },
            FriendCommand::AcceptFriend { peer, decision } => Action::SendFriendRequest {
                peer,
                request: FriendRequest::AcceptFriend { decision },
            },
        }
    }
}

impl Client {
    /// The command that asks `peer` for its display name.
    pub fn request_name(&self, peer: PeerId) -> (r: Command)
        ensures
            r matches Command::FriendCommand(FriendCommand::RequestName { peer: p }) && p
                == peer,
    {
        Command::FriendCommand(FriendCommand::RequestName { peer })
    }

    /// The command that asks `peer` whether its name is still `name`.
    pub fn verify_name(&self, peer: PeerId, name: String) -> (r: Command)
        ensures
            r matches Command::FriendCommand(FriendCommand::VerifyName { name: n, peer: p })
                && p == peer && n == name,
    {
        Command::FriendCommand(FriendCommand::VerifyName { name, peer })
    }

    /// The command that sends `peer` a friend request.
    pub fn send_friend_request(&self, peer: PeerId) -> (r: Command)
        ensures
            r matches Command::FriendCommand(FriendCommand::AddFriend { peer: p }) && p == peer,
    {
        Command::FriendCommand(FriendCommand::AddFriend { peer })
    }

    /// The command that accepts `peer`'s friend request.
    pub fn accept_friend_req(&self, peer: PeerId) -> (r: Command)
        ensures
            r matches Command::FriendCommand(
                FriendCommand::AcceptFriend { peer: p, decision },
            ) && p == peer && decision == true,
    {
        Command::FriendCommand(FriendCommand::AcceptFriend { peer, decision: true })
    }

    /// The command that declines `peer`'s friend request.
    pub fn deny_friend_req(&self, peer: PeerId) -> (r: Command)
        ensures
            r matches Command::FriendCommand(
                FriendCommand::AcceptFriend { peer: p, decision },
            ) && p == peer && decision == false,
    {
        Command::FriendCommand(FriendCommand::AcceptFriend { peer, decision: false })
    }
}

} // verus!
