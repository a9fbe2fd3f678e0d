use libp2p::PeerId;
use p2pchat::network::chat::{ChatCommand, DirectMessageRequest, DirectMessageResponse, Message, MessageResponse};
use p2pchat::network::friends::{FriendCommand, FriendRequest, FriendResponse};
use p2pchat::network::signable::{sign, Keypair};
use p2pchat::network::{Action, Client, Command, Event, EventLoop, NetEvent};
use p2pchat::settings::{Setting, SettingValue, Settings};

fn settings_named(name: &str) -> Settings {
    let mut settings = Settings::new();
    settings.insert(
        "name".to_string(),
        Setting { constraints: None, value: SettingValue::String(Some(name.to_string())) },
    );
    settings
}

#[test]
fn send_message_round_trip_between_two_peers() {
    let alice = Keypair::generate();
    let bob = Keypair::generate();
    let alice_pk = alice.public();
    let client_a = Client { id: alice.clone() };
    let mut loop_a = EventLoop::new(alice, Settings::new());
    let mut loop_b = EventLoop::new(bob, Settings::new());

    // Alice issues the command and her loop turns it into a request.
    let cmd = client_a.send_message(PeerId::random(), "hi".to_string());
    let action = loop_a.handle_command(cmd).expect("sending yields an action");
    let request = match action {
        Action::SendDirectMessage { request, .. } => request,
        _ => panic!("expected an outbound direct-message request"),
    };
    let m1 = request.0.content.id;

    // Bob's loop verifies, acknowledges, and surfaces the message.
    let actions = loop_b.handle_event(NetEvent::InboundMessageRequest(request));
    assert_eq!(actions.len(), 2);
    let mut reply = None;
    let mut emitted = 0;
    for action in actions {
        match action {
            Action::ReplyDirectMessage(r) => reply = Some(r),
            Action::Emit(Event::InboundMessage { message, sender }) => {
                emitted += 1;
                assert_eq!(message.content, "hi");
                assert_eq!(message.id, m1);
                assert_eq!(sender.bytes, alice_pk.bytes);
            }
            _ => panic!("unexpected action"),
        }
    }
    assert_eq!(emitted, 1);
    let reply = reply.expect("the single-use reply channel must be answered");
    assert!(matches!(reply.0, MessageResponse::ACK { message_id } if message_id == m1));

    // The acknowledgment reaches Alice and yields exactly one event.
    let actions = loop_a.handle_event(NetEvent::InboundMessageResponse(reply));
    assert_eq!(actions.len(), 1);
    assert!(matches!(
        actions[0],
        Action::Emit(Event::OutboundMessageReceived { message_id }) if message_id == m1
    ));

    // A duplicate of the same acknowledgment no longer matches.
    let duplicate = DirectMessageResponse(MessageResponse::ACK { message_id: m1 });
    let actions = loop_a.handle_event(NetEvent::InboundMessageResponse(duplicate));
    assert_eq!(actions.len(), 0);
}

#[test]
fn tampered_message_gets_invalid_signature_and_no_event() {
    let alice = Keypair::generate();
    let bob = Keypair::generate();
    let mut loop_b = EventLoop::new(bob, Settings::new());

    let mut envelope = sign(Message { content: "hi".to_string(), id: 5 }, &alice);
    envelope.content.content = "bye".to_string();
    let actions = loop_b.handle_event(NetEvent::InboundMessageRequest(DirectMessageRequest(envelope)));
    assert_eq!(actions.len(), 1);
    assert!(matches!(
        actions[0],
        Action::ReplyDirectMessage(DirectMessageResponse(MessageResponse::InvalidSignature {
            message_id: 5,
        }))
    ));
}

#[test]
fn unmatched_response_is_dropped_without_event() {
    let alice = Keypair::generate();
    let mut loop_a = EventLoop::new(alice, Settings::new());
    let stray = DirectMessageResponse(MessageResponse::ACK { message_id: 0xdead_beef });
    let actions = loop_a.handle_event(NetEvent::InboundMessageResponse(stray));
    assert_eq!(actions.len(), 0);
    let stray = DirectMessageResponse(MessageResponse::InvalidSignature { message_id: 1 });
    assert!(loop_a.handle_message_response(stray).is_none());
}

#[test]
fn request_name_is_answered_with_signed_current_name() {
    let bob = Keypair::generate();
    let bob_pk = bob.public();
    let mut loop_b = EventLoop::new(bob, settings_named("Mark"));

    let actions = loop_b.handle_event(NetEvent::InboundFriendRequest(FriendRequest::RequestName));
    assert_eq!(actions.len(), 1);
    let envelope = match actions.into_iter().next().unwrap() {
        Action::ReplyFriend(envelope) => envelope,
        _ => panic!("expected a signed friend reply"),
    };
    let (response, pk) = envelope.verify().expect("the reply is signed by the responder");
    assert_eq!(pk.bytes, bob_pk.bytes);
    match response {
        FriendResponse::RequestName { name } => assert_eq!(name, "Mark"),
        _ => panic!("expected a name response"),
    }
}

#[test]
fn request_name_falls_back_to_default_when_unset() {
    let bob = Keypair::generate();
    let loop_b = EventLoop::new(bob, Settings::new());
    let envelope = loop_b.handle_friend_request(FriendRequest::RequestName);
    let (response, _) = envelope.verify().expect("signed reply");
    match response {
        FriendResponse::RequestName { name } => assert_eq!(name, "Anonymous"),
        _ => panic!("expected a name response"),
    }
}

#[test]
fn verify_name_confirms_matching_name() {
    let bob = Keypair::generate();
    let loop_b = EventLoop::new(bob, settings_named("Mark"));
    let envelope = loop_b.handle_friend_request(FriendRequest::VerifyName { name: "Mark".to_string() });
    let (response, _) = envelope.verify().expect("signed reply");
    assert!(matches!(response, FriendResponse::VerifyName(None)));
}

#[test]
fn verify_name_corrects_stale_name() {
    let bob = Keypair::generate();
    let loop_b = EventLoop::new(bob, settings_named("Mark"));
    let envelope = loop_b.handle_friend_request(FriendRequest::VerifyName { name: "Marcus".to_string() });
    let (response, _) = envelope.verify().expect("signed reply");
    match response {
        FriendResponse::VerifyName(Some(current)) => assert_eq!(current, "Mark"),
        _ => panic!("expected the corrected current name"),
    }
}

#[test]
fn add_and_accept_friend_are_acknowledged() {
    let bob = Keypair::generate();
    let loop_b = EventLoop::new(bob, Settings::new());
    let (response, _) = loop_b
        .handle_friend_request(FriendRequest::AddFriend)
        .verify()
        .expect("signed reply");
    assert!(matches!(response, FriendResponse::AddFriendAck));
    let (response, _) = loop_b
        .handle_friend_request(FriendRequest::AcceptFriend { decision: true })
        .verify()
        .expect("signed reply");
    assert!(matches!(response, FriendResponse::AcceptFriendAck));
}

#[test]
fn friend_response_is_verified_before_use() {
    let alice = Keypair::generate();
    let bob = Keypair::generate();
    let bob_pk = bob.public();
    let mut loop_a = EventLoop::new(alice, Settings::new());

    let good = sign(FriendResponse::RequestName { name: "Mark".to_string() }, &bob);
    let (response, pk) = loop_a
        .handle_friend_response(good)
        .expect("a valid response is handed back");
    assert_eq!(pk.bytes, bob_pk.bytes);
    assert!(matches!(response, FriendResponse::RequestName { name } if name == "Mark"));

    let mut bad = sign(FriendResponse::RequestName { name: "Mark".to_string() }, &bob);
    bad.content = FriendResponse::RequestName { name: "Mallory".to_string() };
    assert!(loop_a.handle_friend_response(bad).is_none());

    // The dispatcher raises no event for friend responses, valid or not.
    let good = sign(FriendResponse::VerifyName(None), &bob);
    let actions = loop_a.handle_event(NetEvent::InboundFriendResponse(good));
    assert_eq!(actions.len(), 0);
}

#[test]
fn client_facade_builds_the_matching_friend_commands() {
    let client = Client { id: Keypair::generate() };
    let peer = PeerId::random();
    let loop_state = EventLoop::new(Keypair::generate(), Settings::new());

    let cmd = client.request_name(peer);
    assert!(matches!(cmd, Command::FriendCommand(FriendCommand::RequestName { peer: p }) if p == peer));

    let cmd = client.verify_name(peer, "Mark".to_string());
    match cmd {
        Command::FriendCommand(c) => match loop_state.handle_friend_command(c) {
            Action::SendFriendRequest { peer: p, request: FriendRequest::VerifyName { name } } => {
                assert_eq!(p, peer);
                assert_eq!(name, "Mark");
            }
            _ => panic!("expected a verify-name request"),
        },
        _ => panic!("expected a friend command"),
    }

    let cmd = client.send_friend_request(peer);
    assert!(matches!(cmd, Command::FriendCommand(FriendCommand::AddFriend { peer: p }) if p == peer));

    let cmd = client.accept_friend_req(peer);
    assert!(matches!(
        cmd,
        Command::FriendCommand(FriendCommand::AcceptFriend { peer: p, decision: true }) if p == peer
    ));

    let cmd = client.deny_friend_req(peer);
    assert!(matches!(
        cmd,
        Command::FriendCommand(FriendCommand::AcceptFriend { peer: p, decision: false }) if p == peer
    ));
}

#[test]
fn send_message_signs_and_draws_fresh_ids() {
    let client = Client { id: Keypair::generate() };
    let peer = PeerId::random();
    let first = client.send_message(peer, "one".to_string());
    let second = client.send_message(peer, "two".to_string());
    let extract = |cmd: Command| match cmd {
        Command::ChatCommand(ChatCommand::SendMessage { message, .. }) => message,
        _ => panic!("expected a send-message command"),
    };
    let first = extract(first);
    let second = extract(second);
    assert_eq!(first.content.content, "one");
    assert_eq!(second.content.content, "two");
    assert_ne!(first.content.id, second.content.id);
    let (value, pk) = first.verify().expect("the facade signs every message");
    assert_eq!(value.content, "one");
    assert_eq!(pk.bytes, client.id.public().bytes);
}

#[test]
fn read_message_command_does_nothing() {
    let alice = Keypair::generate();
    let mut loop_a = EventLoop::new(alice, Settings::new());
    let cmd = Command::ChatCommand(ChatCommand::ReadMessage { receiver: PeerId::random() });
    assert!(loop_a.handle_command(cmd).is_none());
}
