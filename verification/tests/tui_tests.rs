use libp2p::PeerId;
use p2pchat::tui::types::{Contact, Message, MessageStatus};
use p2pchat::tui::{ContactPage, FriendRequestPage, NavKey, Tabline};

#[test]
fn tabline_moves_between_the_two_tabs() {
    let start = Tabline::default();
    assert_eq!(start, Tabline::Chatting(ContactPage::ContactList));
    let right = start.right();
    assert_eq!(right, Tabline::FriendRequests(FriendRequestPage::RequestList));
    assert_eq!(right.right(), right);
    assert_eq!(right.left(), Tabline::Chatting(ContactPage::ContactList));
    assert_eq!(start.left(), start);
}

#[test]
fn contact_page_focus_moves() {
    assert_eq!(ContactPage::default(), ContactPage::ContactList);
    assert_eq!(ContactPage::ContactList.right(), ContactPage::Chat);
    assert_eq!(ContactPage::Chat.right(), ContactPage::Chat);
    assert_eq!(ContactPage::Chat.left(), ContactPage::ContactList);
    assert_eq!(ContactPage::CallButton.left(), ContactPage::ContactList);
    assert_eq!(ContactPage::Chat.up(), ContactPage::CallButton);
    assert_eq!(ContactPage::CallButton.down(), ContactPage::Chat);
    assert_eq!(ContactPage::ContactList.up(), ContactPage::ContactList);
    assert_eq!(ContactPage::ContactList.down(), ContactPage::ContactList);
}

#[test]
fn shift_nav_keys_switch_tabs() {
    let start = Tabline::default();
    assert_eq!(start.on_shift(NavKey::Right), Tabline::FriendRequests(FriendRequestPage::RequestList));
    assert_eq!(start.on_shift(NavKey::Left), start);
    assert_eq!(start.on_shift(NavKey::Up), start);
    assert_eq!(
        Tabline::FriendRequests(FriendRequestPage::Search).on_shift(NavKey::Left),
        Tabline::Chatting(ContactPage::ContactList)
    );
}

#[test]
fn control_nav_keys_move_focus_inside_the_chatting_tab() {
    let chat = Tabline::Chatting(ContactPage::Chat);
    assert_eq!(chat.on_control(NavKey::Left), Tabline::Chatting(ContactPage::ContactList));
    assert_eq!(chat.on_control(NavKey::Up), Tabline::Chatting(ContactPage::CallButton));
    assert_eq!(
        Tabline::Chatting(ContactPage::CallButton).on_control(NavKey::Down),
        Tabline::Chatting(ContactPage::Chat)
    );
    let requests = Tabline::FriendRequests(FriendRequestPage::RequestList);
    assert_eq!(requests.on_control(NavKey::Left), requests);
}

#[test]
fn chat_log_entries_carry_their_sender() {
    let contact = Contact { peer_id: PeerId::random(), name: "Mark".to_string() };
    let message = Message {
        content: "hello".to_string(),
        id: 9,
        sender: contact.clone(),
        status: MessageStatus::ReceivedRead,
    };
    let copy = message.clone();
    assert_eq!(copy.content, "hello");
    assert_eq!(copy.id, 9);
    assert_eq!(copy.sender.name, "Mark");
    assert_eq!(copy.sender.peer_id, contact.peer_id);
    assert!(matches!(copy.status, MessageStatus::ReceivedRead));
}
