use libp2p::PeerId;
use vstd::prelude::*;

verus! {

/// Delivery and read state of a message shown in the chat log.
#[derive(Clone, Copy, PartialEq, Eq, Structural, Debug)]
pub enum MessageStatus {
    ReceivedNotRead,
    ReceivedRead,
    SentOffNotRead,
    SentOffRead,
}

/// An entry of the contact list: a peer and the display name it is
/// known under.
#[derive(Debug)]
pub struct Contact {
    pub peer_id: PeerId,
    pub name: String,
}

impl Clone for Contact {
    /// The clone shows the same peer under the same name.
    fn clone(&self) -> (r: Self)
        ensures
            r.peer_id == self.peer_id,
            r.name@ == self.name@,
    {
        Contact { peer_id: self.peer_id, name: self.name.clone() }
    }
}

/// A chat-log entry shown in the client.
#[derive(Debug)]
pub struct Message {
    pub content: String,
    pub id: u128,
    pub sender: Contact,
    pub status: MessageStatus,
}

impl Clone for Message {
    /// The clone is the same entry.
    fn clone(&self) -> (r: Self)
        ensures
            r.content@ == self.content@,
            r.id == self.id,
            r.sender.peer_id == self.sender.peer_id,
            r.sender.name@ == self.sender.name@,
            r.status == self.status,
    {
        Message {
            content: self.content.clone(),
            id: self.id,
            sender: self.sender.clone(),
            status: self.status,
        }
    }
}

} // verus!
