pub mod types;

use vstd::prelude::*;

verus! {

/// Which widget of the chatting tab currently has focus.
#[derive(Clone, Copy, PartialEq, Eq, Structural, Debug)]
pub enum ContactPage {
    ContactList,
    Chat,
    CallButton,
}

/// Which widget of the friend-request tab currently has focus.
#[derive(Clone, Copy, PartialEq, Eq, Structural, Debug)]
pub enum FriendRequestPage {
    RequestList,
    Search,
}

/// The top-level tab of the terminal client, carrying the focus
/// state of the widgets inside that tab.
#[derive(Clone, Copy, PartialEq, Eq, Structural, Debug)]
pub enum Tabline {
    Chatting(ContactPage),
    FriendRequests(FriendRequestPage),
}

impl Default for ContactPage {
    fn default() -> (r: Self)
        ensures
            r == ContactPage::ContactList,
    {
        ContactPage::ContactList
    }
}

impl Default for FriendRequestPage {
    fn default() -> (r: Self)
        ensures
            r == FriendRequestPage::RequestList,
    {
        FriendRequestPage::RequestList
    }
}

impl Default for Tabline {
    fn default() -> (r: Self)
        ensures
            r == Tabline::Chatting(ContactPage::ContactList),
    {
        Tabline::Chatting(ContactPage::ContactList)
    }
}

/// A navigation key of the client, bound to h, j, k and l.
#[derive(Clone, Copy, PartialEq, Eq, Structural, Debug)]
pub enum NavKey {
    Left,
    Right,
    Up,
    Down,
}

impl Tabline {
    /// Where focus moves when the user steps one tab to the left.
    pub open spec fn spec_left(self) -> Self {
        match self {
            Tabline::FriendRequests(_) => Tabline::Chatting(ContactPage::ContactList),
            _ => self,
        }
    }

    /// Where focus moves when the user steps one tab to the right.
    pub open spec fn spec_right(self) -> Self {
        match self {
            Tabline::Chatting(_) => Tabline::FriendRequests(FriendRequestPage::RequestList),
            _ => self,
        }
    }

    pub fn left(self) -> (r: Self)
        ensures
            r == self.spec_left(),
    {
        if let Tabline::FriendRequests(_) = self {
            return Tabline::Chatting(ContactPage::ContactList);
        }
        self
    }

    pub fn right(self) -> (r: Self)
        ensures
            r == self.spec_right(),
    {
        if let Tabline::Chatting(_) = self {
            return Tabline::FriendRequests(FriendRequestPage::RequestList);
        }
        self
    }

    /// A navigation key with SHIFT held switches between the tabs;
    /// only left and right do anything.
    pub open spec fn spec_on_shift(self, key: NavKey) -> Self {
        match key {
            NavKey::Left => self.spec_left(),
            NavKey::Right => self.spec_right(),
            _ => self,
        }
    }

    /// A navigation key with CTRL held moves focus between the
    /// widgets of the current tab.  The friend-request tab has no
    /// focus moves yet, so there the key changes nothing.
    pub open spec fn spec_on_control(self, key: NavKey) -> Self {
        match self {
            Tabline::Chatting(c) => match key {
                NavKey::Left => Tabline::Chatting(c.spec_left()),
                NavKey::Right => Tabline::Chatting(c.spec_right()),
                NavKey::Up => Tabline::Chatting(c.spec_up()),
                NavKey::Down => Tabline::Chatting(c.spec_down()),
            },
            Tabline::FriendRequests(_) => self,
        }
    }

    pub fn on_shift(self, key: NavKey) -> (r: Self)
        ensures
            r == self.spec_on_shift(key),
    {
        match key {
            NavKey::Left => self.left(),
            NavKey::Right => self.right(),
            _ => self,
        }
    }

    pub fn on_control(self, key: NavKey) -> (r: Self)
        ensures
            r == self.spec_on_control(key),
    {
        match self {
            Tabline::Chatting(c) => match key {
                NavKey::Left => Tabline::Chatting(c.left()),
                NavKey::Right => Tabline::Chatting(c.right()),
                NavKey::Up => Tabline::Chatting(c.up()),
                NavKey::Down => Tabline::Chatting(c.down()),
            },
            Tabline::FriendRequests(_) => self,
        }
    }
}

impl ContactPage {
    /// Where focus moves on a step to the left inside the chatting tab.
    pub open spec fn spec_left(self) -> Self {
        match self {
            ContactPage::Chat => ContactPage::ContactList,
            ContactPage::CallButton => ContactPage::ContactList,
            _ => self,
        }
    }

    /// Where focus moves on a step to the right inside the chatting tab.
    pub open spec fn spec_right(self) -> Self {
        match self {
            ContactPage::ContactList => ContactPage::Chat,
            _ => self,
        }
    }

    /// Where focus moves on a step up inside the chatting tab.
    pub open spec fn spec_up(self) -> Self {
        match self {
            ContactPage::Chat => ContactPage::CallButton,
            _ => self,
        }
    }

    /// Where focus moves on a step down inside the chatting tab.
    pub open spec fn spec_down(self) -> Self {
        match self {
            ContactPage::CallButton => ContactPage::Chat,
            _ => self,
        }
    }

    pub fn left(self) -> (r: Self)
        ensures
            r == self.spec_left(),
    {
        match self {
            ContactPage::Chat => ContactPage::ContactList,
            ContactPage::CallButton => ContactPage::ContactList,
            _ => self,
        }
    }

    pub fn right(self) -> (r: Self)
        ensures
            r == self.spec_right(),
    {
        match self {
            ContactPage::ContactList => ContactPage::Chat,
            _ => self,
        }
    }

    pub fn up(self) -> (r: Self)
        ensures
            r == self.spec_up(),
    {
        match self {
            ContactPage::Chat => ContactPage::CallButton,
            _ => self,
        }
    }

    pub fn down(self) -> (r: Self)
        ensures
            r == self.spec_down(),
    {
        match self {
            ContactPage::CallButton => ContactPage::Chat,
            _ => self,
        }
    }
}

} // verus!
