//! The remote entities that the mirror holds, and their mathematical views.

use vstd::prelude::*;

verus! {

/// The views of a sequence of values, element by element.
pub open spec fn views<T: View>(items: Seq<T>) -> Seq<T::V> {
    Seq::new(items.len(), |i: int| items[i]@)
}

/// The text of an optional string.
pub open spec fn text_of(text: Option<String>) -> Option<Seq<char>> {
    match text {
        Some(value) => Some(value@),
        None => None,
    }
}

/// The kind of a channel. A public or voice channel belongs to a server.
#[derive(Clone, Copy, PartialEq, Eq, Structural, Debug)]
pub enum ChannelKind {
    Public,
    Private,
    Group,
    Voice,
}

/// A user of the remote service.
#[derive(Clone, Debug, PartialEq, Eq)]
pub struct UserEntity {
    pub id: u64,
    pub name: String,
}

/// A user over the text of the name.
pub struct UserView {
    pub id: u64,
    pub name: Seq<char>,
}

impl View for UserEntity {
    type V = UserView;

    open spec fn view(&self) -> UserView {
        UserView { id: self.id, name: self.name@ }
    }
}

/// A member of a server: a user with an optional nickname override.
#[derive(Clone, Debug, PartialEq, Eq)]
pub struct MemberEntity {
    pub id: u64,
    pub name: String,
    pub nick: Option<String>,
}

/// A member over the texts of the names.
pub struct MemberView {
    pub id: u64,
    pub name: Seq<char>,
    pub nick: Option<Seq<char>>,
}

impl MemberView {
    /// The nickname override where there is one, else the user name.
    pub open spec fn display_name(self) -> Seq<char> {
        match self.nick {
            Some(nick) => nick,
            None => self.name,
        }
    }
}

impl View for MemberEntity {
    type V = MemberView;

    open spec fn view(&self) -> MemberView {
        MemberView { id: self.id, name: self.name@, nick: text_of(self.nick) }
    }
}

impl MemberEntity {
    /// The name under which the member is shown.
    pub fn display_name(&self) -> (name: &str)
        ensures
            name@ == self@.display_name(),
    {
        match &self.nick {
            Some(nick) => nick.as_str(),
            None => self.name.as_str(),
        }
    }
}

/// A channel. Private and group channels have no server; `recipients` are the
/// other users of a private or group channel.
#[derive(Clone, Debug, PartialEq, Eq)]
pub struct ChannelEntity {
    pub id: u64,
    pub server_id: Option<u64>,
    pub kind: ChannelKind,
    pub name: String,
    pub recipients: Vec<u64>,
}

/// A channel over the text of its name.
pub struct ChannelView {
    pub id: u64,
    pub server_id: Option<u64>,
    pub kind: ChannelKind,
    pub name: Seq<char>,
    pub recipients: Seq<u64>,
}

impl View for ChannelEntity {
    type V = ChannelView;

    open spec fn view(&self) -> ChannelView {
        ChannelView {
            id: self.id,
            server_id: self.server_id,
            kind: self.kind,
            name: self.name@,
            recipients: self.recipients@,
        }
    }
}

/// A server with its channels, in order, and its members.
#[derive(Clone, Debug, PartialEq, Eq)]
pub struct ServerEntity {
    pub id: u64,
    pub name: String,
    pub channels: Vec<ChannelEntity>,
    pub members: Vec<MemberEntity>,
}

/// A server over the views of what it holds.
pub struct ServerView {
    pub id: u64,
    pub name: Seq<char>,
    pub channels: Seq<ChannelView>,
    pub members: Seq<MemberView>,
}

impl View for ServerEntity {
    type V = ServerView;

    open spec fn view(&self) -> ServerView {
        ServerView {
            id: self.id,
            name: self.name@,
            channels: views(self.channels@),
            members: views(self.members@),
        }
    }
}

/// A channel together with the server that holds it, if one does.
#[derive(Clone, Copy, Debug)]
pub struct ChannelRef<'a> {
    pub server: Option<&'a ServerEntity>,
    pub channel: &'a ChannelEntity,
}

/// A channel with the server that holds it, over their views.
pub struct ChannelRefView {
    pub server: Option<ServerView>,
    pub channel: ChannelView,
}

impl ChannelRefView {
    /// The server's id, or zero for a channel without a server.
    pub open spec fn server_id(self) -> u64 {
        match self.server {
            Some(server) => server.id,
            None => 0,
        }
    }

    /// The name under which the channel is shown.
    pub open spec fn display_name(self) -> Seq<char> {
        self.channel.name
    }

    /// The title of the channel's buffer: server and channel for a channel of
    /// a server, the channel alone otherwise.
    pub open spec fn title(self) -> Seq<char> {
        match self.server {
            Some(server) => server.name + " - "@ + self.channel.name,
            None => self.channel.name,
        }
    }
}

impl<'a> View for ChannelRef<'a> {
    type V = ChannelRefView;

    open spec fn view(&self) -> ChannelRefView {
        ChannelRefView {
            server: match self.server {
                Some(server) => Some(server@),
                None => None,
            },
            channel: self.channel@,
        }
    }
}

impl<'a> ChannelRef<'a> {
    /// The server's id, or zero for a channel without a server.
    pub fn server_id(&self) -> (id: u64)
        ensures
            id == self@.server_id(),
    {
        match self.server {
            Some(server) => server.id,
            None => 0,
        }
    }

    /// The name under which the channel is shown.
    pub fn display_name(&self) -> (name: String)
        ensures
            name@ == self@.display_name(),
    {
        self.channel.name.clone()
    }

    /// The title of the channel's buffer.
    pub fn title(&self) -> (title: String)
        ensures
            title@ == self@.title(),
    {
        match self.server {
            Some(server) => {
                let mut title = server.name.clone();
                title.append(" - ");
                title.append(self.channel.name.as_str());
                title
            },
            None => self.channel.name.clone(),
        }
    }
}

} // verus!
