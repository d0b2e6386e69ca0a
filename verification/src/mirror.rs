//! The mirror of the remote state: servers, channels, members and the current
//! user, built from a snapshot and kept current event by event.

use vstd::prelude::*;
use crate::event::{Event, EventView};
use crate::model::{
    views, ChannelEntity, ChannelRef, ChannelRefView, ChannelView, MemberEntity, MemberView,
    ServerEntity, ServerView, UserEntity, UserView,
};
use crate::seqs::{first_index, lemma_first_index};

verus! {

/// The position of the first channel with this id, or the number of channels.
pub open spec fn channel_position(channels: Seq<ChannelView>, id: u64) -> int {
    first_index(channels, |channel: ChannelView| channel.id == id)
}

/// The position of the first server that holds a channel with this id, or the
/// number of servers.
pub open spec fn holder_position(servers: Seq<ServerView>, id: u64) -> int {
    first_index(
        servers,
        |server: ServerView| channel_position(server.channels, id) < server.channels.len(),
    )
}

/// The position of the first server with this id, or the number of servers.
pub open spec fn server_position(servers: Seq<ServerView>, id: u64) -> int {
    first_index(servers, |server: ServerView| server.id == id)
}

/// The position of the first member with this id, or the number of members.
pub open spec fn member_position(members: Seq<MemberView>, id: u64) -> int {
    first_index(members, |member: MemberView| member.id == id)
}

/// The channels with `channel` in the place of the first one with its id,
/// or at the end if none has it.
pub open spec fn with_channel(channels: Seq<ChannelView>, channel: ChannelView) -> Seq<
    ChannelView,
> {
    let at = channel_position(channels, channel.id);
    if at < channels.len() {
        channels.update(at, channel)
    } else {
        channels.push(channel)
    }
}

/// The channels without the first one with this id.
pub open spec fn without_channel(channels: Seq<ChannelView>, id: u64) -> Seq<ChannelView> {
    let at = channel_position(channels, id);
    if at < channels.len() {
        channels.remove(at)
    } else {
        channels
    }
}

/// The members with `member` in the place of the first one with its id, or
/// at the end if none has it.
pub open spec fn with_member(members: Seq<MemberView>, member: MemberView) -> Seq<MemberView> {
    let at = member_position(members, member.id);
    if at < members.len() {
        members.update(at, member)
    } else {
        members.push(member)
    }
}

/// The members without the first one with this id.
pub open spec fn without_member(members: Seq<MemberView>, id: u64) -> Seq<MemberView> {
    let at = member_position(members, id);
    if at < members.len() {
        members.remove(at)
    } else {
        members
    }
}

/// The servers with `server` in the place of the first one with its id, or
/// at the end if none has it.
pub open spec fn with_server(servers: Seq<ServerView>, server: ServerView) -> Seq<ServerView> {
    let at = server_position(servers, server.id);
    if at < servers.len() {
        servers.update(at, server)
    } else {
        servers.push(server)
    }
}

/// The servers without the first one with this id.
pub open spec fn without_server(servers: Seq<ServerView>, id: u64) -> Seq<ServerView> {
    let at = server_position(servers, id);
    if at < servers.len() {
        servers.remove(at)
    } else {
        servers
    }
}

/// The mirror of the remote state.
#[derive(Clone, Debug, PartialEq, Eq)]
pub struct StateMirror {
    pub user: Option<UserEntity>,
    pub servers: Vec<ServerEntity>,
    pub private_channels: Vec<ChannelEntity>,
}

/// What the mirror holds: the current user, the servers in order, and the
/// private and group channels in order.
pub struct MirrorView {
    pub user: Option<UserView>,
    pub servers: Seq<ServerView>,
    pub private_channels: Seq<ChannelView>,
}

impl View for StateMirror {
    type V = MirrorView;

    open spec fn view(&self) -> MirrorView {
        MirrorView {
            user: match self.user {
                Some(user) => Some(user@),
                None => None,
            },
            servers: views(self.servers@),
            private_channels: views(self.private_channels@),
        }
    }
}

impl MirrorView {
    /// Whether a private or group channel has this id.
    pub open spec fn is_private(self, id: u64) -> bool {
        channel_position(self.private_channels, id) < self.private_channels.len()
    }

    /// The channel with this id: the first private or group channel that has
    /// it, else the first such channel of the first server that holds one.
    pub open spec fn find_channel(self, id: u64) -> Option<ChannelRefView> {
        let private = channel_position(self.private_channels, id);
        let holder = holder_position(self.servers, id);
        if private < self.private_channels.len() {
            Some(ChannelRefView { server: None, channel: self.private_channels[private] })
        } else if holder < self.servers.len() {
            Some(
                ChannelRefView {
                    server: Some(self.servers[holder]),
                    channel: self.servers[holder].channels[channel_position(
                        self.servers[holder].channels,
                        id,
                    )],
                },
            )
        } else {
            None
        }
    }

    /// The mirror with the channel put where it belongs: among the private
    /// channels if it has no server, else among the channels of its server.
    /// A channel of a server that the mirror does not hold changes nothing.
    pub open spec fn channel_put(self, channel: ChannelView) -> MirrorView {
        match channel.server_id {
            None => MirrorView {
                private_channels: with_channel(self.private_channels, channel),
                ..self
            },
            Some(server_id) => {
                let at = server_position(self.servers, server_id);
                if at < self.servers.len() {
                    MirrorView {
                        servers: self.servers.update(
                            at,
                            ServerView {
                                channels: with_channel(self.servers[at].channels, channel),
                                ..self.servers[at]
                            },
                        ),
                        ..self
                    }
                } else {
                    self
                }
            },
        }
    }

    /// The mirror without the channel that `find_channel` finds for this id.
    pub open spec fn channel_dropped(self, id: u64) -> MirrorView {
        let holder = holder_position(self.servers, id);
        if self.is_private(id) {
            MirrorView { private_channels: without_channel(self.private_channels, id), ..self }
        } else if holder < self.servers.len() {
            MirrorView {
                servers: self.servers.update(
                    holder,
                    ServerView {
                        channels: without_channel(self.servers[holder].channels, id),
                        ..self.servers[holder]
                    },
                ),
                ..self
            }
        } else {
            self
        }
    }

    /// The mirror with the member added to the server, in the place of a
    /// member with the same id if there is one.
    pub open spec fn member_put(self, server_id: u64, member: MemberView) -> MirrorView {
        let at = server_position(self.servers, server_id);
        if at < self.servers.len() {
            MirrorView {
                servers: self.servers.update(
                    at,
                    ServerView {
                        members: with_member(self.servers[at].members, member),
                        ..self.servers[at]
                    },
                ),
                ..self
            }
        } else {
            self
        }
    }

    /// The mirror without the member of the server who has this id.
    pub open spec fn member_dropped(self, server_id: u64, user_id: u64) -> MirrorView {
        let at = server_position(self.servers, server_id);
        if at < self.servers.len() {
            MirrorView {
                servers: self.servers.update(
                    at,
                    ServerView {
                        members: without_member(self.servers[at].members, user_id),
                        ..self.servers[at]
                    },
                ),
                ..self
            }
        } else {
            self
        }
    }

    /// The member of the server who has this id.
    pub open spec fn find_member(self, server_id: u64, user_id: u64) -> Option<MemberView> {
        let at = server_position(self.servers, server_id);
        if at < self.servers.len() && member_position(self.servers[at].members, user_id)
            < self.servers[at].members.len() {
            Some(self.servers[at].members[member_position(self.servers[at].members, user_id)])
        } else {
            None
        }
    }

    /// The mirror after an event: exactly the entities that the event names
    /// change. Message events and unknown events change nothing.
    pub open spec fn applied(self, event: EventView) -> MirrorView {
        match event {
            EventView::ChannelCreate(channel) => self.channel_put(channel),
            EventView::ChannelUpdate(channel) => self.channel_put(channel),
            EventView::ChannelDelete { channel_id } => self.channel_dropped(channel_id),
            EventView::ServerMemberAdd { server_id, member } => self.member_put(server_id, member),
            EventView::ServerMemberRemove { server_id, user_id } => self.member_dropped(
                server_id,
                user_id,
            ),
            EventView::ServerCreate(server) => MirrorView {
                servers: with_server(self.servers, server),
                ..self
            },
            EventView::ServerDelete { server_id } => MirrorView {
                servers: without_server(self.servers, server_id),
                ..self
            },
            _ => self,
        }
    }

    /// The id of the current user, if the snapshot named one.
    pub open spec fn user_id(self) -> Option<u64> {
        match self.user {
            Some(user) => Some(user.id),
            None => None,
        }
    }
}

/// The position of the first channel with this id, or the number of channels.
pub fn find_channel_in(channels: &Vec<ChannelEntity>, id: u64) -> (at: usize)
    ensures
        at == channel_position(views(channels@), id),
        at <= channels@.len(),
{
    let mut i: usize = 0;
    while i < channels.len() && channels[i].id != id
        invariant
            i <= channels@.len(),
            forall|j: int| 0 <= j < i ==> (#[trigger] views(channels@)[j]).id != id,
        decreases channels@.len() - i,
    {
        i = i + 1;
    }
    proof {
        lemma_first_index(views(channels@), |channel: ChannelView| channel.id == id, i as int);
    }
    i
}

/// The position of the first member with this id, or the number of members.
pub fn find_member_in(members: &Vec<MemberEntity>, id: u64) -> (at: usize)
    ensures
        at == member_position(views(members@), id),
        at <= members@.len(),
{
    let mut i: usize = 0;
    while i < members.len() && members[i].id != id
        invariant
            i <= members@.len(),
            forall|j: int| 0 <= j < i ==> (#[trigger] views(members@)[j]).id != id,
        decreases members@.len() - i,
    {
        i = i + 1;
    }
    proof {
        lemma_first_index(views(members@), |member: MemberView| member.id == id, i as int);
    }
    i
}

/// The position of the first server with this id, or the number of servers.
pub fn find_server_in(servers: &Vec<ServerEntity>, id: u64) -> (at: usize)
    ensures
        at == server_position(views(servers@), id),
        at <= servers@.len(),
{
    let mut i: usize = 0;
    while i < servers.len() && servers[i].id != id
        invariant
            i <= servers@.len(),
            forall|j: int| 0 <= j < i ==> (#[trigger] views(servers@)[j]).id != id,
        decreases servers@.len() - i,
    {
        i = i + 1;
    }
    proof {
        lemma_first_index(views(servers@), |server: ServerView| server.id == id, i as int);
    }
    i
}

/// Puts the channel in the place of the first one with its id, or at the end.
fn put_channel(channels: &mut Vec<ChannelEntity>, channel: ChannelEntity)
    ensures
        views(final(channels)@) == with_channel(views(old(channels)@), channel@),
{
    let at = find_channel_in(channels, channel.id);
    if at < channels.len() {
        channels[at] = channel;
    } else {
        channels.push(channel);
    }
    proof {
        assert(views(final(channels)@) =~= with_channel(views(old(channels)@), channel@));
    }
}

/// Removes the first channel with this id.
fn drop_channel(channels: &mut Vec<ChannelEntity>, id: u64)
    ensures
        views(final(channels)@) == without_channel(views(old(channels)@), id),
{
    let at = find_channel_in(channels, id);
    if at < channels.len() {
        channels.remove(at);
    }
    proof {
        assert(views(final(channels)@) =~= without_channel(views(old(channels)@), id));
    }
}

/// Puts the member in the place of the first one with its id, or at the end.
fn put_member(members: &mut Vec<MemberEntity>, member: MemberEntity)
    ensures
        views(final(members)@) == with_member(views(old(members)@), member@),
{
    let at = find_member_in(members, member.id);
    if at < members.len() {
        members[at] = member;
    } else {
        members.push(member);
    }
    proof {
        assert(views(final(members)@) =~= with_member(views(old(members)@), member@));
    }
}

/// Removes the first member with this id.
fn drop_member(members: &mut Vec<MemberEntity>, id: u64)
    ensures
        views(final(members)@) == without_member(views(old(members)@), id),
{
    let at = find_member_in(members, id);
    if at < members.len() {
        members.remove(at);
    }
    proof {
        assert(views(final(members)@) =~= without_member(views(old(members)@), id));
    }
}

impl StateMirror {
    /// Puts a created or updated channel where it belongs.
    pub fn put_channel(&mut self, channel: ChannelEntity)
        ensures
            final(self)@ == old(self)@.channel_put(channel@),
    {
        match channel.server_id {
            None => {
                put_channel(&mut self.private_channels, channel);
            },
            Some(server_id) => {
                let at = find_server_in(&self.servers, server_id);
                if at < self.servers.len() {
                    put_channel(&mut self.servers[at].channels, channel);
                    proof {
                        assert(final(self)@.servers =~= old(self)@.channel_put(channel@).servers);
                    }
                }
            },
        }
    }

    /// Drops the channel with this id.
    pub fn drop_channel(&mut self, id: u64)
        ensures
            final(self)@ == old(self)@.channel_dropped(id),
    {
        if self.is_private(id) {
            drop_channel(&mut self.private_channels, id);
            return ;
        }
        let mut i: usize = 0;
        while i < self.servers.len()
            invariant
                i <= self.servers@.len(),
                *self == *old(self),
                !self@.is_private(id),
                forall|j: int|
                    0 <= j < i ==> channel_position((#[trigger] self@.servers[j]).channels, id)
                        >= self@.servers[j].channels.len(),
            decreases self.servers@.len() - i,
        {
            let at = find_channel_in(&self.servers[i].channels, id);
            if at < self.servers[i].channels.len() {
                proof {
                    assert(self@.servers[i as int] == self.servers@[i as int]@);
                    lemma_first_index(
                        self@.servers,
                        |server: ServerView|
                            channel_position(server.channels, id) < server.channels.len(),
                        i as int,
                    );
                }
                drop_channel(&mut self.servers[i].channels, id);
                proof {
                    assert(final(self)@.servers =~= old(self)@.channel_dropped(id).servers);
                }
                return ;
            }
            i = i + 1;
        }
        proof {
            lemma_first_index(
                self@.servers,
                |server: ServerView| channel_position(server.channels, id) < server.channels.len(),
                i as int,
            );
        }
    }

    /// Adds a member to a server.
    pub fn put_member(&mut self, server_id: u64, member: MemberEntity)
        ensures
            final(self)@ == old(self)@.member_put(server_id, member@),
    {
        let at = find_server_in(&self.servers, server_id);
        if at < self.servers.len() {
            put_member(&mut self.servers[at].members, member);
            proof {
                assert(final(self)@.servers =~= old(self)@.member_put(server_id, member@).servers);
            }
        }
    }

    /// Drops a member from a server.
    pub fn drop_member(&mut self, server_id: u64, user_id: u64)
        ensures
            final(self)@ == old(self)@.member_dropped(server_id, user_id),
    {
        let at = find_server_in(&self.servers, server_id);
        if at < self.servers.len() {
            drop_member(&mut self.servers[at].members, user_id);
            proof {
                assert(final(self)@.servers =~= old(self)@.member_dropped(
                    server_id,
                    user_id,
                ).servers);
            }
        }
    }

    /// The member of the server who has this id.
    pub fn find_member(&self, server_id: u64, user_id: u64) -> (found: Option<&MemberEntity>)
        ensures
            match found {
                Some(member) => self@.find_member(server_id, user_id) == Some(member@),
                None => self@.find_member(server_id, user_id).is_none(),
            },
    {
        let at = find_server_in(&self.servers, server_id);
        if at < self.servers.len() {
            let member = find_member_in(&self.servers[at].members, user_id);
            if member < self.servers[at].members.len() {
                proof {
                    assert(self@.servers[at as int] == self.servers@[at as int]@);
                }
                return Some(&self.servers[at].members[member]);
            }
        }
        None
    }

    /// Puts a created server in the place of one with the same id, or at the
    /// end.
    pub fn put_server(&mut self, server: ServerEntity)
        ensures
            final(self)@ == (MirrorView {
                servers: with_server(old(self)@.servers, server@),
                ..old(self)@
            }),
    {
        let at = find_server_in(&self.servers, server.id);
        if at < self.servers.len() {
            self.servers[at] = server;
        } else {
            self.servers.push(server);
        }
        proof {
            assert(final(self)@.servers =~= with_server(old(self)@.servers, server@));
        }
    }

    /// Drops the server with this id.
    pub fn drop_server(&mut self, id: u64)
        ensures
            final(self)@ == (MirrorView {
                servers: without_server(old(self)@.servers, id),
                ..old(self)@
            }),
    {
        let at = find_server_in(&self.servers, id);
        if at < self.servers.len() {
            self.servers.remove(at);
        }
        proof {
            assert(final(self)@.servers =~= without_server(old(self)@.servers, id));
        }
    }

    /// Applies an event: exactly the entities that it names change.
    pub fn apply_event(&mut self, event: Event)
        ensures
            final(self)@ == old(self)@.applied(event@),
    {
        match event {
            Event::ChannelCreate(channel) => self.put_channel(channel),
            Event::ChannelUpdate(channel) => self.put_channel(channel),
            Event::ChannelDelete { channel_id } => self.drop_channel(channel_id),
            Event::ServerMemberAdd { server_id, member } => self.put_member(server_id, member),
            Event::ServerMemberRemove { server_id, user_id } => self.drop_member(
                server_id,
                user_id,
            ),
            Event::ServerCreate(server) => self.put_server(server),
            Event::ServerDelete { server_id } => self.drop_server(server_id),
            _ => {},
        }
    }

    /// A mirror of a snapshot.
    pub fn new(
        user: Option<UserEntity>,
        servers: Vec<ServerEntity>,
        private_channels: Vec<ChannelEntity>,
    ) -> (mirror: StateMirror)
        ensures
            mirror.user == user,
            mirror.servers == servers,
            mirror.private_channels == private_channels,
    {
        StateMirror { user, servers, private_channels }
    }

    /// The servers, in the order of the snapshot and of their arrival.
    pub fn all_servers(&self) -> (servers: &Vec<ServerEntity>)
        ensures
            views(servers@) == self@.servers,
    {
        &self.servers
    }

    /// The id of the current user.
    pub fn user_id(&self) -> (id: Option<u64>)
        ensures
            id == self@.user_id(),
    {
        match &self.user {
            Some(user) => Some(user.id),
            None => None,
        }
    }

    /// Whether a private or group channel has this id.
    pub fn is_private(&self, id: u64) -> (private: bool)
        ensures
            private == self@.is_private(id),
    {
        find_channel_in(&self.private_channels, id) < self.private_channels.len()
    }

    /// Looks a channel up by id. A miss is `None`, never a failure.
    pub fn find_channel(&self, id: u64) -> (found: Option<ChannelRef<'_>>)
        ensures
            match found {
                Some(channel) => self@.find_channel(id) == Some(channel@),
                None => self@.find_channel(id).is_none(),
            },
    {
        let private = find_channel_in(&self.private_channels, id);
        if private < self.private_channels.len() {
            return Some(ChannelRef { server: None, channel: &self.private_channels[private] });
        }
        let mut i: usize = 0;
        while i < self.servers.len()
            invariant
                i <= self.servers@.len(),
                !self@.is_private(id),
                forall|j: int|
                    0 <= j < i ==> channel_position((#[trigger] self@.servers[j]).channels, id)
                        >= self@.servers[j].channels.len(),
            decreases self.servers@.len() - i,
        {
            let at = find_channel_in(&self.servers[i].channels, id);
            if at < self.servers[i].channels.len() {
                proof {
                    let server = self.servers@[i as int];
                    assert(self@.servers[i as int] == server@);
                    assert(server@.channels[at as int] == server.channels@[at as int]@);
                    lemma_first_index(
                        self@.servers,
                        |server: ServerView|
                            channel_position(server.channels, id) < server.channels.len(),
                        i as int,
                    );
                }
                return Some(
                    ChannelRef {
                        server: Some(&self.servers[i]),
                        channel: &self.servers[i].channels[at],
                    },
                );
            }
            i = i + 1;
        }
        proof {
            lemma_first_index(
                self@.servers,
                |server: ServerView| channel_position(server.channels, id) < server.channels.len(),
                i as int,
            );
        }
        None
    }
}

} // verus!
