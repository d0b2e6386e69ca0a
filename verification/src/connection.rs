//! A connection: the mirror, the mute settings and the bindings, and the
//! dispatch of remote events to them.

use vstd::prelude::*;
use crate::channel_data::{
    name_actions, resolve, server_actions, Binder, BinderView, BoundView, ChannelData,
    UserServerSettings,
};
use crate::event::{Event, EventView};
use crate::host::{closes_nothing, ActionView, BufferHandle, Host, HostView};
use crate::message::{holds_id, rfc3339_seconds, MessageUpdateView, MessageView};
use crate::message_renderer::{tag_of, RenderView};
use crate::mirror::{find_server_in, server_position, MirrorView, StateMirror};
use crate::model::{
    views, ChannelEntity, ChannelKind, ChannelRef, ChannelRefView, ChannelView, MemberEntity,
    MemberView, ServerEntity, ServerView, UserEntity, UserView,
};
use crate::mute::{is_muted, with_overrides, ChannelOverride, MuteSet};
use crate::names::{
    decimal, decimal_text, lemma_decimal_is_no_stable_id, push_decimal, stable_id,
};
use crate::seqs::{first_index, lemma_first_index, lemma_first_index_found};

verus! {

/// The full state that the remote service hands over at the handshake.
pub struct Snapshot {
    pub user: Option<UserEntity>,
    pub servers: Vec<ServerEntity>,
    pub private_channels: Vec<ChannelEntity>,
    pub user_server_settings: Option<Vec<UserServerSettings>>,
}

/// The channel overrides of the user's settings, server by server.
pub open spec fn overrides_of(settings: Option<Vec<UserServerSettings>>) -> Seq<
    Seq<ChannelOverride>,
> {
    match settings {
        Some(settings) => Seq::new(settings@.len(), |i: int| settings@[i].channel_overrides@),
        None => Seq::empty(),
    }
}

/// The mute settings after the first `upto` servers' settings were taken in.
pub open spec fn settings_taken(
    mutes: Map<u64, bool>,
    settings: Seq<Seq<ChannelOverride>>,
    upto: int,
) -> Map<u64, bool>
    decreases upto,
{
    if upto <= 0 {
        mutes
    } else {
        with_overrides(settings_taken(mutes, settings, upto - 1), settings[upto - 1])
    }
}

/// The line that tells of an event that was dropped because a timestamp in it
/// could not be read.
pub open spec fn dropped_line() -> Seq<char> {
    "discord: dropped an event with an unreadable timestamp"@
}

/// The bindings and the host that shows them.
pub struct Shown {
    pub binder: BinderView,
    pub host: HostView,
}

/// After binding the first `upto` channels of the server, each opened on the
/// spot unless it is blocked.
pub open spec fn channels_bound(
    shown: Shown,
    mutes: Map<u64, bool>,
    user: Option<UserView>,
    server: ServerView,
    upto: int,
) -> Shown
    decreases upto,
{
    if upto <= 0 {
        shown
    } else {
        let before = channels_bound(shown, mutes, user, server, upto - 1);
        let bound = before.binder.bind(
            before.host,
            mutes,
            user,
            ChannelRefView { server: Some(server), channel: server.channels[upto - 1] },
            true,
        );
        Shown { binder: bound.binder, host: bound.host }
    }
}

/// After giving the server its buffer and binding each of its channels.
pub open spec fn server_opened(
    shown: Shown,
    mutes: Map<u64, bool>,
    user: Option<UserView>,
    server: ServerView,
) -> Shown {
    channels_bound(
        Shown {
            binder: shown.binder,
            host: shown.host.after_all(server_actions(shown.host, server)),
        },
        mutes,
        user,
        server,
        server.channels.len() as int,
    )
}

/// After opening the first `upto` servers in order.
pub open spec fn servers_opened(
    shown: Shown,
    mutes: Map<u64, bool>,
    user: Option<UserView>,
    servers: Seq<ServerView>,
    upto: int,
) -> Shown
    decreases upto,
{
    if upto <= 0 {
        shown
    } else {
        server_opened(
            servers_opened(shown, mutes, user, servers, upto - 1),
            mutes,
            user,
            servers[upto - 1],
        )
    }
}

/// The nick list changes for a member of a server: one for each of the first
/// `upto` bindings that is of a channel of that server, in order.
pub open spec fn nick_sync(
    binder: BinderView,
    server_id: u64,
    nick: Seq<char>,
    add: bool,
    upto: int,
) -> Seq<ActionView>
    decreases upto,
{
    if upto <= 0 {
        Seq::empty()
    } else {
        let before = nick_sync(binder, server_id, nick, add, upto - 1);
        let binding = binder.bound[upto - 1].binding;
        if binding.server_id == server_id && server_id != 0 {
            before.push(
                if add {
                    ActionView::AddNick { handle: binding.buffer, nick }
                } else {
                    ActionView::RemoveNick { handle: binding.buffer, nick }
                },
            )
        } else {
            before
        }
    }
}

/// Keeping the nick lists in step closes nothing.
pub proof fn lemma_nick_sync_closes_nothing(
    binder: BinderView,
    server_id: u64,
    nick: Seq<char>,
    add: bool,
    upto: int,
)
    ensures
        closes_nothing(nick_sync(binder, server_id, nick, add, upto)),
    decreases upto,
{
    if upto > 0 {
        lemma_nick_sync_closes_nothing(binder, server_id, nick, add, upto - 1);
    }
}

impl BinderView {
    /// The binder with another log for the binding at `at`.
    pub open spec fn with_render(self, at: int, render: RenderView) -> BinderView {
        BinderView { bound: self.bound.update(at, BoundView { render, ..self.bound[at] }) }
    }

    /// A log of the same buffer in the place of a binding's log leaves the
    /// bindings well-formed.
    pub proof fn lemma_wf_with_render(self, host: HostView, at: int, render: RenderView)
        requires
            self.wf(host),
            0 <= at < self.bound.len(),
            render.handle == self.bound[at].binding.buffer,
        ensures
            self.with_render(at, render).wf(host),
    {
        let next = self.with_render(at, render);
        assert forall|i: int| 0 <= i < next.bound.len() implies {
            let binding = (#[trigger] next.bound[i]).binding;
            &&& binding.open
            &&& next.bound[i].render.handle == binding.buffer
            &&& host.has_name(binding.buffer, stable_id(binding.server_id, binding.channel_id))
        } by {
            assert(next.bound[i].binding == self.bound[i].binding);
        }
        assert forall|i: int, j: int| 0 <= i < j < next.bound.len() implies !((
        #[trigger] next.bound[i]).binding.server_id == (#[trigger] next.bound[j]).binding.server_id
            && next.bound[i].binding.channel_id == next.bound[j].binding.channel_id) by {
            assert(next.bound[i].binding == self.bound[i].binding);
            assert(next.bound[j].binding == self.bound[j].binding);
        }
    }

    /// A channel that was bound has its binding in the binder, to the buffer
    /// that binding gave.
    pub proof fn lemma_bound_is_held(
        self,
        host: HostView,
        mutes: Map<u64, bool>,
        user: Option<UserView>,
        channel: ChannelRefView,
        auto_open: bool,
    )
        requires
            self.bind(host, mutes, user, channel, auto_open).buffer is Some,
        ensures
            ({
                let bound = self.bind(host, mutes, user, channel, auto_open);
                let at = bound.binder.position(channel.server_id(), channel.channel.id);
                0 <= at < bound.binder.bound.len() && Some(bound.binder.bound[at].binding.buffer)
                    == bound.buffer
            }),
    {
        let bound = self.bind(host, mutes, user, channel, auto_open);
        let server_id = channel.server_id();
        let channel_id = channel.channel.id;
        lemma_first_index_found(
            self.bound,
            |held: BoundView|
                held.binding.server_id == server_id && held.binding.channel_id == channel_id,
        );
        if bound.binder != self {
            lemma_first_index(
                bound.binder.bound,
                |held: BoundView|
                    held.binding.server_id == server_id && held.binding.channel_id == channel_id,
                self.bound.len() as int,
            );
        }
    }

    /// Closing a buffer that is named by a plain numeral, as a server's
    /// buffer is, leaves the bindings well-formed.
    pub proof fn lemma_wf_after_server_close(self, host: HostView, handle: BufferHandle, id: nat)
        requires
            self.wf(host),
            host.has_name(handle, decimal(id)),
        ensures
            self.wf(host.after(ActionView::Close { handle })),
    {
        let next = host.after(ActionView::Close { handle });
        assert forall|i: int| 0 <= i < self.bound.len() implies {
            let binding = (#[trigger] self.bound[i]).binding;
            next.has_name(binding.buffer, stable_id(binding.server_id, binding.channel_id))
        } by {
            let binding = self.bound[i].binding;
            lemma_decimal_is_no_stable_id(id, binding.server_id, binding.channel_id);
            assert(host.has_name(
                binding.buffer,
                stable_id(binding.server_id, binding.channel_id),
            ));
        }
    }
}

/// A connection to the remote service.
pub struct MyConnection {
    pub state: StateMirror,
    pub mutes: MuteSet,
    pub binder: Binder,
}

/// What a connection is: the mirror, the mute settings and the bindings.
pub struct ConnectionView {
    pub state: MirrorView,
    pub mutes: Map<u64, bool>,
    pub binder: BinderView,
}

impl View for MyConnection {
    type V = ConnectionView;

    open spec fn view(&self) -> ConnectionView {
        ConnectionView { state: self.state@, mutes: self.mutes@, binder: self.binder@ }
    }
}

impl ConnectionView {
    /// The bindings with the host that shows them.
    pub open spec fn shown(self, host: HostView) -> Shown {
        Shown { binder: self.binder, host }
    }

    /// A created message: its channel is bound, a channel without a server
    /// being opened on the spot; where that gives a buffer and the timestamp
    /// reads as `date`, the message is printed, tagged, and stored. A message
    /// for a buffer is dropped if its timestamp cannot be read, and a line in
    /// the main buffer says so.
    pub open spec fn message_created(
        self,
        host: HostView,
        message: MessageView,
        date: Option<i64>,
    ) -> Shown {
        match self.state.find_channel(message.channel_id) {
            Some(channel) => {
                let bound = self.binder.bind(
                    host,
                    self.mutes,
                    self.state.user,
                    channel,
                    channel.server is None,
                );
                let at = bound.binder.position(channel.server_id(), channel.channel.id);
                if bound.buffer is Some && date is Some {
                    Shown {
                        binder: bound.binder.with_render(
                            at,
                            bound.binder.bound[at].render.appended(message, date->0),
                        ),
                        host: bound.host.after(
                            ActionView::Print {
                                handle: bound.buffer->0,
                                date,
                                tag: Some(tag_of(self.state, message, true)),
                                text: message.content,
                            },
                        ),
                    }
                } else if bound.buffer is Some {
                    Shown {
                        binder: bound.binder,
                        host: bound.host.after(ActionView::PrintMain { text: dropped_line() }),
                    }
                } else {
                    Shown { binder: bound.binder, host: bound.host }
                }
            },
            None => self.shown(host),
        }
    }

    /// A created message for a muted channel that has no binding binds
    /// nothing and prints nothing, whatever its timestamp.
    pub proof fn lemma_muted_message_is_silent(
        self,
        host: HostView,
        message: MessageView,
        date: Option<i64>,
    )
        requires
            self.state.find_channel(message.channel_id) is Some,
            ({
                let channel = self.state.find_channel(message.channel_id)->0;
                is_muted(self.mutes, channel.channel.id) && self.binder.position(
                    channel.server_id(),
                    channel.channel.id,
                ) >= self.binder.bound.len()
            }),
        ensures
            self.message_created(host, message, date) == self.shown(host),
    {
    }

    /// An updated message: where its channel has a binding, the update is
    /// applied to that binding's log and the buffer is redrawn. `date` is the
    /// reading of the update's timestamp, if it holds one; an update whose
    /// timestamp cannot be read is dropped, and a line in the main buffer
    /// says so.
    pub open spec fn message_updated(
        self,
        host: HostView,
        update: MessageUpdateView,
        date: Option<i64>,
    ) -> Shown {
        match self.state.find_channel(update.channel_id) {
            Some(channel) => {
                let at = self.binder.position(channel.server_id(), channel.channel.id);
                if at < self.binder.bound.len() && !(update.timestamp is Some && date is None) {
                    let render = self.binder.bound[at].render.edited(update, date);
                    Shown {
                        binder: self.binder.with_render(at, render),
                        host: host.after_all(render.redraw_actions()),
                    }
                } else if at < self.binder.bound.len() {
                    Shown {
                        binder: self.binder,
                        host: host.after(ActionView::PrintMain { text: dropped_line() }),
                    }
                } else {
                    self.shown(host)
                }
            },
            None => self.shown(host),
        }
    }

    /// A deleted message: where its channel has a binding, the message leaves
    /// that binding's log, if it is there, and the buffer is redrawn.
    pub open spec fn message_deleted(
        self,
        host: HostView,
        channel_id: u64,
        message_id: u64,
    ) -> Shown {
        match self.state.find_channel(channel_id) {
            Some(channel) => {
                let at = self.binder.position(channel.server_id(), channel.channel.id);
                if at < self.binder.bound.len() {
                    let render = self.binder.bound[at].render.removed(message_id);
                    Shown {
                        binder: self.binder.with_render(at, render),
                        host: host.after_all(render.redraw_actions()),
                    }
                } else {
                    self.shown(host)
                }
            },
            None => self.shown(host),
        }
    }

    /// What an event does to the bindings and the host, the mirror having
    /// taken the event in. An unknown event does nothing.
    pub open spec fn dispatched(self, host: HostView, event: EventView) -> Shown {
        let after = self.state.applied(event);
        match event {
            EventView::MessageCreate(message) => self.message_created(
                host,
                message,
                rfc3339_seconds(message.timestamp),
            ),
            EventView::MessageUpdate(update) => self.message_updated(
                host,
                update,
                match update.timestamp {
                    Some(text) => rfc3339_seconds(text),
                    None => None,
                },
            ),
            EventView::MessageDelete { channel_id, message_id } => self.message_deleted(
                host,
                channel_id,
                message_id,
            ),
            EventView::ChannelCreate(channel) => match after.find_channel(channel.id) {
                Some(found) => {
                    let bound = self.binder.bind(host, self.mutes, after.user, found, true);
                    Shown { binder: bound.binder, host: bound.host }
                },
                None => self.shown(host),
            },
            EventView::ChannelUpdate(channel) => match after.find_channel(channel.id) {
                Some(found) => {
                    let at = self.binder.position(found.server_id(), found.channel.id);
                    if at < self.binder.bound.len() {
                        Shown {
                            binder: self.binder,
                            host: host.after_all(
                                name_actions(self.binder.bound[at].binding.buffer, found),
                            ),
                        }
                    } else {
                        self.shown(host)
                    }
                },
                None => self.shown(host),
            },
            EventView::ServerMemberAdd { server_id, member } => Shown {
                binder: self.binder,
                host: host.after_all(
                    nick_sync(
                        self.binder,
                        server_id,
                        member.display_name(),
                        true,
                        self.binder.bound.len() as int,
                    ),
                ),
            },
            EventView::ServerMemberRemove { server_id, user_id } => match self.state.find_member(
                server_id,
                user_id,
            ) {
                Some(member) => Shown {
                    binder: self.binder,
                    host: host.after_all(
                        nick_sync(
                            self.binder,
                            server_id,
                            member.display_name(),
                            false,
                            self.binder.bound.len() as int,
                        ),
                    ),
                },
                None => self.shown(host),
            },
            EventView::ServerCreate(server) => {
                let at = server_position(after.servers, server.id);
                if at < after.servers.len() {
                    server_opened(self.shown(host), self.mutes, after.user, after.servers[at])
                } else {
                    self.shown(host)
                }
            },
            EventView::ServerDelete { server_id } => if host.name_free(decimal(server_id as nat)) {
                self.shown(host)
            } else {
                Shown {
                    binder: self.binder,
                    host: host.after(
                        ActionView::Close { handle: host.named(decimal(server_id as nat)) },
                    ),
                }
            },
            _ => self.shown(host),
        }
    }
}

/// Gives the server its buffer and binds each of its channels, opening a
/// buffer for every channel that is not blocked.
pub fn open_server(
    binder: &mut Binder,
    host: &mut Host,
    mutes: &MuteSet,
    state: &StateMirror,
    server: &ServerEntity,
)
    requires
        old(host)@.wf(),
        old(binder)@.wf(old(host)@),
    ensures
        (Shown { binder: final(binder)@, host: final(host)@ }) == server_opened(
            Shown { binder: old(binder)@, host: old(host)@ },
            mutes@,
            state@.user,
            server@,
        ),
        final(host)@.wf(),
        final(binder)@.wf(final(host)@),
{
    proof {
        old(binder)@.lemma_wf_kept(old(host)@, server_actions(old(host)@, server@));
    }
    ChannelData::create_server(host, server);
    let ghost start = Shown { binder: binder@, host: host@ };
    let mut i: usize = 0;
    while i < server.channels.len()
        invariant
            i <= server.channels@.len(),
            host@.wf(),
            binder@.wf(host@),
            (Shown { binder: binder@, host: host@ }) == channels_bound(
                start,
                mutes@,
                state@.user,
                server@,
                i as int,
            ),
        decreases server.channels@.len() - i,
    {
        let channel = ChannelRef { server: Some(server), channel: &server.channels[i] };
        proof {
            assert(channel@.channel == server@.channels[i as int]);
        }
        let _ = ChannelData::from_channel(binder, host, mutes, state, channel, true);
        i = i + 1;
    }
}

/// Adds a member's nick to, or removes it from, the buffer of every bound
/// channel of the server.
pub fn sync_nicks(binder: &Binder, host: &mut Host, server_id: u64, nick: &str, add: bool)
    requires
        old(host)@.wf(),
        binder@.wf(old(host)@),
    ensures
        final(host)@ == old(host)@.after_all(
            nick_sync(binder@, server_id, nick@, add, binder@.bound.len() as int),
        ),
        final(host)@.wf(),
        binder@.wf(final(host)@),
{
    let mut i: usize = 0;
    while i < binder.bound.len()
        invariant
            i <= binder.bound@.len(),
            old(host)@.wf(),
            binder@.wf(old(host)@),
            host@ == old(host)@.after_all(nick_sync(binder@, server_id, nick@, add, i as int)),
        decreases binder.bound@.len() - i,
    {
        let binding = binder.bound[i].binding;
        proof {
            lemma_nick_sync_closes_nothing(binder@, server_id, nick@, add, i as int);
            binder@.lemma_wf_kept(
                old(host)@,
                nick_sync(binder@, server_id, nick@, add, i as int),
            );
            assert(binder@.bound[i as int].binding == binding);
            old(host)@.lemma_after_push(
                nick_sync(binder@, server_id, nick@, add, i as int),
                if add {
                    ActionView::AddNick { handle: binding.buffer, nick: nick@ }
                } else {
                    ActionView::RemoveNick { handle: binding.buffer, nick: nick@ }
                },
            );
        }
        if binding.server_id == server_id && server_id != 0 {
            if add {
                host.add_nick(binding.buffer, nick);
            } else {
                host.remove_nick(binding.buffer, nick);
            }
        }
        i = i + 1;
    }
    proof {
        let all = nick_sync(binder@, server_id, nick@, add, binder@.bound.len() as int);
        lemma_nick_sync_closes_nothing(binder@, server_id, nick@, add, binder@.bound.len() as int);
        binder@.lemma_wf_kept(old(host)@, all);
        old(host)@.lemma_after_all_keeps(all);
    }
}

impl MyConnection {
    /// The bindings are well-formed in the host, and so is the host.
    pub open spec fn wf(&self, host: HostView) -> bool {
        host.wf() && self@.binder.wf(host)
    }

    /// Whether the connection is well-formed in the host.
    pub fn check(&self, host: &Host) -> (ok: bool)
        ensures
            ok == self.wf(host@),
    {
        host.check() && self.binder.check(host)
    }

    /// A connection from the snapshot of a handshake: the user's mute
    /// settings are taken in, the mirror holds the snapshot, and every server
    /// gets its buffer, and every channel of a server that is not blocked its
    /// own.
    pub fn new(host: &mut Host, mutes: MuteSet, ready: Snapshot) -> (connection: MyConnection)
        requires
            old(host)@.wf(),
        ensures
            connection@.mutes == settings_taken(
                mutes@,
                overrides_of(ready.user_server_settings),
                overrides_of(ready.user_server_settings).len() as int,
            ),
            connection.state.user == ready.user,
            connection.state.servers == ready.servers,
            connection.state.private_channels == ready.private_channels,
            connection@.shown(final(host)@) == servers_opened(
                Shown { binder: BinderView { bound: Seq::empty() }, host: old(host)@ },
                connection@.mutes,
                connection@.state.user,
                connection@.state.servers,
                connection@.state.servers.len() as int,
            ),
            connection.wf(final(host)@),
    {
        let mut mutes = mutes;
        let ghost given = mutes@;
        let ghost settings = overrides_of(ready.user_server_settings);
        match &ready.user_server_settings {
            Some(all) => {
                let mut i: usize = 0;
                while i < all.len()
                    invariant
                        i <= all@.len(),
                        settings == overrides_of(ready.user_server_settings),
                        ready.user_server_settings == Some(*all),
                        mutes@ == settings_taken(given, settings, i as int),
                    decreases all@.len() - i,
                {
                    let _ = ChannelData::mute_channels(&mut mutes, &all[i]);
                    i = i + 1;
                }
            },
            None => {},
        }
        let state = StateMirror::new(ready.user, ready.servers, ready.private_channels);
        let mut binder = Binder::new();
        let ghost start = Shown { binder: binder@, host: old(host)@ };
        proof {
            assert(binder@.bound =~= Seq::empty());
        }
        let mut i: usize = 0;
        while i < state.servers.len()
            invariant
                i <= state.servers@.len(),
                host@.wf(),
                binder@.wf(host@),
                (Shown { binder: binder@, host: host@ }) == servers_opened(
                    start,
                    mutes@,
                    state@.user,
                    state@.servers,
                    i as int,
                ),
            decreases state.servers@.len() - i,
        {
            open_server(&mut binder, host, &mutes, &state, &state.servers[i]);
            i = i + 1;
        }
        MyConnection { state, mutes, binder }
    }

    /// Dispatches one remote event: the mirror takes it in, and the bindings
    /// and the buffers follow. An unknown event is ignored.
    pub fn on_event(&mut self, host: &mut Host, event: Event)
        requires
            old(self).wf(old(host)@),
        ensures
            final(self)@.state == old(self)@.state.applied(event@),
            final(self)@.mutes == old(self)@.mutes,
            final(self)@.shown(final(host)@) == old(self)@.dispatched(old(host)@, event@),
            final(self).wf(final(host)@),
    {
        match event {
            Event::MessageCreate(message) => {
                let bound = ChannelData::from_discord_event(
                    &mut self.binder,
                    host,
                    &self.mutes,
                    &self.state,
                    message.channel_id,
                );
                if let Some(data) = bound {
                    let binding = data.binding();
                    let at = self.binder.find(binding.server_id, binding.channel_id);
                    proof {
                        let channel = data.channel@;
                        old(self)@.binder.lemma_bound_is_held(
                            old(host)@,
                            self.mutes@,
                            self.state@.user,
                            channel,
                            channel.server is None,
                        );
                        assert(self.binder@.bound[at as int] == self.binder.bound@[at as int]@);
                    }
                    let ghost before = self.binder@;
                    let ghost shown = host@;
                    let done = self.binder.bound[at].renderer.add_msg(
                        host,
                        &self.state,
                        message,
                        true,
                    );
                    if done.is_err() {
                        host.print_main("discord: dropped an event with an unreadable timestamp");
                    }
                    proof {
                        let render = self.binder.bound@[at as int].renderer@;
                        assert(self.binder@.bound =~= before.with_render(at as int, render).bound);
                        before.lemma_wf_with_render(shown, at as int, render);
                        if rfc3339_seconds(message@.timestamp) is Some {
                            let print = ActionView::Print {
                                handle: binding.buffer,
                                date: rfc3339_seconds(message@.timestamp),
                                tag: Some(tag_of(self.state@, message@, true)),
                                text: message@.content,
                            };
                            shown.lemma_after_one(print);
                            before.with_render(at as int, render).lemma_wf_kept(
                                shown,
                                seq![print],
                            );
                            shown.lemma_after_all_keeps(seq![print]);
                        } else {
                            assert(before.with_render(at as int, render).bound =~= before.bound);
                            let print = ActionView::PrintMain { text: dropped_line() };
                            shown.lemma_after_one(print);
                            before.lemma_wf_kept(shown, seq![print]);
                            shown.lemma_after_all_keeps(seq![print]);
                        }
                    }
                }
            },
            Event::MessageUpdate(update) => {
                if let Some(channel) = self.state.find_channel(update.channel_id) {
                    let at = self.binder.find(channel.server_id(), channel.channel.id);
                    if at < self.binder.bound.len() {
                        let ghost before = self.binder@;
                        proof {
                            assert(before.bound[at as int] == self.binder.bound@[at as int]@);
                        }
                        let done = self.binder.bound[at].renderer.update_msg(
                            host,
                            &self.state,
                            update,
                        );
                        if done.is_err() {
                            host.print_main(
                                "discord: dropped an event with an unreadable timestamp",
                            );
                        }
                        proof {
                            let render = self.binder.bound@[at as int].renderer@;
                            assert(self.binder@.bound =~= before.with_render(
                                at as int,
                                render,
                            ).bound);
                            before.lemma_wf_with_render(old(host)@, at as int, render);
                            if done is Ok {
                                before.with_render(at as int, render).lemma_wf_kept(
                                    old(host)@,
                                    render.redraw_actions(),
                                );
                                old(host)@.lemma_after_all_keeps(render.redraw_actions());
                            } else {
                                assert(before.with_render(at as int, render).bound
                                    =~= before.bound);
                                let print = ActionView::PrintMain { text: dropped_line() };
                                old(host)@.lemma_after_one(print);
                                before.lemma_wf_kept(old(host)@, seq![print]);
                                old(host)@.lemma_after_all_keeps(seq![print]);
                            }
                        }
                    }
                }
            },
            Event::MessageDelete { channel_id, message_id } => {
                if let Some(channel) = self.state.find_channel(channel_id) {
                    let at = self.binder.find(channel.server_id(), channel.channel.id);
                    if at < self.binder.bound.len() {
                        let ghost before = self.binder@;
                        proof {
                            assert(before.bound[at as int] == self.binder.bound@[at as int]@);
                        }
                        self.binder.bound[at].renderer.remove_msg(host, &self.state, message_id);
                        proof {
                            let render = self.binder.bound@[at as int].renderer@;
                            assert(self.binder@.bound =~= before.with_render(
                                at as int,
                                render,
                            ).bound);
                            before.lemma_wf_with_render(old(host)@, at as int, render);
                            before.with_render(at as int, render).lemma_wf_kept(
                                old(host)@,
                                render.redraw_actions(),
                            );
                            old(host)@.lemma_after_all_keeps(render.redraw_actions());
                        }
                    }
                }
            },
            Event::ChannelCreate(channel) => {
                let id = channel.id;
                self.state.put_channel(channel);
                if let Some(found) = self.state.find_channel(id) {
                    let _ = ChannelData::from_channel(
                        &mut self.binder,
                        host,
                        &self.mutes,
                        &self.state,
                        found,
                        true,
                    );
                }
            },
            Event::ChannelUpdate(channel) => {
                let id = channel.id;
                self.state.put_channel(channel);
                if let Some(found) = self.state.find_channel(id) {
                    let at = self.binder.find(found.server_id(), found.channel.id);
                    if at < self.binder.bound.len() {
                        let buffer = self.binder.bound[at].binding.buffer;
                        proof {
                            assert(self.binder@.bound[at as int].binding
                                == self.binder.bound@[at as int].binding);
                            crate::channel_data::lemma_init_closes_nothing(
                                buffer,
                                found@,
                                self.state@.user,
                            );
                            self.binder@.lemma_wf_kept(old(host)@, name_actions(buffer, found@));
                            old(host)@.lemma_after_all_keeps(name_actions(buffer, found@));
                        }
                        let data = ChannelData { state: &self.state, channel: found, buffer };
                        data.sync_name(host);
                    }
                }
            },
            Event::ChannelDelete { channel_id } => {
                self.state.drop_channel(channel_id);
            },
            Event::ServerMemberAdd { server_id, member } => {
                let nick = String::from_str(member.display_name());
                self.state.put_member(server_id, member);
                sync_nicks(&self.binder, host, server_id, nick.as_str(), true);
            },
            Event::ServerMemberRemove { server_id, user_id } => {
                if let Some(member) = self.state.find_member(server_id, user_id) {
                    let nick = String::from_str(member.display_name());
                    sync_nicks(&self.binder, host, server_id, nick.as_str(), false);
                }
                self.state.drop_member(server_id, user_id);
            },
            Event::ServerCreate(server) => {
                let id = server.id;
                self.state.put_server(server);
                let at = find_server_in(&self.state.servers, id);
                if at < self.state.servers.len() {
                    proof {
                        assert(self.state@.servers[at as int] == self.state.servers@[at as int]@);
                    }
                    open_server(
                        &mut self.binder,
                        host,
                        &self.mutes,
                        &self.state,
                        &self.state.servers[at],
                    );
                }
            },
            Event::ServerDelete { server_id } => {
                self.state.drop_server(server_id);
                let name = decimal_text(server_id);
                if let Some(found) = host.search(name.as_str()) {
                    proof {
                        host@.lemma_named(found, name@);
                        self.binder@.lemma_wf_after_server_close(
                            host@,
                            found,
                            server_id as nat,
                        );
                        host@.lemma_after_wf(ActionView::Close { handle: found });
                    }
                    host.close(found);
                }
            },
            Event::Unknown => {},
        }
    }
}

/// What the receiving side hands to the control loop: an event, a failure of
/// the receiver, or the state of the queue when nothing was in it.
pub enum Received {
    Event(Event),
    Failed(String),
    Empty,
    Disconnected,
}

/// Why a connection could not be made.
pub enum ConnectError {
    /// The credentials were refused.
    AuthError(String),
    /// The handshake or the transport failed.
    NetworkError(String),
}

impl ConnectError {
    /// The line that tells the user of the failure.
    pub open spec fn description(self) -> Seq<char> {
        match self {
            ConnectError::AuthError(reason) => "authentication failed: "@ + reason@,
            ConnectError::NetworkError(reason) => "network error: "@ + reason@,
        }
    }

    /// The line that tells the user of the failure.
    pub fn describe(&self) -> (text: String)
        ensures
            text@ == self.description(),
    {
        match self {
            ConnectError::AuthError(reason) => joined("authentication failed: ", reason.as_str()),
            ConnectError::NetworkError(reason) => joined("network error: ", reason.as_str()),
        }
    }
}

/// A message that the user typed, to be sent to a channel.
pub struct Outgoing {
    pub channel_id: u64,
    pub content: String,
}

/// The two texts, one after the other.
pub fn joined(first: &str, second: &str) -> (text: String)
    ensures
        text@ == first@ + second@,
{
    let mut text = String::from_str(first);
    text.append(second);
    text
}

/// Whether the receiving side goes on after it forwarded what it received:
/// it stops after a failure, which it forwards all the same, and when
/// nobody takes what it forwards.
pub fn keep_receiving(received_failed: bool, forward_failed: bool) -> (more: bool)
    ensures
        more == (!received_failed && !forward_failed),
{
    !received_failed && !forward_failed
}

/// The token by which a user is mentioned.
pub open spec fn mention(id: u64) -> Seq<char> {
    "<@"@ + decimal(id as nat) + ">"@
}

/// A member's line of the name table: the display name and the mention.
pub open spec fn name_line(member: MemberView) -> Seq<char> {
    member.display_name() + " : "@ + mention(member.id)
}

/// The name table of a channel: a line for each member of its server.
pub open spec fn name_table(channel: ChannelRefView) -> Seq<Seq<char>> {
    match channel.server {
        Some(server) => Seq::new(server.members.len(), |i: int| name_line(server.members[i])),
        None => Seq::empty(),
    }
}

/// The dump of one server: its name, then the name table of the channel
/// that the mirror finds for the id of the server's first channel.
pub open spec fn server_dump(state: MirrorView, server: ServerView) -> Seq<Seq<char>> {
    seq!["Server: "@ + server.name] + if server.channels.len() > 0 {
        match state.find_channel(server.channels[0].id) {
            Some(channel) => name_table(channel),
            None => Seq::empty(),
        }
    } else {
        Seq::empty()
    }
}

/// The dump of the first `upto` servers.
pub open spec fn dump(state: MirrorView, upto: int) -> Seq<Seq<char>>
    decreases upto,
{
    if upto <= 0 {
        Seq::empty()
    } else {
        dump(state, upto - 1) + server_dump(state, state.servers[upto - 1])
    }
}

/// Printing each line to the main buffer.
pub open spec fn print_all(lines: Seq<Seq<char>>) -> Seq<ActionView> {
    Seq::new(lines.len(), |i: int| ActionView::PrintMain { text: lines[i] })
}

/// The position of the first member shown under this name, or the number of
/// members.
pub open spec fn named_position(members: Seq<MemberView>, nick: Seq<char>) -> int {
    first_index(members, |member: MemberView| member.display_name() == nick)
}

/// The position of the first server with a member shown under this name.
pub open spec fn naming_position(servers: Seq<ServerView>, nick: Seq<char>) -> int {
    first_index(
        servers,
        |server: ServerView| named_position(server.members, nick) < server.members.len(),
    )
}

/// The position of the first private channel with this user.
pub open spec fn private_position(channels: Seq<ChannelView>, user: u64) -> int {
    first_index(
        channels,
        |channel: ChannelView|
            channel.kind == ChannelKind::Private && channel.recipients.contains(user),
    )
}

/// What a query gives: the user for whom a private channel has to be
/// created, if one has to be, and the bindings and the host after it.
pub struct QueryResult {
    pub create_for: Option<u64>,
    pub shown: Shown,
}

impl MirrorView {
    /// The user shown under this name: the first such member of the first
    /// server that has one.
    pub open spec fn user_named(self, nick: Seq<char>) -> Option<u64> {
        let at = naming_position(self.servers, nick);
        if at < self.servers.len() {
            Some(self.servers[at].members[named_position(self.servers[at].members, nick)].id)
        } else {
            None
        }
    }
}

impl ConnectionView {
    /// A query for a name: an unknown name prints one line to the buffer; a
    /// user with a private channel has that channel bound and opened; for any
    /// other user a private channel has to be created.
    pub open spec fn queried(
        self,
        host: HostView,
        buffer: BufferHandle,
        nick: Seq<char>,
    ) -> QueryResult {
        match self.state.user_named(nick) {
            None => QueryResult {
                create_for: None,
                shown: Shown {
                    binder: self.binder,
                    host: host.after(
                        ActionView::Print {
                            handle: buffer,
                            date: None,
                            tag: None,
                            text: "User not found: "@ + nick,
                        },
                    ),
                },
            },
            Some(user) => {
                let at = private_position(self.state.private_channels, user);
                if at < self.state.private_channels.len() {
                    let bound = self.binder.bind(
                        host,
                        self.mutes,
                        self.state.user,
                        ChannelRefView { server: None, channel: self.state.private_channels[at] },
                        true,
                    );
                    QueryResult {
                        create_for: None,
                        shown: Shown { binder: bound.binder, host: bound.host },
                    }
                } else {
                    QueryResult { create_for: Some(user), shown: self.shown(host) }
                }
            },
        }
    }

    /// What the user's input gives: the message to send where the buffer
    /// shows a channel, else nothing and a line that says so.
    pub open spec fn input_host(self, host: HostView, buffer: BufferHandle) -> HostView {
        if resolve(host, self.state, buffer) is Some {
            host
        } else {
            host.after(
                ActionView::Print {
                    handle: buffer,
                    date: None,
                    tag: None,
                    text: "Associated channel not found!?"@,
                },
            )
        }
    }
}

/// The mention of a user in a text.
pub fn mention_text(id: u64) -> (text: String)
    ensures
        text@ == mention(id),
{
    let mut text = String::from_str("<@");
    push_decimal(&mut text, id);
    text.append(">");
    proof {
        assert(text@ =~= mention(id));
    }
    text
}

/// The position of the first member whom the token mentions, or the number
/// of members.
pub open spec fn mentioned_position(members: Seq<MemberView>, token: Seq<char>) -> int {
    first_index(members, |member: MemberView| mention(member.id) == token)
}

/// Resolves a raw mention token to the display name of the member whom it
/// mentions: the nickname override where there is one, else the user name.
/// A token that mentions no member resolves to nothing.
pub fn resolve_mention(members: &Vec<MemberEntity>, token: &str) -> (name: Option<String>)
    ensures
        ({
            let at = mentioned_position(views(members@), token@);
            match name {
                Some(name) => at < members@.len() && name@ == views(members@)[at].display_name(),
                None => at >= members@.len(),
            }
        }),
{
    let wanted = String::from_str(token);
    let mut i: usize = 0;
    while i < members.len() && !(mention_text(members[i].id) == wanted)
        invariant
            i <= members@.len(),
            wanted@ == token@,
            forall|j: int| 0 <= j < i ==> mention((#[trigger] views(members@)[j]).id) != token@,
        decreases members@.len() - i,
    {
        i = i + 1;
    }
    proof {
        lemma_first_index(
            views(members@),
            |member: MemberView| mention(member.id) == token@,
            i as int,
        );
    }
    if i < members.len() {
        Some(String::from_str(members[i].display_name()))
    } else {
        None
    }
}

/// A member's line of the name table.
fn name_line_text(member: &MemberEntity) -> (text: String)
    ensures
        text@ == name_line(member@),
{
    let mut text = String::from_str(member.display_name());
    text.append(" : ");
    text.append("<@");
    push_decimal(&mut text, member.id);
    text.append(">");
    proof {
        assert(text@ =~= name_line(member@));
    }
    text
}

/// Whether the channel is a private channel with this user.
fn is_private_with(channel: &ChannelEntity, user: u64) -> (private: bool)
    ensures
        private == (channel@.kind == ChannelKind::Private && channel@.recipients.contains(user)),
{
    match channel.kind {
        ChannelKind::Private => holds_id(&channel.recipients, user),
        _ => false,
    }
}

/// The position of the first member shown under this name.
fn find_named(members: &Vec<MemberEntity>, nick: &String) -> (at: usize)
    ensures
        at == named_position(views(members@), nick@),
        at <= members@.len(),
{
    let mut i: usize = 0;
    while i < members.len() && !(String::from_str(members[i].display_name()) == *nick)
        invariant
            i <= members@.len(),
            forall|j: int| 0 <= j < i ==> (#[trigger] views(members@)[j]).display_name() != nick@,
        decreases members@.len() - i,
    {
        i = i + 1;
    }
    proof {
        lemma_first_index(
            views(members@),
            |member: MemberView| member.display_name() == nick@,
            i as int,
        );
    }
    i
}

impl MyConnection {
    /// Takes what the receiving side handed over. An event is dispatched; a
    /// failure of the receiver is printed; both ask for more. An empty queue
    /// ends the round in silence, a disconnected one with a line.
    pub fn on_poke(&mut self, host: &mut Host, received: Received) -> (more: bool)
        requires
            old(self).wf(old(host)@),
        ensures
            match received {
                Received::Event(event) => more && final(self)@.state == old(self)@.state.applied(
                    event@,
                ) && final(self)@.mutes == old(self)@.mutes && final(self)@.shown(final(host)@)
                    == old(self)@.dispatched(old(host)@, event@),
                Received::Failed(reason) => more && final(self)@ == old(self)@ && final(host)@
                    == old(host)@.after(
                    ActionView::PrintMain { text: "listening thread had error - "@ + reason@ },
                ),
                Received::Empty => !more && final(self)@ == old(self)@ && final(host)@ == old(
                    host,
                )@,
                Received::Disconnected => !more && final(self)@ == old(self)@ && final(host)@
                    == old(host)@.after(
                    ActionView::PrintMain { text: "Listening thread stopped!"@ },
                ),
            },
            final(self).wf(final(host)@),
    {
        match received {
            Received::Event(event) => {
                self.on_event(host, event);
                true
            },
            Received::Failed(reason) => {
                let line = joined("listening thread had error - ", reason.as_str());
                proof {
                    let print = ActionView::PrintMain { text: line@ };
                    host@.lemma_after_one(print);
                    self.binder@.lemma_wf_kept(host@, seq![print]);
                    host@.lemma_after_all_keeps(seq![print]);
                }
                host.print_main(line.as_str());
                true
            },
            Received::Empty => false,
            Received::Disconnected => {
                proof {
                    let print = ActionView::PrintMain { text: "Listening thread stopped!"@ };
                    host@.lemma_after_one(print);
                    self.binder@.lemma_wf_kept(host@, seq![print]);
                    host@.lemma_after_all_keeps(seq![print]);
                }
                host.print_main("Listening thread stopped!");
                false
            },
        }
    }

    /// The diagnostic dump: for the command `replace`, each server's name and
    /// name table go to the main buffer. Any other command does nothing.
    pub fn debug_command(&self, host: &mut Host, command: &str)
        ensures
            final(host)@ == if command@ == "replace"@ {
                old(host)@.after_all(
                    print_all(dump(self.state@, self.state@.servers.len() as int)),
                )
            } else {
                old(host)@
            },
    {
        if !(String::from_str(command) == String::from_str("replace")) {
            return ;
        }
        let ghost mut lines: Seq<Seq<char>> = Seq::empty();
        proof {
            assert(print_all(lines) =~= Seq::<ActionView>::empty());
        }
        let mut i: usize = 0;
        while i < self.state.servers.len()
            invariant
                i <= self.state.servers@.len(),
                host@ == old(host)@.after_all(print_all(lines)),
                lines == dump(self.state@, i as int),
            decreases self.state.servers@.len() - i,
        {
            let server = &self.state.servers[i];
            let header = joined("Server: ", server.name.as_str());
            host.print_main(header.as_str());
            proof {
                old(host)@.lemma_after_push(
                    print_all(lines),
                    ActionView::PrintMain { text: header@ },
                );
                assert(print_all(lines.push(header@)) =~= print_all(lines).push(
                    ActionView::PrintMain { text: header@ },
                ));
                lines = lines.push(header@);
                assert(self.state@.servers[i as int] == server@);
            }
            let ghost headed = lines;
            if server.channels.len() > 0 {
                proof {
                    assert(server@.channels[0] == server.channels@[0]@);
                }
                if let Some(channel) = self.state.find_channel(server.channels[0].id) {
                    if let Some(holder) = channel.server {
                        let mut j: usize = 0;
                        proof {
                            assert(name_table(channel@).take(0) =~= Seq::<Seq<char>>::empty());
                            assert(headed + name_table(channel@).take(0) =~= headed);
                        }
                        while j < holder.members.len()
                            invariant
                                j <= holder.members@.len(),
                                channel@.server == Some(holder@),
                                host@ == old(host)@.after_all(print_all(lines)),
                                lines == headed + name_table(channel@).take(j as int),
                            decreases holder.members@.len() - j,
                        {
                            let line = name_line_text(&holder.members[j]);
                            host.print_main(line.as_str());
                            proof {
                                old(host)@.lemma_after_push(
                                    print_all(lines),
                                    ActionView::PrintMain { text: line@ },
                                );
                                assert(print_all(lines.push(line@)) =~= print_all(lines).push(
                                    ActionView::PrintMain { text: line@ },
                                ));
                                assert(line@ == name_table(channel@)[j as int]);
                                assert(lines.push(line@) =~= headed + name_table(channel@).take(
                                    j + 1,
                                ));
                                lines = lines.push(line@);
                            }
                            j = j + 1;
                        }
                        proof {
                            assert(name_table(channel@).take(j as int) =~= name_table(channel@));
                        }
                    } else {
                        proof {
                            assert(headed + name_table(channel@) =~= headed);
                        }
                    }
                } else {
                    proof {
                        assert(headed + Seq::<Seq<char>>::empty() =~= headed);
                    }
                }
            } else {
                proof {
                    assert(headed + Seq::<Seq<char>>::empty() =~= headed);
                }
            }
            proof {
                assert(lines =~= dump(self.state@, i + 1));
            }
            i = i + 1;
        }
    }

    /// The user shown under this name.
    pub fn find_user(&self, nick: &str) -> (user: Option<u64>)
        ensures
            user == self.state@.user_named(nick@),
    {
        let wanted = String::from_str(nick);
        let mut i: usize = 0;
        while i < self.state.servers.len()
            invariant
                i <= self.state.servers@.len(),
                wanted@ == nick@,
                forall|j: int|
                    0 <= j < i ==> named_position(
                        (#[trigger] self.state@.servers[j]).members,
                        nick@,
                    ) >= self.state@.servers[j].members.len(),
            decreases self.state.servers@.len() - i,
        {
            let at = find_named(&self.state.servers[i].members, &wanted);
            proof {
                assert(self.state@.servers[i as int] == self.state.servers@[i as int]@);
            }
            if at < self.state.servers[i].members.len() {
                proof {
                    lemma_first_index(
                        self.state@.servers,
                        |server: ServerView|
                            named_position(server.members, nick@) < server.members.len(),
                        i as int,
                    );
                }
                return Some(self.state.servers[i].members[at].id);
            }
            i = i + 1;
        }
        proof {
            lemma_first_index(
                self.state@.servers,
                |server: ServerView| named_position(server.members, nick@) < server.members.len(),
                i as int,
            );
        }
        None
    }

    /// The position of the first private channel with this user.
    fn find_private(&self, user: u64) -> (at: usize)
        ensures
            at == private_position(self.state@.private_channels, user),
            at <= self.state.private_channels@.len(),
    {
        let mut i: usize = 0;
        while i < self.state.private_channels.len() && !is_private_with(
            &self.state.private_channels[i],
            user,
        )
            invariant
                i <= self.state.private_channels@.len(),
                forall|j: int|
                    0 <= j < i ==> {
                        let channel = #[trigger] self.state@.private_channels[j];
                        !(channel.kind == ChannelKind::Private && channel.recipients.contains(user))
                    },
            decreases self.state.private_channels@.len() - i,
        {
            i = i + 1;
        }
        proof {
            if i < self.state.private_channels@.len() {
                assert(self.state@.private_channels[i as int]
                    == self.state.private_channels@[i as int]@);
            }
            lemma_first_index(
                self.state@.private_channels,
                |channel: ChannelView|
                    channel.kind == ChannelKind::Private && channel.recipients.contains(user),
                i as int,
            );
        }
        i
    }

    /// Opens the private channel with the user shown under `nick`. Returns
    /// the user for whom a private channel has to be created first, if that
    /// is so; the outcome of that goes to `query_created`.
    pub fn query_command(
        &mut self,
        host: &mut Host,
        buffer: BufferHandle,
        nick: &str,
    ) -> (create_for: Option<u64>)
        requires
            old(self).wf(old(host)@),
            old(host)@.is_open(buffer),
        ensures
            ({
                let result = old(self)@.queried(old(host)@, buffer, nick@);
                &&& create_for == result.create_for
                &&& final(self)@.shown(final(host)@) == result.shown
                &&& final(self)@.state == old(self)@.state
                &&& final(self)@.mutes == old(self)@.mutes
            }),
            final(self).wf(final(host)@),
    {
        match self.find_user(nick) {
            Some(user) => {
                let at = self.find_private(user);
                if at < self.state.private_channels.len() {
                    let channel = ChannelRef {
                        server: None,
                        channel: &self.state.private_channels[at],
                    };
                    proof {
                        assert(channel@.channel == self.state@.private_channels[at as int]);
                    }
                    let _ = ChannelData::from_channel(
                        &mut self.binder,
                        host,
                        &self.mutes,
                        &self.state,
                        channel,
                        true,
                    );
                    None
                } else {
                    Some(user)
                }
            },
            None => {
                let line = joined("User not found: ", nick);
                proof {
                    let print = ActionView::Print {
                        handle: buffer,
                        date: None,
                        tag: None,
                        text: line@,
                    };
                    host@.lemma_after_one(print);
                    self.binder@.lemma_wf_kept(host@, seq![print]);
                    host@.lemma_after_all_keeps(seq![print]);
                }
                host.print(buffer, None, None, line.as_str());
                None
            },
        }
    }

    /// Takes the outcome of creating a private channel for a query: the new
    /// channel is bound and opened; a failure prints one line that names the
    /// user and the reason, and binds nothing.
    pub fn query_created(
        &mut self,
        host: &mut Host,
        buffer: BufferHandle,
        nick: &str,
        outcome: Result<ChannelEntity, String>,
    )
        requires
            old(self).wf(old(host)@),
            old(host)@.is_open(buffer),
        ensures
            final(self)@.state == old(self)@.state,
            final(self)@.mutes == old(self)@.mutes,
            match outcome {
                Ok(channel) => {
                    let bound = old(self)@.binder.bind(
                        old(host)@,
                        old(self)@.mutes,
                        old(self)@.state.user,
                        ChannelRefView { server: None, channel: channel@ },
                        true,
                    );
                    final(self)@.shown(final(host)@) == (Shown {
                        binder: bound.binder,
                        host: bound.host,
                    })
                },
                Err(reason) => final(self)@.binder == old(self)@.binder && final(host)@ == old(
                    host,
                )@.after(
                    ActionView::Print {
                        handle: buffer,
                        date: None,
                        tag: None,
                        text: "Unable to create a PM with "@ + nick@ + ": "@ + reason@,
                    },
                ),
            },
            final(self).wf(final(host)@),
    {
        match outcome {
            Ok(channel) => {
                let _ = ChannelData::from_channel(
                    &mut self.binder,
                    host,
                    &self.mutes,
                    &self.state,
                    ChannelRef { server: None, channel: &channel },
                    true,
                );
            },
            Err(reason) => {
                let mut line = joined("Unable to create a PM with ", nick);
                line.append(": ");
                line.append(reason.as_str());
                proof {
                    let print = ActionView::Print {
                        handle: buffer,
                        date: None,
                        tag: None,
                        text: line@,
                    };
                    host@.lemma_after_one(print);
                    self.binder@.lemma_wf_kept(host@, seq![print]);
                    host@.lemma_after_all_keeps(seq![print]);
                }
                host.print(buffer, None, None, line.as_str());
            },
        }
    }

    /// The connection in the slot, if one is there.
    pub fn magic(slot: &Option<MyConnection>) -> (current: Option<&MyConnection>)
        ensures
            match current {
                Some(connection) => *slot == Some(*connection),
                None => slot.is_none(),
            },
    {
        match slot {
            Some(connection) => Some(connection),
            None => None,
        }
    }

    /// Fills an empty slot from the outcome of a handshake: a snapshot makes
    /// the connection; a failure prints two lines to the main buffer and
    /// leaves the slot empty. A slot that holds a connection stays as it is.
    pub fn create(
        slot: &mut Option<MyConnection>,
        host: &mut Host,
        mutes: MuteSet,
        handshake: Result<Snapshot, ConnectError>,
    )
        requires
            old(host)@.wf(),
            *old(slot) matches Some(connection) ==> connection.wf(old(host)@),
        ensures
            *old(slot) is Some ==> *final(slot) == *old(slot) && final(host)@ == old(host)@,
            *old(slot) is None ==> match handshake {
                Ok(ready) => *final(slot) matches Some(connection) && connection.state.user
                    == ready.user && connection.state.servers == ready.servers
                    && connection.state.private_channels == ready.private_channels
                    && connection@.mutes == settings_taken(
                    mutes@,
                    overrides_of(ready.user_server_settings),
                    overrides_of(ready.user_server_settings).len() as int,
                ) && connection@.shown(final(host)@) == servers_opened(
                    Shown { binder: BinderView { bound: Seq::empty() }, host: old(host)@ },
                    connection@.mutes,
                    connection@.state.user,
                    connection@.state.servers,
                    connection@.state.servers.len() as int,
                ),
                Err(failure) => *final(slot) is None && final(host)@ == old(host)@.after(
                    ActionView::PrintMain { text: "Error connecting:"@ },
                ).after(ActionView::PrintMain { text: failure.description() }),
            },
            final(host)@.wf(),
            *final(slot) matches Some(connection) ==> connection.wf(final(host)@),
    {
        if slot.is_some() {
            return ;
        }
        match handshake {
            Ok(ready) => {
                let connection = MyConnection::new(host, mutes, ready);
                *slot = Some(connection);
            },
            Err(failure) => {
                host.print_main("Error connecting:");
                let line = failure.describe();
                host.print_main(line.as_str());
                proof {
                    old(host)@.lemma_after_wf(
                        ActionView::PrintMain { text: "Error connecting:"@ },
                    );
                    old(host)@.after(
                        ActionView::PrintMain { text: "Error connecting:"@ },
                    ).lemma_after_wf(ActionView::PrintMain { text: line@ });
                }
            },
        }
    }

    /// Empties the slot. Emptying an empty slot does nothing.
    pub fn drop(slot: &mut Option<MyConnection>)
        ensures
            *final(slot) is None,
    {
        *slot = None;
    }
}

/// Takes a line that the user typed into a buffer. Without a connection, and
/// for a buffer that shows no channel, one line says so and nothing is to be
/// sent; else the message is to be sent to the buffer's channel.
pub fn buffer_input(
    connection: Option<&MyConnection>,
    host: &mut Host,
    buffer: BufferHandle,
    message: &str,
) -> (send: Option<Outgoing>)
    requires
        old(host)@.is_open(buffer),
    ensures
        match connection {
            None => send.is_none() && final(host)@ == old(host)@.after(
                ActionView::Print {
                    handle: buffer,
                    date: None,
                    tag: None,
                    text: "Discord is not connected"@,
                },
            ),
            Some(connection) => final(host)@ == connection@.input_host(old(host)@, buffer)
                && match resolve(old(host)@, connection@.state, buffer) {
                Some(channel) => send matches Some(outgoing) && outgoing.channel_id
                    == channel.channel.id && outgoing.content@ == message@,
                None => send.is_none(),
            },
        },
{
    let connection = match connection {
        Some(connection) => connection,
        None => {
            host.print(buffer, None, None, "Discord is not connected");
            return None;
        },
    };
    match ChannelData::from_buffer(&connection.state, host, buffer) {
        Ok(data) => Some(
            Outgoing { channel_id: data.channel.channel.id, content: String::from_str(message) },
        ),
        Err(_) => {
            host.print(buffer, None, None, "Associated channel not found!?");
            None
        },
    }
}

/// Tells the user, in the buffer, why sending a message failed.
pub fn send_failed(host: &mut Host, buffer: BufferHandle, reason: &str)
    requires
        old(host)@.is_open(buffer),
    ensures
        final(host)@ == old(host)@.after(
            ActionView::Print { handle: buffer, date: None, tag: None, text: reason@ },
        ),
{
    host.print(buffer, None, None, reason);
}

/// The diagnostic dump of the connection in the slot, if one is there.
pub fn debug_command(slot: &Option<MyConnection>, host: &mut Host, command: &str)
    ensures
        final(host)@ == match *slot {
            Some(connection) => if command@ == "replace"@ {
                old(host)@.after_all(
                    print_all(dump(connection.state@, connection.state@.servers.len() as int)),
                )
            } else {
                old(host)@
            },
            None => old(host)@,
        },
{
    if let Some(connection) = MyConnection::magic(slot) {
        connection.debug_command(host, command)
    }
}

/// A query on the connection in the slot, if one is there.
pub fn query_command(
    slot: &mut Option<MyConnection>,
    host: &mut Host,
    buffer: BufferHandle,
    user: &str,
) -> (create_for: Option<u64>)
    requires
        old(host)@.is_open(buffer),
        *old(slot) matches Some(connection) ==> connection.wf(old(host)@),
    ensures
        match *old(slot) {
            Some(before) => *final(slot) matches Some(after) && {
                let result = before@.queried(old(host)@, buffer, user@);
                &&& create_for == result.create_for
                &&& after@.shown(final(host)@) == result.shown
                &&& after@.state == before@.state
                &&& after@.mutes == before@.mutes
                &&& after.wf(final(host)@)
            },
            None => create_for.is_none() && *final(slot) is None && final(host)@ == old(host)@,
        },
{
    match slot {
        Some(connection) => connection.query_command(host, buffer, user),
        None => None,
    }
}

} // verus!
