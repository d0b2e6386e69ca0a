//! Binding channels to host buffers.
//!
//! A binding pairs a channel's identity with the host buffer that shows it.
//! The binder holds the bindings of a connection, at most one per channel,
//! each with the log of its buffer. A channel's buffer is named by the
//! channel's stable identifier, which is how a buffer that outlived an earlier
//! connection is found again.

use vstd::prelude::*;
use crate::host::{closes_nothing, sets_property, ActionView, BufferHandle, Host, HostView};
use crate::message_renderer::{MessageRender, RenderView};
use crate::mirror::{MirrorView, StateMirror};
use crate::model::{
    views, ChannelKind, ChannelRef, ChannelRefView, MemberEntity, MemberView, ServerEntity,
    ServerView, UserView,
};
use crate::mute::{is_muted, ChannelOverride, MuteSet};
use crate::names::{
    decimal, decimal_text, lemma_parse_decimal_of_decimal, lemma_stable_id_unique, parse_decimal,
    parse_decimal_text, stable_id, stable_id_text,
};
use crate::seqs::{first_index, lemma_first_index};

verus! {

/// A channel's identity paired with the buffer that shows it. `open` holds
/// for as long as the binder keeps the binding.
#[derive(Clone, Copy, PartialEq, Eq, Structural, Debug)]
pub struct BufferBinding {
    pub server_id: u64,
    pub channel_id: u64,
    pub buffer: BufferHandle,
    pub open: bool,
}

/// A binding with the log of its buffer.
pub struct BoundChannel {
    pub binding: BufferBinding,
    pub renderer: MessageRender,
}

/// What a bound channel is: its binding and its log.
pub struct BoundView {
    pub binding: BufferBinding,
    pub render: RenderView,
}

impl View for BoundChannel {
    type V = BoundView;

    open spec fn view(&self) -> BoundView {
        BoundView { binding: self.binding, render: self.renderer@ }
    }
}

/// The bindings of a connection.
pub struct Binder {
    pub bound: Vec<BoundChannel>,
}

/// The bindings in the order in which they were made.
pub struct BinderView {
    pub bound: Seq<BoundView>,
}

impl View for Binder {
    type V = BinderView;

    open spec fn view(&self) -> BinderView {
        BinderView { bound: views(self.bound@) }
    }
}

/// The user's settings for one server.
pub struct UserServerSettings {
    pub channel_overrides: Vec<ChannelOverride>,
}

/// Setting a property of a buffer.
pub open spec fn set_action(handle: BufferHandle, key: Seq<char>, value: Seq<char>) -> ActionView {
    ActionView::SetProperty { handle, key, value }
}

/// Setting the short name and the title of a channel's buffer.
pub open spec fn name_actions(handle: BufferHandle, channel: ChannelRefView) -> Seq<ActionView> {
    seq![
        set_action(handle, "short_name"@, channel.display_name()),
        set_action(handle, "title"@, channel.title()),
    ]
}

/// Setting the buffer's own nick to the current user's name, where the
/// mirror knows the current user.
pub open spec fn self_nick_actions(handle: BufferHandle, user: Option<UserView>) -> Seq<
    ActionView,
> {
    match user {
        Some(user) => seq![set_action(handle, "localvar_nick"@, user.name)],
        None => Seq::empty(),
    }
}

/// Adding each member, under its display name, to the buffer's nick list.
pub open spec fn nick_actions(handle: BufferHandle, members: Seq<MemberView>) -> Seq<ActionView> {
    Seq::new(
        members.len(),
        |i: int| ActionView::AddNick { handle, nick: members[i].display_name() },
    )
}

/// What tells a buffer of a server's channel from one of a private channel.
pub open spec fn kind_actions(handle: BufferHandle, channel: ChannelRefView) -> Seq<ActionView> {
    match channel.server {
        Some(server) => seq![
            set_action(handle, "localvar_type"@, "channel"@),
            set_action(handle, "nicklist"@, "1"@),
        ] + nick_actions(handle, server.members),
        None => seq![set_action(handle, "localvar_type"@, "private"@)],
    }
}

/// The initialization of a new channel buffer: its type, the channel's id,
/// the kind with the nick list of a server's channel, the names, the own nick.
pub open spec fn init_actions(
    handle: BufferHandle,
    channel: ChannelRefView,
    user: Option<UserView>,
) -> Seq<ActionView> {
    seq![
        set_action(handle, "type"@, "formatted"@),
        set_action(handle, "localvar_channelid"@, decimal(channel.channel.id as nat)),
    ] + kind_actions(handle, channel) + name_actions(handle, channel) + self_nick_actions(
        handle,
        user,
    )
}

/// A channel is blocked if it is a voice channel or is muted.
pub open spec fn is_blocked(mutes: Map<u64, bool>, channel: ChannelRefView) -> bool {
    channel.channel.kind == ChannelKind::Voice || is_muted(mutes, channel.channel.id)
}

/// The channel that a buffer shows, found through the channel id that the
/// buffer's initialization left in it.
pub open spec fn resolve(host: HostView, mirror: MirrorView, buffer: BufferHandle) -> Option<
    ChannelRefView,
> {
    if !host.is_open(buffer) || !host.buffer(buffer).props.contains_key("localvar_channelid"@) {
        None
    } else {
        match parse_decimal(host.buffer(buffer).props["localvar_channelid"@]) {
            Some(id) => mirror.find_channel(id),
            None => None,
        }
    }
}

/// Making sure that a server has its buffer, named by the server's id, and
/// setting the buffer's short name.
pub open spec fn server_actions(host: HostView, server: ServerView) -> Seq<ActionView> {
    let name = decimal(server.id as nat);
    if host.name_free(name) {
        seq![
            ActionView::Create { handle: host.fresh(), name },
            set_action(host.fresh(), "short_name"@, server.name),
        ]
    } else {
        seq![set_action(host.named(name), "short_name"@, server.name)]
    }
}

/// What binding a channel gives: the buffer, if the channel is bound, and
/// the binder and the host after it.
pub struct BindResult {
    pub buffer: Option<BufferHandle>,
    pub binder: BinderView,
    pub host: HostView,
}

impl BinderView {
    /// The position of the binding of this channel, or the number of bindings.
    pub open spec fn position(self, server_id: u64, channel_id: u64) -> int {
        first_index(
            self.bound,
            |bound: BoundView|
                bound.binding.server_id == server_id && bound.binding.channel_id == channel_id,
        )
    }

    /// The position of the binding of this buffer, or the number of bindings.
    pub open spec fn position_of_buffer(self, buffer: BufferHandle) -> int {
        first_index(self.bound, |bound: BoundView| bound.binding.buffer == buffer)
    }

    /// The binder with one more binding, whose log is empty.
    pub open spec fn with(
        self,
        server_id: u64,
        channel_id: u64,
        buffer: BufferHandle,
    ) -> BinderView {
        BinderView {
            bound: self.bound.push(
                BoundView {
                    binding: BufferBinding { server_id, channel_id, buffer, open: true },
                    render: RenderView { handle: buffer, log: Seq::empty() },
                },
            ),
        }
    }

    /// Every binding is open, its buffer is open in the host under the
    /// channel's stable identifier and is the buffer of its log, and no two
    /// bindings are of one channel.
    pub open spec fn wf(self, host: HostView) -> bool {
        &&& forall|i: int|
            0 <= i < self.bound.len() ==> {
                let binding = (#[trigger] self.bound[i]).binding;
                &&& binding.open
                &&& self.bound[i].render.handle == binding.buffer
                &&& host.has_name(binding.buffer, stable_id(binding.server_id, binding.channel_id))
            }
        &&& forall|i: int, j: int|
            0 <= i < j < self.bound.len() ==> !((#[trigger] self.bound[i]).binding.server_id == (
            #[trigger] self.bound[j]).binding.server_id && self.bound[i].binding.channel_id
                == self.bound[j].binding.channel_id)
    }

    /// Binding a channel. A voice channel is never bound. A channel that has
    /// a binding keeps it, and nothing changes. Otherwise a muted channel is
    /// not bound; a channel whose buffer exists is bound to it as it stands;
    /// and a channel without a buffer gets one, created and initialized, if
    /// `auto_open` asks for it, and is not bound if it does not.
    pub open spec fn bind(
        self,
        host: HostView,
        mutes: Map<u64, bool>,
        user: Option<UserView>,
        channel: ChannelRefView,
        auto_open: bool,
    ) -> BindResult {
        let server_id = channel.server_id();
        let channel_id = channel.channel.id;
        let name = stable_id(server_id, channel_id);
        let at = self.position(server_id, channel_id);
        let refused = BindResult { buffer: None, binder: self, host };
        if channel.channel.kind == ChannelKind::Voice {
            refused
        } else if at < self.bound.len() {
            BindResult { buffer: Some(self.bound[at].binding.buffer), binder: self, host }
        } else if is_muted(mutes, channel_id) {
            refused
        } else if !host.name_free(name) {
            BindResult {
                buffer: Some(host.named(name)),
                binder: self.with(server_id, channel_id, host.named(name)),
                host,
            }
        } else if !auto_open {
            refused
        } else {
            BindResult {
                buffer: Some(host.fresh()),
                binder: self.with(server_id, channel_id, host.fresh()),
                host: host.after_all(
                    seq![ActionView::Create { handle: host.fresh(), name }] + init_actions(
                        host.fresh(),
                        channel,
                        user,
                    ),
                ),
            }
        }
    }

    /// Binding is idempotent: binding the same channel again gives the same
    /// buffer and changes neither the binder nor the host, so that a buffer
    /// is initialized once and its nick list is never filled twice.
    pub proof fn lemma_bind_idempotent(
        self,
        host: HostView,
        mutes: Map<u64, bool>,
        user: Option<UserView>,
        channel: ChannelRefView,
        auto_open: bool,
    )
        ensures
            ({
                let once = self.bind(host, mutes, user, channel, auto_open);
                once.binder.bind(once.host, mutes, user, channel, auto_open) == once
            }),
    {
        let once = self.bind(host, mutes, user, channel, auto_open);
        let server_id = channel.server_id();
        let channel_id = channel.channel.id;
        let at = self.position(server_id, channel_id);
        if once.binder != self {
            crate::seqs::lemma_first_index_found(
                self.bound,
                |bound: BoundView|
                    bound.binding.server_id == server_id && bound.binding.channel_id == channel_id,
            );
            lemma_first_index(
                once.binder.bound,
                |bound: BoundView|
                    bound.binding.server_id == server_id && bound.binding.channel_id == channel_id,
                self.bound.len() as int,
            );
        }
    }

    /// A voice channel is never bound, whatever `auto_open` says.
    pub proof fn lemma_voice_never_bound(
        self,
        host: HostView,
        mutes: Map<u64, bool>,
        user: Option<UserView>,
        channel: ChannelRefView,
        auto_open: bool,
    )
        requires
            channel.channel.kind == ChannelKind::Voice,
        ensures
            self.bind(host, mutes, user, channel, auto_open) == (BindResult {
                buffer: None,
                binder: self,
                host,
            }),
    {
    }

    /// A muted channel without a binding gets none, and nothing is printed or
    /// created for it.
    pub proof fn lemma_muted_never_bound(
        self,
        host: HostView,
        mutes: Map<u64, bool>,
        user: Option<UserView>,
        channel: ChannelRefView,
        auto_open: bool,
    )
        requires
            is_muted(mutes, channel.channel.id),
            self.position(channel.server_id(), channel.channel.id) >= self.bound.len(),
        ensures
            self.bind(host, mutes, user, channel, auto_open) == (BindResult {
                buffer: None,
                binder: self,
                host,
            }),
    {
    }

    /// The binder without the binding of this buffer.
    pub open spec fn without_buffer(self, buffer: BufferHandle) -> BinderView {
        let at = self.position_of_buffer(buffer);
        if at < self.bound.len() {
            BinderView { bound: self.bound.remove(at) }
        } else {
            self
        }
    }

    /// No two bindings share a buffer.
    pub proof fn lemma_buffers_distinct(self, host: HostView, i: int, j: int)
        requires
            self.wf(host),
            0 <= i < self.bound.len(),
            0 <= j < self.bound.len(),
            i != j,
        ensures
            self.bound[i].binding.buffer != self.bound[j].binding.buffer,
    {
        let a = self.bound[i].binding;
        let b = self.bound[j].binding;
        assert(host.has_name(a.buffer, stable_id(a.server_id, a.channel_id)));
        assert(host.has_name(b.buffer, stable_id(b.server_id, b.channel_id)));
        lemma_stable_id_unique(a.server_id, a.channel_id, b.server_id, b.channel_id);
    }

    /// When the host closes a buffer and its binding is dropped, the bindings
    /// that stay are well-formed.
    pub proof fn lemma_wf_after_close(self, host: HostView, buffer: BufferHandle)
        requires
            self.wf(host),
        ensures
            self.without_buffer(buffer).wf(host.after(ActionView::Close { handle: buffer })),
    {
        let at = self.position_of_buffer(buffer);
        let next = self.without_buffer(buffer);
        let closed = host.after(ActionView::Close { handle: buffer });
        crate::seqs::lemma_first_index_found(
            self.bound,
            |bound: BoundView| bound.binding.buffer == buffer,
        );
        assert forall|i: int| 0 <= i < next.bound.len() implies {
            let binding = (#[trigger] next.bound[i]).binding;
            &&& binding.open
            &&& next.bound[i].render.handle == binding.buffer
            &&& closed.has_name(binding.buffer, stable_id(binding.server_id, binding.channel_id))
        } by {
            let from = if at < self.bound.len() && i >= at {
                i + 1
            } else {
                i
            };
            assert(next.bound[i] == self.bound[from]);
            let binding = self.bound[from].binding;
            assert(host.has_name(
                binding.buffer,
                stable_id(binding.server_id, binding.channel_id),
            ));
            if at < self.bound.len() {
                self.lemma_buffers_distinct(host, from, at);
            }
        }
        assert forall|i: int, j: int| 0 <= i < j < next.bound.len() implies !((
        #[trigger] next.bound[i]).binding.server_id == (#[trigger] next.bound[j]).binding.server_id
            && next.bound[i].binding.channel_id == next.bound[j].binding.channel_id) by {
            let from_i = if at < self.bound.len() && i >= at {
                i + 1
            } else {
                i
            };
            let from_j = if at < self.bound.len() && j >= at {
                j + 1
            } else {
                j
            };
            assert(next.bound[i] == self.bound[from_i]);
            assert(next.bound[j] == self.bound[from_j]);
        }
    }

    /// Actions that close nothing leave the bindings well-formed.
    pub proof fn lemma_wf_kept(self, host: HostView, actions: Seq<ActionView>)
        requires
            self.wf(host),
            closes_nothing(actions),
        ensures
            self.wf(host.after_all(actions)),
    {
        host.lemma_after_all_keeps(actions);
        let next = host.after_all(actions);
        assert forall|i: int| 0 <= i < self.bound.len() implies {
            let binding = (#[trigger] self.bound[i]).binding;
            next.has_name(binding.buffer, stable_id(binding.server_id, binding.channel_id))
        } by {
            let binding = self.bound[i].binding;
            assert(host.has_name(
                binding.buffer,
                stable_id(binding.server_id, binding.channel_id),
            ));
        }
    }
}

/// The initialization of a buffer closes nothing.
pub proof fn lemma_init_closes_nothing(
    handle: BufferHandle,
    channel: ChannelRefView,
    user: Option<UserView>,
)
    ensures
        closes_nothing(init_actions(handle, channel, user)),
        closes_nothing(name_actions(handle, channel)),
        closes_nothing(self_nick_actions(handle, user)),
        closes_nothing(kind_actions(handle, channel)),
{
}

/// The buffer that binding initialized leads back to the channel: looking
/// the buffer up finds what the mirror holds under the channel's id.
pub proof fn lemma_initialized_buffer_resolves(
    host: HostView,
    mirror: MirrorView,
    handle: BufferHandle,
    channel: ChannelRefView,
    user: Option<UserView>,
)
    requires
        host.is_open(handle),
    ensures
        resolve(host.after_all(init_actions(handle, channel, user)), mirror, handle)
            == mirror.find_channel(channel.channel.id),
{
    reveal_strlit("localvar_channelid");
    reveal_strlit("localvar_type");
    reveal_strlit("localvar_nick");
    reveal_strlit("nicklist");
    reveal_strlit("short_name");
    reveal_strlit("title");
    let actions = init_actions(handle, channel, user);
    let key = "localvar_channelid"@;
    assert(key.len() == 18);
    assert("localvar_type"@.len() == 13);
    assert("localvar_nick"@.len() == 13);
    assert("nicklist"@.len() == 8);
    assert("short_name"@.len() == 10);
    assert("title"@.len() == 5);
    let value = decimal(channel.channel.id as nat);
    lemma_init_closes_nothing(handle, channel, user);
    let kind = kind_actions(handle, channel);
    let names = name_actions(handle, channel);
    let own = self_nick_actions(handle, user);
    assert forall|i: int| 1 < i < actions.len() implies !sets_property(
        #[trigger] actions[i],
        handle,
        key,
    ) by {
        if i < 2 + kind.len() {
            let k = i - 2;
            assert(actions[i] == kind[k]);
            match channel.server {
                Some(server) => {
                    let head = seq![
                        set_action(handle, "localvar_type"@, "channel"@),
                        set_action(handle, "nicklist"@, "1"@),
                    ];
                    if k < 2 {
                        assert(kind[k] == head[k]);
                    } else {
                        assert(kind[k] == nick_actions(handle, server.members)[k - 2]);
                    }
                },
                None => {
                    assert(kind[k] == set_action(handle, "localvar_type"@, "private"@));
                },
            }
        } else if i < 2 + kind.len() + names.len() {
            let k = i - 2 - kind.len();
            assert(actions[i] == names[k]);
            assert(names[k] == set_action(handle, "short_name"@, channel.display_name())
                || names[k] == set_action(handle, "title"@, channel.title()));
        } else {
            let k = i - 2 - kind.len() - names.len();
            assert(actions[i] == own[k]);
            assert(own[k] == set_action(handle, "localvar_nick"@, user->0.name));
        }
    }
    assert(actions[1] == set_action(handle, key, value));
    host.lemma_last_set_wins(actions, 1, handle, key, value);
    lemma_parse_decimal_of_decimal(channel.channel.id);
}

/// A channel that is bound to a buffer, with the mirror that it was found in.
pub struct ChannelData<'a> {
    pub state: &'a StateMirror,
    pub channel: ChannelRef<'a>,
    pub buffer: BufferHandle,
}

impl Binder {
    /// A binder without bindings.
    pub fn new() -> (binder: Binder)
        ensures
            binder@.bound.len() == 0,
    {
        Binder { bound: Vec::new() }
    }

    /// The position of the binding of this channel, or the number of bindings.
    pub fn find(&self, server_id: u64, channel_id: u64) -> (at: usize)
        ensures
            at == self@.position(server_id, channel_id),
            at <= self.bound@.len(),
    {
        let mut i: usize = 0;
        while i < self.bound.len() && !(self.bound[i].binding.server_id == server_id
            && self.bound[i].binding.channel_id == channel_id)
            invariant
                i <= self.bound@.len(),
                forall|j: int|
                    0 <= j < i ==> !((#[trigger] self@.bound[j]).binding.server_id == server_id
                        && self@.bound[j].binding.channel_id == channel_id),
            decreases self.bound@.len() - i,
        {
            i = i + 1;
        }
        proof {
            lemma_first_index(
                self@.bound,
                |bound: BoundView|
                    bound.binding.server_id == server_id && bound.binding.channel_id == channel_id,
                i as int,
            );
        }
        i
    }
}

impl Binder {
    /// Whether the bindings are well-formed in the host, as they are in
    /// every binder that was changed through these operations only, on a host
    /// whose bound buffers were closed through `buffer_closed` only.
    pub fn check(&self, host: &Host) -> (ok: bool)
        ensures
            ok == self@.wf(host@),
    {
        let mut j: usize = 0;
        while j < self.bound.len()
            invariant
                j <= self.bound@.len(),
                forall|a: int|
                    0 <= a < j ==> {
                        let binding = (#[trigger] self@.bound[a]).binding;
                        &&& binding.open
                        &&& self@.bound[a].render.handle == binding.buffer
                        &&& host@.has_name(
                            binding.buffer,
                            stable_id(binding.server_id, binding.channel_id),
                        )
                    },
                forall|a: int, b: int|
                    0 <= a < b < j ==> !((#[trigger] self@.bound[a]).binding.server_id == (
                    #[trigger] self@.bound[b]).binding.server_id
                        && self@.bound[a].binding.channel_id == self@.bound[b].binding.channel_id),
            decreases self.bound@.len() - j,
        {
            let binding = self.bound[j].binding;
            proof {
                assert(self@.bound[j as int].binding == binding);
                assert(self@.bound[j as int].render.handle
                    == self.bound@[j as int].renderer.buffer_handle);
            }
            if !binding.open || self.bound[j].renderer.buffer_handle.index != binding.buffer.index
                || !host.is_open(binding.buffer) {
                return false;
            }
            let name = stable_id_text(binding.server_id, binding.channel_id);
            if !(host.buffers[binding.buffer.index].name == name) {
                proof {
                    assert(host@.buffer(binding.buffer).name
                        == host.buffers@[binding.buffer.index as int].name@);
                }
                return false;
            }
            proof {
                assert(host@.buffer(binding.buffer).name
                    == host.buffers@[binding.buffer.index as int].name@);
            }
            let mut i: usize = 0;
            while i < j
                invariant
                    i <= j < self.bound@.len(),
                    binding == self@.bound[j as int].binding,
                    forall|a: int|
                        0 <= a < i ==> !((#[trigger] self@.bound[a]).binding.server_id
                            == binding.server_id && self@.bound[a].binding.channel_id
                            == binding.channel_id),
                decreases j - i,
            {
                let other = self.bound[i].binding;
                proof {
                    assert(self@.bound[i as int].binding == other);
                }
                if other.server_id == binding.server_id && other.channel_id == binding.channel_id {
                    return false;
                }
                i = i + 1;
            }
            j = j + 1;
        }
        true
    }

    /// Takes note that the host closes a buffer: the buffer is closed in the
    /// model, if it was open, and its binding, if it had one, is destroyed and
    /// handed back as closed.
    pub fn buffer_closed(&mut self, host: &mut Host, buffer: BufferHandle) -> (destroyed: Option<
        BufferBinding,
    >)
        requires
            old(host)@.wf(),
            old(self)@.wf(old(host)@),
        ensures
            final(self)@ == old(self)@.without_buffer(buffer),
            final(host)@ == if old(host)@.is_open(buffer) {
                old(host)@.after(ActionView::Close { handle: buffer })
            } else {
                old(host)@
            },
            ({
                let at = old(self)@.position_of_buffer(buffer);
                if at < old(self)@.bound.len() {
                    destroyed == Some(
                        BufferBinding { open: false, ..old(self)@.bound[at].binding },
                    )
                } else {
                    destroyed.is_none()
                }
            }),
            final(host)@.wf(),
            final(self)@.wf(final(host)@),
    {
        let mut i: usize = 0;
        while i < self.bound.len() && !(self.bound[i].binding.buffer.index == buffer.index)
            invariant
                i <= self.bound@.len(),
                forall|j: int| 0 <= j < i ==> (#[trigger] self@.bound[j]).binding.buffer != buffer,
            decreases self.bound@.len() - i,
        {
            i = i + 1;
        }
        proof {
            if i < self.bound@.len() {
                assert(self@.bound[i as int].binding == self.bound@[i as int].binding);
            }
            lemma_first_index(
                self@.bound,
                |bound: BoundView| bound.binding.buffer == buffer,
                i as int,
            );
            old(self)@.lemma_wf_after_close(old(host)@, buffer);
            old(host)@.lemma_after_wf(ActionView::Close { handle: buffer });
        }
        let destroyed = if i < self.bound.len() {
            let held = self.bound.remove(i);
            proof {
                assert(final(self)@.bound =~= old(self)@.without_buffer(buffer).bound);
            }
            Some(
                BufferBinding {
                    server_id: held.binding.server_id,
                    channel_id: held.binding.channel_id,
                    buffer: held.binding.buffer,
                    open: false,
                },
            )
        } else {
            None
        };
        if host.is_open(buffer) {
            host.close(buffer);
        } else {
            proof {
                let closed = old(host)@.after(ActionView::Close { handle: buffer });
                assert(closed.buffers =~= old(host)@.buffers);
                assert(final(self)@.wf(old(host)@)) by {
                    assert forall|k: int| 0 <= k < final(self)@.bound.len() implies {
                        let binding = (#[trigger] final(self)@.bound[k]).binding;
                        old(host)@.has_name(
                            binding.buffer,
                            stable_id(binding.server_id, binding.channel_id),
                        )
                    } by {
                        let binding = final(self)@.bound[k].binding;
                        assert(closed.has_name(
                            binding.buffer,
                            stable_id(binding.server_id, binding.channel_id),
                        ));
                    }
                }
            }
        }
        destroyed
    }
}

impl<'a> ChannelData<'a> {
    /// The binding that this is.
    pub fn binding(&self) -> (binding: BufferBinding)
        ensures
            binding == (BufferBinding {
                server_id: self.channel@.server_id(),
                channel_id: self.channel@.channel.id,
                buffer: self.buffer,
                open: true,
            }),
    {
        BufferBinding {
            server_id: self.channel.server_id(),
            channel_id: self.channel.channel.id,
            buffer: self.buffer,
            open: true,
        }
    }

    /// Sets the buffer's short name to the channel's display name, and its
    /// title to "server - channel" for a server's channel, to the display
    /// name otherwise.
    pub fn sync_name(&self, host: &mut Host)
        requires
            old(host)@.is_open(self.buffer),
        ensures
            final(host)@ == old(host)@.after_all(name_actions(self.buffer, self.channel@)),
    {
        let name = self.channel.display_name();
        host.set_property(self.buffer, "short_name", name.as_str());
        let title = self.channel.title();
        host.set_property(self.buffer, "title", title.as_str());
        proof {
            let actions = name_actions(self.buffer, self.channel@);
            old(host)@.lemma_after_one(actions[0]);
            old(host)@.lemma_after_push(seq![actions[0]], actions[1]);
            assert(seq![actions[0]].push(actions[1]) =~= actions);
        }
    }

    /// Sets the buffer's own nick to the current user's name.
    pub fn sync_self_nick(&self, host: &mut Host)
        requires
            old(host)@.is_open(self.buffer),
        ensures
            final(host)@ == old(host)@.after_all(self_nick_actions(self.buffer, self.state@.user)),
    {
        match &self.state.user {
            Some(user) => {
                host.set_property(self.buffer, "localvar_nick", user.name.as_str());
                proof {
                    old(host)@.lemma_after_one(
                        set_action(self.buffer, "localvar_nick"@, user@.name),
                    );
                }
            },
            None => {},
        }
    }

    /// Adds every member of the server to the buffer's nick list.
    fn add_members(&self, host: &mut Host, members: &Vec<MemberEntity>)
        requires
            old(host)@.is_open(self.buffer),
        ensures
            final(host)@ == old(host)@.after_all(nick_actions(self.buffer, views(members@))),
    {
        let ghost all = nick_actions(self.buffer, views(members@));
        let mut i: usize = 0;
        proof {
            assert(all.take(0) =~= Seq::<ActionView>::empty());
        }
        while i < members.len()
            invariant
                i <= members@.len(),
                all == nick_actions(self.buffer, views(members@)),
                host@.is_open(self.buffer),
                host@ == old(host)@.after_all(all.take(i as int)),
            decreases members@.len() - i,
        {
            host.add_nick(self.buffer, members[i].display_name());
            proof {
                old(host)@.lemma_after_push(all.take(i as int), all[i as int]);
                assert(all.take(i as int).push(all[i as int]) =~= all.take(i + 1));
            }
            i = i + 1;
        }
        proof {
            assert(all.take(i as int) =~= all);
        }
    }

    /// Initializes a new buffer for the channel.
    pub fn sync_init(&self, host: &mut Host)
        requires
            old(host)@.is_open(self.buffer),
        ensures
            final(host)@ == old(host)@.after_all(
                init_actions(self.buffer, self.channel@, self.state@.user),
            ),
    {
        let ghost start = old(host)@;
        let handle = self.buffer;
        host.set_property(handle, "type", "formatted");
        let id = decimal_text(self.channel.channel.id);
        host.set_property(handle, "localvar_channelid", id.as_str());
        let ghost head = seq![
            set_action(handle, "type"@, "formatted"@),
            set_action(handle, "localvar_channelid"@, decimal(self.channel@.channel.id as nat)),
        ];
        proof {
            start.lemma_after_one(head[0]);
            start.lemma_after_push(seq![head[0]], head[1]);
            assert(seq![head[0]].push(head[1]) =~= head);
        }
        let ghost kind = kind_actions(handle, self.channel@);
        match self.channel.server {
            Some(server) => {
                let ghost here = host@;
                host.set_property(handle, "localvar_type", "channel");
                host.set_property(handle, "nicklist", "1");
                let ghost both = seq![
                    set_action(handle, "localvar_type"@, "channel"@),
                    set_action(handle, "nicklist"@, "1"@),
                ];
                proof {
                    here.lemma_after_one(both[0]);
                    here.lemma_after_push(seq![both[0]], both[1]);
                    assert(seq![both[0]].push(both[1]) =~= both);
                }
                self.add_members(host, &server.members);
                proof {
                    here.lemma_after_both(both, nick_actions(handle, server@.members));
                }
            },
            None => {
                let ghost here = host@;
                host.set_property(handle, "localvar_type", "private");
                proof {
                    here.lemma_after_one(set_action(handle, "localvar_type"@, "private"@));
                }
            },
        }
        proof {
            start.lemma_after_both(head, kind);
            lemma_init_closes_nothing(handle, self.channel@, self.state@.user);
            start.after_all(head).lemma_after_all_keeps(kind);
            let headed = start.after_all(head);
            assert(headed.has_name(handle, headed.buffer(handle).name));
        }
        self.sync_name(host);
        proof {
            start.lemma_after_both(head + kind, name_actions(handle, self.channel@));
            let kinded = start.after_all(head + kind);
            kinded.lemma_after_all_keeps(name_actions(handle, self.channel@));
            assert(kinded.has_name(handle, kinded.buffer(handle).name));
        }
        self.sync_self_nick(host);
        proof {
            start.lemma_after_both(
                head + kind + name_actions(handle, self.channel@),
                self_nick_actions(handle, self.state@.user),
            );
        }
    }

    /// Adds the member, under its display name, to the buffer's nick list.
    pub fn add_member(&self, host: &mut Host, member: &MemberEntity)
        requires
            old(host)@.is_open(self.buffer),
        ensures
            final(host)@ == old(host)@.after(
                ActionView::AddNick { handle: self.buffer, nick: member@.display_name() },
            ),
    {
        host.add_nick(self.buffer, member.display_name());
    }

    /// Removes the member's display name from the buffer's nick list.
    pub fn remove_member(&self, host: &mut Host, member: &MemberEntity)
        requires
            old(host)@.is_open(self.buffer),
        ensures
            final(host)@ == old(host)@.after(
                ActionView::RemoveNick { handle: self.buffer, nick: member@.display_name() },
            ),
    {
        host.remove_nick(self.buffer, member.display_name());
    }

    /// Finds the channel that a buffer shows. The buffer comes back as the
    /// error where it is not open, holds no channel id, or holds one that the
    /// mirror no longer knows: it is then not the buffer of a bound channel.
    pub fn from_buffer(state: &'a StateMirror, host: &Host, buffer: BufferHandle) -> (found: Result<
        ChannelData<'a>,
        BufferHandle,
    >)
        ensures
            match found {
                Ok(data) => resolve(host@, state@, buffer) == Some(data.channel@) && data.buffer
                    == buffer && data.state == state,
                Err(given) => resolve(host@, state@, buffer).is_none() && given == buffer,
            },
    {
        if !host.is_open(buffer) {
            return Err(buffer);
        }
        let text = match host.get_property(buffer, "localvar_channelid") {
            Some(text) => text,
            None => {
                return Err(buffer);
            },
        };
        let id = match parse_decimal_text(text.as_str()) {
            Some(id) => id,
            None => {
                return Err(buffer);
            },
        };
        match state.find_channel(id) {
            Some(channel) => Ok(ChannelData { state, channel, buffer }),
            None => Err(buffer),
        }
    }

    /// Takes the user's settings for a server into the mute settings.
    /// Returns the channels newly muted.
    pub fn mute_channels(mutes: &mut MuteSet, settings: &UserServerSettings) -> (muted: Vec<u64>)
        ensures
            final(mutes)@ == crate::mute::with_overrides(
                old(mutes)@,
                settings.channel_overrides@,
            ),
            muted@ == crate::mute::newly_muted(old(mutes)@, settings.channel_overrides@),
    {
        mutes.mute_channels(&settings.channel_overrides)
    }

    /// Whether the channel is blocked: a voice channel, or a muted one.
    pub fn is_channel_blocked(mutes: &MuteSet, channel: ChannelRef<'a>) -> (blocked: bool)
        ensures
            blocked == is_blocked(mutes@, channel@),
    {
        match channel.channel.kind {
            ChannelKind::Voice => true,
            _ => mutes.is_muted(channel.channel.id),
        }
    }

    /// Binds the channel to its buffer. A voice channel is never bound; a
    /// channel that is bound already keeps its binding, and nothing changes;
    /// a muted channel is not bound; a channel whose buffer exists is bound
    /// to it as it stands; any other channel gets a new buffer, initialized
    /// once, if `auto_open` asks for it.
    pub fn from_channel(
        binder: &mut Binder,
        host: &mut Host,
        mutes: &MuteSet,
        state: &'a StateMirror,
        channel: ChannelRef<'a>,
        auto_open: bool,
    ) -> (bound: Option<ChannelData<'a>>)
        requires
            old(host)@.wf(),
            old(binder)@.wf(old(host)@),
        ensures
            ({
                let result = old(binder)@.bind(
                    old(host)@,
                    mutes@,
                    state@.user,
                    channel@,
                    auto_open,
                );
                &&& final(binder)@ == result.binder
                &&& final(host)@ == result.host
                &&& match bound {
                    Some(data) => result.buffer == Some(data.buffer) && data.channel == channel
                        && data.state == state,
                    None => result.buffer.is_none(),
                }
            }),
            final(host)@.wf(),
            final(binder)@.wf(final(host)@),
            bound matches Some(data) ==> final(host)@.is_open(data.buffer),
    {
        let server_id = channel.server_id();
        let channel_id = channel.channel.id;
        match channel.channel.kind {
            ChannelKind::Voice => {
                return None;
            },
            _ => {},
        }
        let at = binder.find(server_id, channel_id);
        if at < binder.bound.len() {
            proof {
                assert(binder@.bound[at as int].binding == binder.bound@[at as int].binding);
            }
            return Some(ChannelData { state, channel, buffer: binder.bound[at].binding.buffer });
        }
        if mutes.is_muted(channel_id) {
            return None;
        }
        let name = stable_id_text(server_id, channel_id);
        let ghost create = ActionView::Create { handle: old(host)@.fresh(), name: name@ };
        let ghost init = init_actions(old(host)@.fresh(), channel@, state@.user);
        let buffer = match host.search(name.as_str()) {
            Some(found) => {
                proof {
                    host@.lemma_named(found, name@);
                }
                found
            },
            None => {
                if !auto_open {
                    return None;
                }
                match host.create(name.as_str()) {
                    Some(created) => {
                        let data = ChannelData { state, channel, buffer: created };
                        data.sync_init(host);
                        proof {
                            old(host)@.lemma_after_one(create);
                            old(host)@.lemma_after_both(seq![create], init);
                            lemma_init_closes_nothing(created, channel@, state@.user);
                            assert(closes_nothing(seq![create] + init));
                            old(binder)@.lemma_wf_kept(old(host)@, seq![create] + init);
                            old(host)@.lemma_after_all_keeps(seq![create] + init);
                            old(host)@.after(create).lemma_after_all_keeps(init);
                            assert(old(host)@.after(create).has_name(created, name@));
                        }
                        created
                    },
                    None => {
                        return None;
                    },
                }
            },
        };
        binder.bound.push(
            BoundChannel {
                binding: BufferBinding { server_id, channel_id, buffer, open: true },
                renderer: MessageRender::new(buffer),
            },
        );
        proof {
            let target = old(binder)@.with(server_id, channel_id, buffer);
            assert(final(binder)@.bound.last().render.log =~= Seq::<
                crate::message_renderer::EntryView,
            >::empty());
            assert(final(binder)@.bound =~= target.bound);
            crate::seqs::lemma_first_index_found(
                old(binder)@.bound,
                |bound: BoundView|
                    bound.binding.server_id == server_id && bound.binding.channel_id == channel_id,
            );
        }
        Some(ChannelData { state, channel, buffer })
    }

    /// Binds the channel that an event names: a channel without a server is
    /// opened on the spot, a server's channel only where its buffer exists.
    /// An id that the mirror does not know binds nothing.
    pub fn from_discord_event(
        binder: &mut Binder,
        host: &mut Host,
        mutes: &MuteSet,
        state: &'a StateMirror,
        channel_id: u64,
    ) -> (bound: Option<ChannelData<'a>>)
        requires
            old(host)@.wf(),
            old(binder)@.wf(old(host)@),
        ensures
            match state@.find_channel(channel_id) {
                Some(channel) => {
                    let result = old(binder)@.bind(
                        old(host)@,
                        mutes@,
                        state@.user,
                        channel,
                        channel.server is None,
                    );
                    &&& final(binder)@ == result.binder
                    &&& final(host)@ == result.host
                    &&& match bound {
                        Some(data) => result.buffer == Some(data.buffer) && data.channel@
                            == channel && data.state == state,
                        None => result.buffer.is_none(),
                    }
                },
                None => bound.is_none() && final(binder)@ == old(binder)@ && final(host)@ == old(
                    host,
                )@,
            },
            final(host)@.wf(),
            final(binder)@.wf(final(host)@),
            bound matches Some(data) ==> final(host)@.is_open(data.buffer),
    {
        match state.find_channel(channel_id) {
            Some(channel) => {
                let is_private = channel.server.is_none();
                Self::from_channel(binder, host, mutes, state, channel, is_private)
            },
            None => None,
        }
    }

    /// Makes sure that the server has its buffer, and sets its short name.
    pub fn create_server(host: &mut Host, server: &ServerEntity)
        requires
            old(host)@.wf(),
        ensures
            final(host)@ == old(host)@.after_all(server_actions(old(host)@, server@)),
            final(host)@.wf(),
    {
        let name = decimal_text(server.id);
        let ghost actions = server_actions(old(host)@, server@);
        let buffer = match host.search(name.as_str()) {
            Some(found) => {
                proof {
                    host@.lemma_named(found, name@);
                }
                found
            },
            None => match host.create(name.as_str()) {
                Some(created) => created,
                None => {
                    return ;
                },
            },
        };
        let ghost here = host@;
        host.set_property(buffer, "short_name", server.name.as_str());
        proof {
            let set = set_action(buffer, "short_name"@, server@.name);
            if old(host)@.name_free(name@) {
                old(host)@.lemma_after_one(actions[0]);
                old(host)@.lemma_after_push(seq![actions[0]], set);
                assert(seq![actions[0]].push(set) =~= actions);
            } else {
                old(host)@.lemma_after_one(set);
            }
            old(host)@.lemma_after_all_keeps(actions);
        }
    }
}

} // verus!
