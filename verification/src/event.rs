//! The remote events, already decoded.

use vstd::prelude::*;
use crate::message::{Message, MessageUpdate, MessageUpdateView, MessageView};
use crate::model::{
    ChannelEntity, ChannelView, MemberEntity, MemberView, ServerEntity, ServerView,
};

verus! {

/// One event of the remote service. A kind that this crate does not handle
/// arrives as `Unknown` and is ignored.
#[derive(Clone, Debug, PartialEq, Eq)]
pub enum Event {
    MessageCreate(Message),
    MessageUpdate(MessageUpdate),
    MessageDelete { channel_id: u64, message_id: u64 },
    ChannelCreate(ChannelEntity),
    ChannelUpdate(ChannelEntity),
    ChannelDelete { channel_id: u64 },
    ServerMemberAdd { server_id: u64, member: MemberEntity },
    ServerMemberRemove { server_id: u64, user_id: u64 },
    ServerCreate(ServerEntity),
    ServerDelete { server_id: u64 },
    Unknown,
}

/// An event over the views of what it carries.
pub enum EventView {
    MessageCreate(MessageView),
    MessageUpdate(MessageUpdateView),
    MessageDelete { channel_id: u64, message_id: u64 },
    ChannelCreate(ChannelView),
    ChannelUpdate(ChannelView),
    ChannelDelete { channel_id: u64 },
    ServerMemberAdd { server_id: u64, member: MemberView },
    ServerMemberRemove { server_id: u64, user_id: u64 },
    ServerCreate(ServerView),
    ServerDelete { server_id: u64 },
    Unknown,
}

impl View for Event {
    type V = EventView;

    open spec fn view(&self) -> EventView {
        match *self {
            Event::MessageCreate(message) => EventView::MessageCreate(message@),
            Event::MessageUpdate(update) => EventView::MessageUpdate(update@),
            Event::MessageDelete { channel_id, message_id } => EventView::MessageDelete {
                channel_id,
                message_id,
            },
            Event::ChannelCreate(channel) => EventView::ChannelCreate(channel@),
            Event::ChannelUpdate(channel) => EventView::ChannelUpdate(channel@),
            Event::ChannelDelete { channel_id } => EventView::ChannelDelete { channel_id },
            Event::ServerMemberAdd { server_id, member } => EventView::ServerMemberAdd {
                server_id,
                member: member@,
            },
            Event::ServerMemberRemove { server_id, user_id } => EventView::ServerMemberRemove {
                server_id,
                user_id,
            },
            Event::ServerCreate(server) => EventView::ServerCreate(server@),
            Event::ServerDelete { server_id } => EventView::ServerDelete { server_id },
            Event::Unknown => EventView::Unknown,
        }
    }
}

} // verus!
