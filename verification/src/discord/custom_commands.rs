//! The guild subscription command of the gateway.
//!
//! These are the plain values of the command. Turning one into the text that
//! goes over the wire is the work of the integration layer.

use std::collections::HashMap;
use vstd::prelude::*;

verus! {

/// A subscription to a guild with every option spelled out.
#[derive(Debug)]
pub struct GuildSubscriptionFull {
    pub guild_id: u64,
    pub typing: bool,
    pub activities: bool,
    pub threads: bool,
    pub channels: HashMap<u64, Vec<Vec<u8>>>,
}

/// A subscription to a guild that names only the channels.
#[derive(Debug)]
pub struct GuildSubscriptionMinimal {
    pub guild_id: u64,
    pub channels: HashMap<u64, Vec<Vec<u8>>>,
}

/// The data of the command, in one of its two forms.
#[derive(Debug)]
pub enum GuildSubscriptionInfo {
    Full(GuildSubscriptionFull),
    Minimal(GuildSubscriptionMinimal),
}

/// The command: its data and its opcode.
#[derive(Debug)]
pub struct GuildSubscription {
    pub d: GuildSubscriptionInfo,
    pub op: u8,
}

} // verus!
