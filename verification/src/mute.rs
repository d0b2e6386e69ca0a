//! The channels that the user has muted.
//!
//! Each channel has at most one setting, muted or not. Settings come from the
//! user's settings at connect time, which never replace a setting that is
//! already there, and from live overrides, which do.

use std::collections::HashMap;
use vstd::prelude::*;

verus! {

broadcast use vstd::std_specs::hash::group_hash_axioms;

/// What the user's settings say of one channel.
#[derive(Clone, Copy, PartialEq, Eq, Structural, Debug)]
pub struct ChannelOverride {
    pub channel_id: u64,
    pub muted: bool,
}

/// Whether the settings mark the channel as muted.
pub open spec fn is_muted(settings: Map<u64, bool>, channel_id: u64) -> bool {
    settings.contains_key(channel_id) && settings[channel_id]
}

/// The settings after the user's overrides were taken in order: a muted
/// channel without a setting becomes muted; a setting that is there stays.
pub open spec fn with_overrides(settings: Map<u64, bool>, overrides: Seq<ChannelOverride>) -> Map<
    u64,
    bool,
>
    decreases overrides.len(),
{
    if overrides.len() == 0 {
        settings
    } else {
        let before = with_overrides(settings, overrides.drop_last());
        let last = overrides.last();
        if last.muted && !before.contains_key(last.channel_id) {
            before.insert(last.channel_id, true)
        } else {
            before
        }
    }
}

/// The channels that the overrides newly mute, in order.
pub open spec fn newly_muted(settings: Map<u64, bool>, overrides: Seq<ChannelOverride>) -> Seq<u64>
    decreases overrides.len(),
{
    if overrides.len() == 0 {
        Seq::empty()
    } else {
        let before = with_overrides(settings, overrides.drop_last());
        let last = overrides.last();
        if last.muted && !before.contains_key(last.channel_id) {
            newly_muted(settings, overrides.drop_last()).push(last.channel_id)
        } else {
            newly_muted(settings, overrides.drop_last())
        }
    }
}

/// The mute settings, by channel id.
pub struct MuteSet {
    pub settings: HashMap<u64, bool>,
}

impl View for MuteSet {
    type V = Map<u64, bool>;

    open spec fn view(&self) -> Map<u64, bool> {
        self.settings@
    }
}

impl MuteSet {
    /// No channel has a setting.
    pub fn new() -> (mutes: MuteSet)
        ensures
            mutes@ == Map::<u64, bool>::empty(),
    {
        MuteSet { settings: HashMap::new() }
    }

    /// Whether the channel is muted.
    pub fn is_muted(&self, channel_id: u64) -> (muted: bool)
        ensures
            muted == is_muted(self@, channel_id),
    {
        match self.settings.get(&channel_id) {
            Some(muted) => *muted,
            None => false,
        }
    }

    /// A live override: mutes or unmutes the channel, whatever its setting
    /// was. Unmuting a channel that is not muted leaves it not muted.
    pub fn set_muted(&mut self, channel_id: u64, muted: bool)
        ensures
            final(self)@ == old(self)@.insert(channel_id, muted),
    {
        self.settings.insert(channel_id, muted);
    }

    /// Takes in the user's settings: each muted channel that has no setting
    /// yet becomes muted. Returns the channels newly muted, in order.
    pub fn mute_channels(&mut self, overrides: &Vec<ChannelOverride>) -> (muted: Vec<u64>)
        ensures
            final(self)@ == with_overrides(old(self)@, overrides@),
            muted@ == newly_muted(old(self)@, overrides@),
    {
        let mut muted: Vec<u64> = Vec::new();
        let mut i: usize = 0;
        while i < overrides.len()
            invariant
                i <= overrides@.len(),
                self@ == with_overrides(old(self)@, overrides@.take(i as int)),
                muted@ == newly_muted(old(self)@, overrides@.take(i as int)),
            decreases overrides@.len() - i,
        {
            proof {
                assert(overrides@.take(i + 1).drop_last() == overrides@.take(i as int));
            }
            let channel = overrides[i];
            if channel.muted && !self.settings.contains_key(&channel.channel_id) {
                self.settings.insert(channel.channel_id, true);
                muted.push(channel.channel_id);
            }
            i = i + 1;
        }
        proof {
            assert(overrides@.take(i as int) == overrides@);
        }
        muted
    }
}

} // verus!
