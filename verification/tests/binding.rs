use weecord::channel_data::{Binder, BufferBinding, ChannelData, UserServerSettings};
use weecord::host::{BufferHandle, Host, HostAction};
use weecord::mirror::StateMirror;
use weecord::model::{
    ChannelEntity, ChannelKind, ChannelRef, MemberEntity, ServerEntity, UserEntity,
};
use weecord::mute::{ChannelOverride, MuteSet};

fn bind_channel(id: u64, server_id: Option<u64>, kind: ChannelKind, name: &str) -> ChannelEntity {
    ChannelEntity { id, server_id, kind, name: name.to_string(), recipients: vec![] }
}

fn bind_member(id: u64, name: &str, nick: Option<&str>) -> MemberEntity {
    MemberEntity { id, name: name.to_string(), nick: nick.map(|nick| nick.to_string()) }
}

fn bind_server() -> ServerEntity {
    ServerEntity {
        id: 1,
        name: "S1".to_string(),
        channels: vec![
            bind_channel(2, Some(1), ChannelKind::Public, "C1"),
            bind_channel(3, Some(1), ChannelKind::Voice, "V1"),
        ],
        members: vec![bind_member(10, "ann", None), bind_member(11, "robert", Some("bob"))],
    }
}

fn bind_mirror() -> StateMirror {
    StateMirror::new(
        Some(UserEntity { id: 9, name: "me".to_string() }),
        vec![bind_server()],
        vec![bind_channel(50, None, ChannelKind::Private, "friend")],
    )
}

#[test]
fn binding_creates_and_initializes_the_buffer_of_a_public_channel() {
    let mirror = bind_mirror();
    let mut host = Host::new();
    let mut binder = Binder::new();
    let mutes = MuteSet::new();
    let channel = mirror.find_channel(2).unwrap();
    let data =
        ChannelData::from_channel(&mut binder, &mut host, &mutes, &mirror, channel, true).unwrap();
    assert_eq!(data.buffer, BufferHandle { index: 0 });
    assert_eq!(host.buffers.len(), 1);
    let buffer = &host.buffers[0];
    assert_eq!(buffer.name, "1.2");
    assert_eq!(buffer.nicks, vec!["ann".to_string(), "bob".to_string()]);
    assert_eq!(host.get_property(data.buffer, "type"), Some("formatted".to_string()));
    assert_eq!(host.get_property(data.buffer, "localvar_channelid"), Some("2".to_string()));
    assert_eq!(host.get_property(data.buffer, "localvar_type"), Some("channel".to_string()));
    assert_eq!(host.get_property(data.buffer, "nicklist"), Some("1".to_string()));
    assert_eq!(host.get_property(data.buffer, "short_name"), Some("C1".to_string()));
    assert_eq!(host.get_property(data.buffer, "title"), Some("S1 - C1".to_string()));
    assert_eq!(host.get_property(data.buffer, "localvar_nick"), Some("me".to_string()));
    assert_eq!(binder.bound.len(), 1);
    assert_eq!(
        binder.bound[0].binding,
        BufferBinding { server_id: 1, channel_id: 2, buffer: data.buffer, open: true }
    );
    assert_eq!(data.binding(), binder.bound[0].binding);
}

#[test]
fn binding_initializes_in_a_fixed_order() {
    let mirror = bind_mirror();
    let mut host = Host::new();
    let mut binder = Binder::new();
    let mutes = MuteSet::new();
    let channel = mirror.find_channel(50).unwrap();
    let data =
        ChannelData::from_channel(&mut binder, &mut host, &mutes, &mirror, channel, true).unwrap();
    let set = |key: &str, value: &str| HostAction::SetProperty {
        handle: data.buffer,
        key: key.to_string(),
        value: value.to_string(),
    };
    assert_eq!(
        host.journal,
        vec![
            HostAction::Create { handle: data.buffer, name: "0.50".to_string() },
            set("type", "formatted"),
            set("localvar_channelid", "50"),
            set("localvar_type", "private"),
            set("short_name", "friend"),
            set("title", "friend"),
            set("localvar_nick", "me"),
        ]
    );
    assert!(host.buffers[0].nicks.is_empty());
}

#[test]
fn binding_twice_gives_the_same_binding_and_no_second_initialization() {
    let mirror = bind_mirror();
    let mut host = Host::new();
    let mut binder = Binder::new();
    let mutes = MuteSet::new();
    let channel = mirror.find_channel(2).unwrap();
    let first = ChannelData::from_channel(&mut binder, &mut host, &mutes, &mirror, channel, true)
        .unwrap()
        .binding();
    let journal = host.journal.len();
    let second = ChannelData::from_channel(&mut binder, &mut host, &mutes, &mirror, channel, true)
        .unwrap()
        .binding();
    assert_eq!(first, second);
    assert_eq!(host.journal.len(), journal);
    assert_eq!(host.buffers.len(), 1);
    assert_eq!(host.buffers[0].nicks, vec!["ann".to_string(), "bob".to_string()]);
    assert_eq!(binder.bound.len(), 1);
    let third = ChannelData::from_channel(&mut binder, &mut host, &mutes, &mirror, channel, false)
        .unwrap()
        .binding();
    assert_eq!(first, third);
}

#[test]
fn voice_channel_is_never_bound() {
    let mirror = bind_mirror();
    let mut host = Host::new();
    let mut binder = Binder::new();
    let mutes = MuteSet::new();
    let channel = mirror.find_channel(3).unwrap();
    for auto_open in [true, false] {
        let bound =
            ChannelData::from_channel(&mut binder, &mut host, &mutes, &mirror, channel, auto_open);
        assert!(bound.is_none());
    }
    assert!(host.buffers.is_empty());
    assert!(host.journal.is_empty());
    assert!(binder.bound.is_empty());
    assert!(ChannelData::is_channel_blocked(&mutes, channel));
}

#[test]
fn voice_channel_is_not_bound_even_where_its_buffer_exists() {
    let mirror = bind_mirror();
    let mut host = Host::new();
    host.create("1.3").unwrap();
    let mut binder = Binder::new();
    let mutes = MuteSet::new();
    let channel = mirror.find_channel(3).unwrap();
    assert!(ChannelData::from_channel(&mut binder, &mut host, &mutes, &mirror, channel, true)
        .is_none());
    assert!(binder.bound.is_empty());
}

#[test]
fn muted_channel_is_not_bound_but_stays_in_the_mirror() {
    let mirror = bind_mirror();
    let mut host = Host::new();
    let mut binder = Binder::new();
    let mut mutes = MuteSet::new();
    mutes.set_muted(2, true);
    let channel = mirror.find_channel(2).unwrap();
    assert!(ChannelData::is_channel_blocked(&mutes, channel));
    assert!(ChannelData::from_channel(&mut binder, &mut host, &mutes, &mirror, channel, true)
        .is_none());
    assert!(host.buffers.is_empty());
    assert!(mirror.find_channel(2).is_some());
    mutes.set_muted(2, false);
    assert!(!ChannelData::is_channel_blocked(&mutes, channel));
    assert!(ChannelData::from_channel(&mut binder, &mut host, &mutes, &mirror, channel, true)
        .is_some());
}

#[test]
fn channel_bound_before_it_was_muted_keeps_its_binding() {
    let mirror = bind_mirror();
    let mut host = Host::new();
    let mut binder = Binder::new();
    let mut mutes = MuteSet::new();
    let channel = mirror.find_channel(2).unwrap();
    let first = ChannelData::from_channel(&mut binder, &mut host, &mutes, &mirror, channel, true)
        .unwrap()
        .binding();
    mutes.set_muted(2, true);
    let second = ChannelData::from_channel(&mut binder, &mut host, &mutes, &mirror, channel, true)
        .unwrap()
        .binding();
    assert_eq!(first, second);
}

#[test]
fn without_auto_open_only_an_existing_buffer_is_bound() {
    let mirror = bind_mirror();
    let mut host = Host::new();
    let mut binder = Binder::new();
    let mutes = MuteSet::new();
    let channel = mirror.find_channel(2).unwrap();
    assert!(ChannelData::from_channel(&mut binder, &mut host, &mutes, &mirror, channel, false)
        .is_none());
    assert!(host.buffers.is_empty());
    let existing = host.create("1.2").unwrap();
    host.add_nick(existing, "old");
    let journal = host.journal.len();
    let data = ChannelData::from_channel(&mut binder, &mut host, &mutes, &mirror, channel, false)
        .unwrap();
    assert_eq!(data.buffer, existing);
    assert_eq!(host.journal.len(), journal);
    assert_eq!(host.buffers[0].nicks, vec!["old".to_string()]);
    assert_eq!(host.get_property(existing, "title"), None);
}

#[test]
fn from_discord_event_opens_private_channels_only() {
    let mirror = bind_mirror();
    let mut host = Host::new();
    let mut binder = Binder::new();
    let mutes = MuteSet::new();
    assert!(ChannelData::from_discord_event(&mut binder, &mut host, &mutes, &mirror, 2).is_none());
    assert!(ChannelData::from_discord_event(&mut binder, &mut host, &mutes, &mirror, 404)
        .is_none());
    assert!(host.buffers.is_empty());
    let data =
        ChannelData::from_discord_event(&mut binder, &mut host, &mutes, &mirror, 50).unwrap();
    assert_eq!(host.buffers[data.buffer.index].name, "0.50");
    host.create("1.2").unwrap();
    assert!(ChannelData::from_discord_event(&mut binder, &mut host, &mutes, &mirror, 2).is_some());
}

#[test]
fn from_buffer_finds_the_channel_of_a_bound_buffer() {
    let mirror = bind_mirror();
    let mut host = Host::new();
    let mut binder = Binder::new();
    let mutes = MuteSet::new();
    let channel = mirror.find_channel(2).unwrap();
    let data =
        ChannelData::from_channel(&mut binder, &mut host, &mutes, &mirror, channel, true).unwrap();
    let found = ChannelData::from_buffer(&mirror, &host, data.buffer).ok().unwrap();
    assert_eq!(found.buffer, data.buffer);
    assert_eq!(found.channel.channel.id, 2);
    assert_eq!(found.channel.server.unwrap().id, 1);
}

#[test]
fn from_buffer_hands_the_buffer_back_where_it_shows_no_channel() {
    let mirror = bind_mirror();
    let mut host = Host::new();
    let plain = host.create("plain").unwrap();
    assert_eq!(ChannelData::from_buffer(&mirror, &host, plain).err(), Some(plain));
    host.set_property(plain, "localvar_channelid", "not a number");
    assert_eq!(ChannelData::from_buffer(&mirror, &host, plain).err(), Some(plain));
    host.set_property(plain, "localvar_channelid", "404");
    assert_eq!(ChannelData::from_buffer(&mirror, &host, plain).err(), Some(plain));
    host.set_property(plain, "localvar_channelid", "50");
    assert!(ChannelData::from_buffer(&mirror, &host, plain).is_ok());
    host.close(plain);
    assert_eq!(ChannelData::from_buffer(&mirror, &host, plain).err(), Some(plain));
    let stale = BufferHandle { index: 17 };
    assert_eq!(ChannelData::from_buffer(&mirror, &host, stale).err(), Some(stale));
}

#[test]
fn sync_name_and_members_follow_the_mirror() {
    let mirror = bind_mirror();
    let mut host = Host::new();
    let buffer = host.create("1.2").unwrap();
    let channel = mirror.find_channel(2).unwrap();
    let data = ChannelData { state: &mirror, channel, buffer };
    data.sync_name(&mut host);
    assert_eq!(host.get_property(buffer, "short_name"), Some("C1".to_string()));
    assert_eq!(host.get_property(buffer, "title"), Some("S1 - C1".to_string()));
    data.sync_self_nick(&mut host);
    assert_eq!(host.get_property(buffer, "localvar_nick"), Some("me".to_string()));
    data.add_member(&mut host, &bind_member(12, "carol", None));
    data.add_member(&mut host, &bind_member(13, "david", Some("dave")));
    assert_eq!(host.buffers[0].nicks, vec!["carol".to_string(), "dave".to_string()]);
    data.remove_member(&mut host, &bind_member(12, "carol", None));
    assert_eq!(host.buffers[0].nicks, vec!["dave".to_string()]);
}

#[test]
fn title_of_a_private_channel_is_its_name() {
    let mirror = bind_mirror();
    let channel = mirror.find_channel(50).unwrap();
    assert_eq!(channel.title(), "friend");
    assert_eq!(channel.display_name(), "friend");
    assert_eq!(channel.server_id(), 0);
    let public = ChannelRef { server: Some(&mirror.servers[0]), channel: &mirror.servers[0].channels[0] };
    assert_eq!(public.title(), "S1 - C1");
    assert_eq!(public.server_id(), 1);
}

#[test]
fn create_server_makes_the_buffer_once_and_sets_the_short_name() {
    let mut host = Host::new();
    let mut server = bind_server();
    ChannelData::create_server(&mut host, &server);
    assert_eq!(host.buffers.len(), 1);
    assert_eq!(host.buffers[0].name, "1");
    let buffer = host.search("1").unwrap();
    assert_eq!(host.get_property(buffer, "short_name"), Some("S1".to_string()));
    server.name = "renamed".to_string();
    ChannelData::create_server(&mut host, &server);
    assert_eq!(host.buffers.len(), 1);
    assert_eq!(host.get_property(buffer, "short_name"), Some("renamed".to_string()));
}

#[test]
fn mute_channels_mutes_what_has_no_setting_yet() {
    let mut mutes = MuteSet::new();
    mutes.set_muted(2, false);
    let settings = UserServerSettings {
        channel_overrides: vec![
            ChannelOverride { channel_id: 2, muted: true },
            ChannelOverride { channel_id: 3, muted: true },
            ChannelOverride { channel_id: 4, muted: false },
            ChannelOverride { channel_id: 3, muted: true },
        ],
    };
    let newly = ChannelData::mute_channels(&mut mutes, &settings);
    assert_eq!(newly, vec![3]);
    assert!(!mutes.is_muted(2));
    assert!(mutes.is_muted(3));
    assert!(!mutes.is_muted(4));
    assert!(!mutes.is_muted(5));
    assert_eq!(mutes.settings.len(), 2);
}

#[test]
fn unmuting_a_channel_that_is_not_muted_is_harmless() {
    let mut mutes = MuteSet::new();
    mutes.set_muted(8, false);
    assert!(!mutes.is_muted(8));
    mutes.set_muted(8, true);
    assert!(mutes.is_muted(8));
    mutes.set_muted(8, false);
    mutes.set_muted(8, false);
    assert!(!mutes.is_muted(8));
}

#[test]
fn closing_a_buffer_destroys_its_binding() {
    let mirror = bind_mirror();
    let mut host = Host::new();
    let mut binder = Binder::new();
    let mutes = MuteSet::new();
    let channel = mirror.find_channel(2).unwrap();
    let data =
        ChannelData::from_channel(&mut binder, &mut host, &mutes, &mirror, channel, true).unwrap();
    let buffer = data.buffer;
    let destroyed = binder.buffer_closed(&mut host, buffer);
    assert_eq!(
        destroyed,
        Some(BufferBinding { server_id: 1, channel_id: 2, buffer, open: false })
    );
    assert!(binder.bound.is_empty());
    assert!(!host.is_open(buffer));
    assert_eq!(binder.buffer_closed(&mut host, buffer), None);
    let again =
        ChannelData::from_channel(&mut binder, &mut host, &mutes, &mirror, channel, true).unwrap();
    assert_eq!(again.buffer, BufferHandle { index: 1 });
    assert_eq!(binder.bound.len(), 1);
}

#[test]
fn closing_an_unbound_buffer_destroys_no_binding() {
    let mut host = Host::new();
    let mut binder = Binder::new();
    let plain = host.create("plain").unwrap();
    assert_eq!(binder.buffer_closed(&mut host, plain), None);
    assert!(!host.is_open(plain));
    assert_eq!(binder.find(1, 2), 0);
}
