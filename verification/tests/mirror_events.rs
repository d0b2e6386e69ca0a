use weecord::event::Event;
use weecord::mirror::{find_channel_in, find_member_in, find_server_in, StateMirror};
use weecord::model::{ChannelEntity, ChannelKind, MemberEntity, ServerEntity, UserEntity};

fn mirror_channel(id: u64, server_id: Option<u64>, kind: ChannelKind, name: &str) -> ChannelEntity {
    ChannelEntity { id, server_id, kind, name: name.to_string(), recipients: vec![] }
}

fn mirror_member(id: u64, name: &str, nick: Option<&str>) -> MemberEntity {
    MemberEntity { id, name: name.to_string(), nick: nick.map(|nick| nick.to_string()) }
}

fn mirror_of_two_servers() -> StateMirror {
    StateMirror::new(
        Some(UserEntity { id: 9, name: "me".to_string() }),
        vec![
            ServerEntity {
                id: 1,
                name: "S1".to_string(),
                channels: vec![mirror_channel(2, Some(1), ChannelKind::Public, "C1")],
                members: vec![mirror_member(10, "ann", None)],
            },
            ServerEntity {
                id: 5,
                name: "S5".to_string(),
                channels: vec![
                    mirror_channel(6, Some(5), ChannelKind::Public, "C6"),
                    mirror_channel(7, Some(5), ChannelKind::Voice, "V7"),
                ],
                members: vec![],
            },
        ],
        vec![mirror_channel(50, None, ChannelKind::Group, "group")],
    )
}

#[test]
fn find_channel_looks_in_private_channels_and_servers() {
    let mirror = mirror_of_two_servers();
    let private = mirror.find_channel(50).unwrap();
    assert!(private.server.is_none());
    assert_eq!(private.channel.name, "group");
    let public = mirror.find_channel(7).unwrap();
    assert_eq!(public.server.unwrap().id, 5);
    assert_eq!(public.channel.kind, ChannelKind::Voice);
    assert!(mirror.find_channel(404).is_none());
    assert!(mirror.is_private(50));
    assert!(!mirror.is_private(2));
    assert_eq!(mirror.user_id(), Some(9));
    assert_eq!(mirror.all_servers().len(), 2);
    assert_eq!(mirror.all_servers()[0].id, 1);
}

#[test]
fn positions_are_of_the_first_match_or_the_length() {
    let mirror = mirror_of_two_servers();
    assert_eq!(find_server_in(&mirror.servers, 5), 1);
    assert_eq!(find_server_in(&mirror.servers, 6), 2);
    assert_eq!(find_channel_in(&mirror.servers[1].channels, 7), 1);
    assert_eq!(find_channel_in(&mirror.servers[1].channels, 2), 2);
    assert_eq!(find_member_in(&mirror.servers[0].members, 10), 0);
    assert_eq!(find_member_in(&mirror.servers[0].members, 11), 1);
}

#[test]
fn channel_events_change_the_named_channel_only() {
    let mut mirror = mirror_of_two_servers();
    let before = mirror.clone();
    mirror.apply_event(Event::ChannelCreate(mirror_channel(8, Some(5), ChannelKind::Public, "C8")));
    assert_eq!(mirror.servers[1].channels.len(), 3);
    assert_eq!(mirror.servers[1].channels[2].name, "C8");
    assert_eq!(mirror.servers[0], before.servers[0]);
    assert_eq!(mirror.private_channels, before.private_channels);
    mirror.apply_event(Event::ChannelUpdate(mirror_channel(6, Some(5), ChannelKind::Public, "renamed")));
    assert_eq!(mirror.servers[1].channels.len(), 3);
    assert_eq!(mirror.servers[1].channels[0].name, "renamed");
    mirror.apply_event(Event::ChannelDelete { channel_id: 7 });
    assert_eq!(mirror.servers[1].channels.len(), 2);
    assert!(mirror.find_channel(7).is_none());
    mirror.apply_event(Event::ChannelCreate(mirror_channel(51, None, ChannelKind::Private, "pm")));
    assert_eq!(mirror.private_channels.len(), 2);
    mirror.apply_event(Event::ChannelDelete { channel_id: 50 });
    assert_eq!(mirror.private_channels.len(), 1);
    assert_eq!(mirror.private_channels[0].id, 51);
}

#[test]
fn channel_of_an_unknown_server_changes_nothing() {
    let mut mirror = mirror_of_two_servers();
    let before = mirror.clone();
    mirror.apply_event(Event::ChannelCreate(mirror_channel(8, Some(77), ChannelKind::Public, "C8")));
    assert_eq!(mirror, before);
    mirror.apply_event(Event::ChannelDelete { channel_id: 404 });
    assert_eq!(mirror, before);
}

#[test]
fn member_events_change_the_member_list_of_the_server() {
    let mut mirror = mirror_of_two_servers();
    mirror.apply_event(Event::ServerMemberAdd { server_id: 1, member: mirror_member(11, "bob", None) });
    assert_eq!(mirror.servers[0].members.len(), 2);
    mirror.apply_event(Event::ServerMemberAdd {
        server_id: 1,
        member: mirror_member(10, "ann", Some("annie")),
    });
    assert_eq!(mirror.servers[0].members.len(), 2);
    assert_eq!(mirror.servers[0].members[0].display_name(), "annie");
    assert_eq!(mirror.find_member(1, 11).unwrap().display_name(), "bob");
    assert!(mirror.find_member(5, 11).is_none());
    assert!(mirror.find_member(77, 11).is_none());
    mirror.apply_event(Event::ServerMemberRemove { server_id: 1, user_id: 10 });
    assert_eq!(mirror.servers[0].members.len(), 1);
    assert_eq!(mirror.servers[0].members[0].id, 11);
    mirror.apply_event(Event::ServerMemberRemove { server_id: 1, user_id: 404 });
    assert_eq!(mirror.servers[0].members.len(), 1);
    assert!(mirror.servers[1].members.is_empty());
}

#[test]
fn server_events_add_replace_and_remove_servers() {
    let mut mirror = mirror_of_two_servers();
    mirror.apply_event(Event::ServerCreate(ServerEntity {
        id: 9,
        name: "S9".to_string(),
        channels: vec![],
        members: vec![],
    }));
    assert_eq!(mirror.servers.len(), 3);
    mirror.apply_event(Event::ServerCreate(ServerEntity {
        id: 1,
        name: "again".to_string(),
        channels: vec![],
        members: vec![],
    }));
    assert_eq!(mirror.servers.len(), 3);
    assert_eq!(mirror.servers[0].name, "again");
    mirror.apply_event(Event::ServerDelete { server_id: 5 });
    assert_eq!(mirror.servers.len(), 2);
    assert_eq!(mirror.servers[1].id, 9);
    mirror.apply_event(Event::ServerDelete { server_id: 404 });
    assert_eq!(mirror.servers.len(), 2);
}

#[test]
fn message_and_unknown_events_leave_the_mirror_alone() {
    let mut mirror = mirror_of_two_servers();
    let before = mirror.clone();
    mirror.apply_event(Event::Unknown);
    mirror.apply_event(Event::MessageDelete { channel_id: 2, message_id: 1 });
    assert_eq!(mirror, before);
}
