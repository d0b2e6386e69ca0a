use weecord::channel_data::UserServerSettings;
use weecord::connection::{
    buffer_input, debug_command, joined, keep_receiving, mention_text, query_command,
    resolve_mention, send_failed, ConnectError, MyConnection, Received, Snapshot,
};
use weecord::event::Event;
use weecord::host::{BufferHandle, Host, HostAction, Line, NotifyTag};
use weecord::message::{Message, MessageUpdate};
use weecord::model::{ChannelEntity, ChannelKind, MemberEntity, ServerEntity, UserEntity};
use weecord::mute::{ChannelOverride, MuteSet};

fn flow_channel(id: u64, server_id: Option<u64>, kind: ChannelKind, name: &str) -> ChannelEntity {
    ChannelEntity { id, server_id, kind, name: name.to_string(), recipients: vec![] }
}

fn flow_private(id: u64, name: &str, recipient: u64) -> ChannelEntity {
    ChannelEntity {
        id,
        server_id: None,
        kind: ChannelKind::Private,
        name: name.to_string(),
        recipients: vec![recipient],
    }
}

fn flow_member(id: u64, name: &str, nick: Option<&str>) -> MemberEntity {
    MemberEntity { id, name: name.to_string(), nick: nick.map(|nick| nick.to_string()) }
}

fn flow_message(id: u64, channel_id: u64, content: &str) -> Message {
    Message {
        id,
        channel_id,
        author: UserEntity { id: 10, name: "alice".to_string() },
        content: content.to_string(),
        timestamp: "2020-01-01T00:00:00Z".to_string(),
        edited_timestamp: None,
        mentions: vec![],
        mention_roles: vec![],
        mention_everyone: false,
        pinned: false,
        tts: false,
    }
}

fn flow_snapshot() -> Snapshot {
    Snapshot {
        user: Some(UserEntity { id: 9, name: "me".to_string() }),
        servers: vec![ServerEntity {
            id: 1,
            name: "S1".to_string(),
            channels: vec![flow_channel(2, Some(1), ChannelKind::Public, "C1")],
            members: vec![flow_member(10, "alice", None), flow_member(11, "robert", Some("bob"))],
        }],
        private_channels: vec![],
        user_server_settings: None,
    }
}

fn flow_connected() -> (Host, MyConnection) {
    let mut host = Host::new();
    let connection = MyConnection::new(&mut host, MuteSet::new(), flow_snapshot());
    (host, connection)
}

fn open_names(host: &Host) -> Vec<String> {
    host.buffers.iter().filter(|buffer| buffer.open).map(|buffer| buffer.name.clone()).collect()
}

#[test]
fn connect_gives_one_buffer_per_server_and_per_visible_channel() {
    let (host, connection) = flow_connected();
    assert_eq!(open_names(&host), vec!["1".to_string(), "1.2".to_string()]);
    let server = host.search("1").unwrap();
    let channel = host.search("1.2").unwrap();
    assert_eq!(host.get_property(server, "short_name"), Some("S1".to_string()));
    assert_eq!(host.get_property(channel, "short_name"), Some("C1".to_string()));
    assert_eq!(host.get_property(channel, "title"), Some("S1 - C1".to_string()));
    assert_eq!(connection.binder.bound.len(), 1);
    assert_eq!(connection.binder.bound[0].binding.buffer, channel);
    assert_eq!(connection.state.servers.len(), 1);
}

#[test]
fn connect_skips_voice_and_muted_channels_and_private_channels() {
    let mut snapshot = flow_snapshot();
    snapshot.servers[0].channels.push(flow_channel(3, Some(1), ChannelKind::Voice, "V"));
    snapshot.servers[0].channels.push(flow_channel(4, Some(1), ChannelKind::Public, "quiet"));
    snapshot.servers[0].channels.push(flow_channel(5, Some(1), ChannelKind::Public, "loud"));
    snapshot.private_channels.push(flow_private(50, "friend", 10));
    snapshot.user_server_settings = Some(vec![
        UserServerSettings { channel_overrides: vec![ChannelOverride { channel_id: 4, muted: true }] },
        UserServerSettings { channel_overrides: vec![ChannelOverride { channel_id: 5, muted: true }] },
    ]);
    let mut mutes = MuteSet::new();
    mutes.set_muted(5, false);
    let mut host = Host::new();
    let connection = MyConnection::new(&mut host, mutes, snapshot);
    assert_eq!(
        open_names(&host),
        vec!["1".to_string(), "1.2".to_string(), "1.5".to_string()]
    );
    assert!(connection.mutes.is_muted(4));
    assert!(!connection.mutes.is_muted(5));
    assert!(connection.state.find_channel(3).is_some());
    assert!(connection.state.find_channel(4).is_some());
}

#[test]
fn reconnect_finds_the_buffers_again() {
    let (mut host, connection) = flow_connected();
    let channel = host.search("1.2").unwrap();
    drop(connection);
    host.take_journal();
    let again = MyConnection::new(&mut host, MuteSet::new(), flow_snapshot());
    assert_eq!(open_names(&host), vec!["1".to_string(), "1.2".to_string()]);
    assert_eq!(again.binder.bound[0].binding.buffer, channel);
    assert_eq!(host.buffers[channel.index].nicks, vec!["alice".to_string(), "bob".to_string()]);
    assert_eq!(host.journal.len(), 1);
}

#[test]
fn message_create_prints_into_the_bound_buffer() {
    let (mut host, mut connection) = flow_connected();
    let channel = host.search("1.2").unwrap();
    connection.on_event(&mut host, Event::MessageCreate(flow_message(100, 2, "hello")));
    assert_eq!(
        host.buffers[channel.index].lines,
        vec![Line { date: Some(1577836800), text: "hello".to_string() }]
    );
    assert_eq!(
        host.journal.last(),
        Some(&HostAction::Print {
            handle: channel,
            date: Some(1577836800),
            tag: Some(NotifyTag::Message),
            text: "hello".to_string()
        })
    );
    assert_eq!(connection.binder.bound[0].renderer.messages.len(), 1);
}

#[test]
fn message_create_for_a_muted_channel_binds_and_prints_nothing() {
    let mut snapshot = flow_snapshot();
    snapshot.private_channels.push(flow_private(50, "friend", 10));
    let mut mutes = MuteSet::new();
    mutes.set_muted(50, true);
    mutes.set_muted(2, true);
    let mut host = Host::new();
    let mut connection = MyConnection::new(&mut host, mutes, snapshot);
    assert_eq!(open_names(&host), vec!["1".to_string()]);
    let journal = host.journal.clone();
    connection.on_event(&mut host, Event::MessageCreate(flow_message(100, 50, "psst")));
    connection.on_event(&mut host, Event::MessageCreate(flow_message(101, 2, "hello")));
    assert!(connection.binder.bound.is_empty());
    assert_eq!(host.journal, journal);
    assert_eq!(open_names(&host), vec!["1".to_string()]);
    assert!(host.main.is_empty());
}

#[test]
fn message_create_opens_a_private_channel_and_tags_it_private() {
    let mut snapshot = flow_snapshot();
    snapshot.private_channels.push(flow_private(50, "friend", 10));
    let mut host = Host::new();
    let mut connection = MyConnection::new(&mut host, MuteSet::new(), snapshot);
    connection.on_event(&mut host, Event::MessageCreate(flow_message(100, 50, "psst")));
    let buffer = host.search("0.50").unwrap();
    assert_eq!(host.buffers[buffer.index].lines.len(), 1);
    assert_eq!(
        host.journal.last(),
        Some(&HostAction::Print {
            handle: buffer,
            date: Some(1577836800),
            tag: Some(NotifyTag::Private),
            text: "psst".to_string()
        })
    );
    let mut mention = flow_message(101, 50, "you");
    mention.mentions = vec![9];
    connection.on_event(&mut host, Event::MessageCreate(mention));
    match host.journal.last() {
        Some(HostAction::Print { tag, .. }) => assert_eq!(*tag, Some(NotifyTag::Highlight)),
        _ => panic!("no print"),
    }
}

#[test]
fn message_create_for_an_unknown_channel_or_closed_public_channel_does_nothing() {
    let (mut host, mut connection) = flow_connected();
    connection.on_event(&mut host, Event::ChannelDelete { channel_id: 404 });
    let journal = host.journal.len();
    connection.on_event(&mut host, Event::MessageCreate(flow_message(100, 404, "lost")));
    assert_eq!(host.journal.len(), journal);
    let channel = host.search("1.2").unwrap();
    let destroyed = connection.binder.buffer_closed(&mut host, channel);
    assert!(destroyed.is_some());
    let journal = host.journal.len();
    connection.on_event(&mut host, Event::MessageCreate(flow_message(101, 2, "unseen")));
    assert_eq!(host.journal.len(), journal);
    assert!(connection.binder.bound.is_empty());
}

#[test]
fn message_with_an_unreadable_timestamp_is_dropped() {
    let (mut host, mut connection) = flow_connected();
    let channel = host.search("1.2").unwrap();
    let mut message = flow_message(100, 2, "hello");
    message.timestamp = "12 o'clock".to_string();
    connection.on_event(&mut host, Event::MessageCreate(message));
    assert!(host.buffers[channel.index].lines.is_empty());
    assert!(connection.binder.bound[0].renderer.messages.is_empty());
    assert_eq!(
        host.main,
        vec![Line {
            date: None,
            text: "discord: dropped an event with an unreadable timestamp".to_string()
        }]
    );
    assert!(connection.check(&host));
}

#[test]
fn update_with_an_unreadable_timestamp_is_dropped_with_a_line() {
    let (mut host, mut connection) = flow_connected();
    let channel = host.search("1.2").unwrap();
    connection.on_event(&mut host, Event::MessageCreate(flow_message(100, 2, "one")));
    let journal = host.journal.len();
    let update = MessageUpdate {
        id: 100,
        channel_id: 2,
        author: None,
        content: Some("uno".to_string()),
        timestamp: Some("later".to_string()),
        edited_timestamp: None,
        mentions: None,
        mention_roles: None,
        mention_everyone: None,
        pinned: None,
        tts: None,
    };
    connection.on_event(&mut host, Event::MessageUpdate(update));
    assert_eq!(host.buffers[channel.index].lines[0].text, "one");
    assert_eq!(host.journal.len(), journal + 1);
    assert_eq!(host.main.len(), 1);
}

#[test]
fn mentions_resolve_to_display_names() {
    let members = vec![flow_member(10, "alice", None), flow_member(11, "robert", Some("bob"))];
    assert_eq!(mention_text(11), "<@11>");
    assert_eq!(resolve_mention(&members, "<@10>"), Some("alice".to_string()));
    assert_eq!(resolve_mention(&members, "<@11>"), Some("bob".to_string()));
    assert_eq!(resolve_mention(&members, "<@12>"), None);
    assert_eq!(resolve_mention(&members, "11"), None);
    assert_eq!(resolve_mention(&[].to_vec(), "<@10>"), None);
}

#[test]
fn check_tells_a_sound_connection_from_a_broken_one() {
    let (mut host, mut connection) = flow_connected();
    assert!(host.check());
    assert!(connection.binder.check(&host));
    assert!(connection.check(&host));
    let channel = host.search("1.2").unwrap();
    host.close(channel);
    assert!(host.check());
    assert!(!connection.check(&host));
    connection.binder.buffer_closed(&mut host, channel);
    assert!(connection.check(&host));
    host.buffers[0].name = "twin".to_string();
    host.buffers.push(host.buffers[0].clone());
    assert!(!host.check());
    assert!(!connection.check(&host));
}

#[test]
fn check_refuses_bindings_that_do_not_match_their_buffers() {
    let (host, mut connection) = flow_connected();
    connection.binder.bound[0].binding.channel_id = 3;
    assert!(!connection.binder.check(&host));
    connection.binder.bound[0].binding.channel_id = 2;
    assert!(connection.binder.check(&host));
    connection.binder.bound[0].binding.open = false;
    assert!(!connection.binder.check(&host));
    connection.binder.bound[0].binding.open = true;
    connection.binder.bound[0].renderer.buffer_handle = BufferHandle { index: 0 };
    assert!(!connection.binder.check(&host));
}

#[test]
fn message_update_and_delete_redraw_the_buffer() {
    let (mut host, mut connection) = flow_connected();
    let channel = host.search("1.2").unwrap();
    connection.on_event(&mut host, Event::MessageCreate(flow_message(100, 2, "one")));
    connection.on_event(&mut host, Event::MessageCreate(flow_message(101, 2, "two")));
    let update = MessageUpdate {
        id: 100,
        channel_id: 2,
        author: None,
        content: Some("uno".to_string()),
        timestamp: None,
        edited_timestamp: Some("2020-01-01T00:01:00Z".to_string()),
        mentions: None,
        mention_roles: None,
        mention_everyone: None,
        pinned: None,
        tts: None,
    };
    connection.on_event(&mut host, Event::MessageUpdate(update));
    let texts: Vec<String> =
        host.buffers[channel.index].lines.iter().map(|line| line.text.clone()).collect();
    assert_eq!(texts, vec!["uno".to_string(), "two".to_string()]);
    connection.on_event(&mut host, Event::MessageDelete { channel_id: 2, message_id: 100 });
    let texts: Vec<String> =
        host.buffers[channel.index].lines.iter().map(|line| line.text.clone()).collect();
    assert_eq!(texts, vec!["two".to_string()]);
    connection.on_event(&mut host, Event::MessageDelete { channel_id: 2, message_id: 100 });
    assert_eq!(host.buffers[channel.index].lines.len(), 1);
    connection.on_event(&mut host, Event::MessageDelete { channel_id: 404, message_id: 101 });
    assert_eq!(host.buffers[channel.index].lines.len(), 1);
}

#[test]
fn member_events_keep_the_nick_lists_in_step() {
    let (mut host, mut connection) = flow_connected();
    let channel = host.search("1.2").unwrap();
    connection.on_event(
        &mut host,
        Event::ServerMemberAdd { server_id: 1, member: flow_member(12, "carol", Some("caz")) },
    );
    assert_eq!(
        host.buffers[channel.index].nicks,
        vec!["alice".to_string(), "bob".to_string(), "caz".to_string()]
    );
    assert_eq!(connection.state.servers[0].members.len(), 3);
    connection.on_event(&mut host, Event::ServerMemberRemove { server_id: 1, user_id: 11 });
    assert_eq!(host.buffers[channel.index].nicks, vec!["alice".to_string(), "caz".to_string()]);
    assert_eq!(connection.state.servers[0].members.len(), 2);
    connection.on_event(&mut host, Event::ServerMemberRemove { server_id: 1, user_id: 404 });
    connection.on_event(&mut host, Event::ServerMemberRemove { server_id: 7, user_id: 10 });
    connection.on_event(
        &mut host,
        Event::ServerMemberAdd { server_id: 7, member: flow_member(13, "dan", None) },
    );
    assert_eq!(host.buffers[channel.index].nicks, vec!["alice".to_string(), "caz".to_string()]);
    let lines = host.buffers[channel.index].lines.len();
    assert_eq!(lines, 0);
}

#[test]
fn channel_events_bind_and_rename() {
    let (mut host, mut connection) = flow_connected();
    connection.on_event(
        &mut host,
        Event::ChannelCreate(flow_channel(3, Some(1), ChannelKind::Public, "C3")),
    );
    let created = host.search("1.3").unwrap();
    assert_eq!(host.get_property(created, "title"), Some("S1 - C3".to_string()));
    assert_eq!(connection.binder.bound.len(), 2);
    connection.on_event(
        &mut host,
        Event::ChannelUpdate(flow_channel(3, Some(1), ChannelKind::Public, "renamed")),
    );
    assert_eq!(host.get_property(created, "short_name"), Some("renamed".to_string()));
    assert_eq!(host.get_property(created, "title"), Some("S1 - renamed".to_string()));
    assert_eq!(host.buffers[created.index].nicks.len(), 2);
    connection.on_event(
        &mut host,
        Event::ChannelCreate(flow_channel(4, Some(1), ChannelKind::Voice, "V")),
    );
    assert_eq!(host.search("1.4"), None);
    connection.on_event(&mut host, Event::ChannelDelete { channel_id: 3 });
    assert!(connection.state.find_channel(3).is_none());
    assert!(host.is_open(created));
}

#[test]
fn server_events_create_and_tear_down_the_server_buffer() {
    let (mut host, mut connection) = flow_connected();
    connection.on_event(
        &mut host,
        Event::ServerCreate(ServerEntity {
            id: 7,
            name: "S7".to_string(),
            channels: vec![flow_channel(8, Some(7), ChannelKind::Public, "C8")],
            members: vec![flow_member(20, "zed", None)],
        }),
    );
    assert_eq!(
        open_names(&host),
        vec!["1".to_string(), "1.2".to_string(), "7".to_string(), "7.8".to_string()]
    );
    let channel = host.search("7.8").unwrap();
    assert_eq!(host.buffers[channel.index].nicks, vec!["zed".to_string()]);
    connection.on_event(&mut host, Event::ServerDelete { server_id: 7 });
    assert_eq!(
        open_names(&host),
        vec!["1".to_string(), "1.2".to_string(), "7.8".to_string()]
    );
    assert_eq!(connection.state.servers.len(), 1);
    connection.on_event(&mut host, Event::ServerDelete { server_id: 7 });
    assert_eq!(connection.binder.bound.len(), 2);
}

#[test]
fn unknown_event_is_ignored() {
    let (mut host, mut connection) = flow_connected();
    let journal = host.journal.clone();
    let state = connection.state.clone();
    connection.on_event(&mut host, Event::Unknown);
    assert_eq!(host.journal, journal);
    assert_eq!(connection.state, state);
    assert_eq!(connection.binder.bound.len(), 1);
}

#[test]
fn on_poke_drains_until_the_queue_is_empty() {
    let (mut host, mut connection) = flow_connected();
    assert!(connection.on_poke(&mut host, Received::Event(Event::MessageCreate(flow_message(1, 2, "a")))));
    assert!(connection.on_poke(&mut host, Received::Failed("reset by peer".to_string())));
    assert_eq!(
        host.main,
        vec![Line { date: None, text: "listening thread had error - reset by peer".to_string() }]
    );
    let journal = host.journal.len();
    assert!(!connection.on_poke(&mut host, Received::Empty));
    assert_eq!(host.journal.len(), journal);
    assert!(!connection.on_poke(&mut host, Received::Disconnected));
    assert_eq!(host.main[1].text, "Listening thread stopped!");
    let channel = host.search("1.2").unwrap();
    assert_eq!(host.buffers[channel.index].lines.len(), 1);
}

#[test]
fn receiver_stops_after_a_failure_or_a_lost_listener() {
    assert!(keep_receiving(false, false));
    assert!(!keep_receiving(true, false));
    assert!(!keep_receiving(false, true));
    assert!(!keep_receiving(true, true));
}

#[test]
fn query_for_a_user_without_private_channel_asks_for_one_and_binds_it() {
    let (mut host, mut connection) = flow_connected();
    let asking = host.search("1.2").unwrap();
    let create_for = connection.query_command(&mut host, asking, "alice");
    assert_eq!(create_for, Some(10));
    assert_eq!(connection.binder.bound.len(), 1);
    connection.query_created(&mut host, asking, "alice", Ok(flow_private(60, "alice", 10)));
    let buffer = host.search("0.60").unwrap();
    assert_eq!(connection.binder.bound.len(), 2);
    assert_eq!(connection.binder.bound[1].binding.buffer, buffer);
    assert_eq!(host.get_property(buffer, "localvar_type"), Some("private".to_string()));
    assert!(host.buffers[asking.index].lines.is_empty());
}

#[test]
fn query_that_fails_prints_one_line_and_binds_nothing() {
    let (mut host, mut connection) = flow_connected();
    let asking = host.search("1.2").unwrap();
    assert_eq!(connection.query_command(&mut host, asking, "alice"), Some(10));
    let buffers = host.buffers.len();
    connection.query_created(&mut host, asking, "alice", Err("forbidden".to_string()));
    assert_eq!(
        host.buffers[asking.index].lines,
        vec![Line { date: None, text: "Unable to create a PM with alice: forbidden".to_string() }]
    );
    assert_eq!(connection.binder.bound.len(), 1);
    assert_eq!(host.buffers.len(), buffers);
}

#[test]
fn query_uses_an_existing_private_channel() {
    let mut snapshot = flow_snapshot();
    snapshot.private_channels.push(flow_private(50, "bob", 11));
    let mut host = Host::new();
    let mut connection = MyConnection::new(&mut host, MuteSet::new(), snapshot);
    let asking = host.search("1.2").unwrap();
    assert_eq!(connection.query_command(&mut host, asking, "bob"), None);
    assert!(host.search("0.50").is_some());
    assert_eq!(connection.binder.bound.len(), 2);
    assert_eq!(connection.find_user("bob"), Some(11));
    assert_eq!(connection.find_user("robert"), None);
}

#[test]
fn query_for_an_unknown_name_says_so() {
    let (mut host, mut connection) = flow_connected();
    let asking = host.search("1.2").unwrap();
    assert_eq!(connection.query_command(&mut host, asking, "nobody"), None);
    assert_eq!(
        host.buffers[asking.index].lines,
        vec![Line { date: None, text: "User not found: nobody".to_string() }]
    );
}

#[test]
fn query_on_an_empty_slot_does_nothing() {
    let mut host = Host::new();
    let buffer = host.create("plain").unwrap();
    let mut slot: Option<MyConnection> = None;
    assert_eq!(query_command(&mut slot, &mut host, buffer, "alice"), None);
    assert!(host.buffers[buffer.index].lines.is_empty());
    let (mut host, connection) = flow_connected();
    let asking = host.search("1.2").unwrap();
    let mut slot = Some(connection);
    assert_eq!(query_command(&mut slot, &mut host, asking, "alice"), Some(10));
}

#[test]
fn input_is_sent_to_the_channel_of_the_buffer() {
    let (mut host, connection) = flow_connected();
    let channel = host.search("1.2").unwrap();
    let send = buffer_input(Some(&connection), &mut host, channel, "hello there").unwrap();
    assert_eq!(send.channel_id, 2);
    assert_eq!(send.content, "hello there");
    assert!(host.buffers[channel.index].lines.is_empty());
}

#[test]
fn input_without_connection_or_channel_is_answered_in_the_buffer() {
    let (mut host, connection) = flow_connected();
    let server = host.search("1").unwrap();
    assert!(buffer_input(None, &mut host, server, "hello").is_none());
    assert!(buffer_input(Some(&connection), &mut host, server, "hello").is_none());
    let texts: Vec<String> =
        host.buffers[server.index].lines.iter().map(|line| line.text.clone()).collect();
    assert_eq!(
        texts,
        vec!["Discord is not connected".to_string(), "Associated channel not found!?".to_string()]
    );
    send_failed(&mut host, server, "rate limited");
    assert_eq!(host.buffers[server.index].lines[2].text, "rate limited");
}

#[test]
fn debug_replace_dumps_the_name_tables() {
    let (mut host, connection) = flow_connected();
    connection.debug_command(&mut host, "other");
    assert!(host.main.is_empty());
    connection.debug_command(&mut host, "replace");
    let texts: Vec<String> = host.main.iter().map(|line| line.text.clone()).collect();
    assert_eq!(
        texts,
        vec!["Server: S1".to_string(), "alice : <@10>".to_string(), "bob : <@11>".to_string()]
    );
}

#[test]
fn debug_dump_of_a_server_without_channels_is_its_name() {
    let mut snapshot = flow_snapshot();
    snapshot.servers[0].channels.clear();
    let mut host = Host::new();
    let connection = MyConnection::new(&mut host, MuteSet::new(), snapshot);
    let slot = Some(connection);
    debug_command(&slot, &mut host, "replace");
    assert_eq!(host.main, vec![Line { date: None, text: "Server: S1".to_string() }]);
    let empty: Option<MyConnection> = None;
    debug_command(&empty, &mut host, "replace");
    assert_eq!(host.main.len(), 1);
}

#[test]
fn create_fills_an_empty_slot_once() {
    let mut host = Host::new();
    let mut slot: Option<MyConnection> = None;
    assert!(MyConnection::magic(&slot).is_none());
    MyConnection::create(&mut slot, &mut host, MuteSet::new(), Ok(flow_snapshot()));
    assert!(MyConnection::magic(&slot).is_some());
    assert_eq!(open_names(&host), vec!["1".to_string(), "1.2".to_string()]);
    let journal = host.journal.len();
    let mut other = flow_snapshot();
    other.servers[0].id = 99;
    MyConnection::create(&mut slot, &mut host, MuteSet::new(), Ok(other));
    assert_eq!(host.journal.len(), journal);
    assert_eq!(MyConnection::magic(&slot).unwrap().state.servers[0].id, 1);
    MyConnection::create(
        &mut slot,
        &mut host,
        MuteSet::new(),
        Err(ConnectError::NetworkError("down".to_string())),
    );
    assert_eq!(host.journal.len(), journal);
    assert!(slot.is_some());
}

#[test]
fn failed_connect_publishes_nothing_and_tells_why() {
    let mut host = Host::new();
    let mut slot: Option<MyConnection> = None;
    MyConnection::create(
        &mut slot,
        &mut host,
        MuteSet::new(),
        Err(ConnectError::AuthError("bad token".to_string())),
    );
    assert!(slot.is_none());
    let texts: Vec<String> = host.main.iter().map(|line| line.text.clone()).collect();
    assert_eq!(
        texts,
        vec!["Error connecting:".to_string(), "authentication failed: bad token".to_string()]
    );
    assert_eq!(
        ConnectError::NetworkError("timed out".to_string()).describe(),
        "network error: timed out"
    );
    assert!(host.buffers.is_empty());
}

#[test]
fn drop_is_idempotent() {
    let mut host = Host::new();
    let mut slot: Option<MyConnection> = None;
    MyConnection::drop(&mut slot);
    assert!(slot.is_none());
    MyConnection::create(&mut slot, &mut host, MuteSet::new(), Ok(flow_snapshot()));
    MyConnection::drop(&mut slot);
    assert!(slot.is_none());
    MyConnection::drop(&mut slot);
    assert!(MyConnection::magic(&slot).is_none());
    assert_eq!(open_names(&host).len(), 2);
}

#[test]
fn joined_puts_one_text_after_the_other() {
    assert_eq!(joined("a", "b"), "ab");
    assert_eq!(joined("", ""), "");
    let stale = BufferHandle { index: 3 };
    assert_eq!(stale.index, 3);
}
