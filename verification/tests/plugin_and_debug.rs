use weecord::buffer::debug::WRITE_LIMIT;
use weecord::discord::custom_commands::{
    GuildSubscription, GuildSubscriptionFull, GuildSubscriptionInfo, GuildSubscriptionMinimal,
};
use weecord::host::{Host, Line};
use weecord::plugin::{connect, needs_evaluation, plugin_print, starts_with};

#[test]
fn plugin_print_prefixes_the_line() {
    let mut host = Host::new();
    plugin_print(&mut host, "Already connected");
    assert_eq!(host.main, vec![Line { date: None, text: "discord: Already connected".to_string() }]);
}

#[test]
fn starts_with_compares_the_beginning() {
    assert!(starts_with("hello", "he"));
    assert!(starts_with("hello", ""));
    assert!(starts_with("hello", "hello"));
    assert!(!starts_with("hello", "hello!"));
    assert!(!starts_with("hello", "ha"));
    assert!(!starts_with("", "a"));
    assert!(starts_with("naïve", "naï"));
}

#[test]
fn secured_tokens_need_evaluation() {
    assert!(needs_evaluation("${sec.data.discord_token}"));
    assert!(!needs_evaluation("mfa.abcdef"));
    assert!(!needs_evaluation("${sec.dat"));
    assert!(!needs_evaluation(""));
}

#[test]
fn connect_picks_a_token_that_is_set() {
    let mut host = Host::new();
    assert_eq!(connect(&mut host, false, Some("abc".to_string())), Some("abc".to_string()));
    assert!(host.main.is_empty());
}

#[test]
fn connect_with_a_connection_in_place_says_so() {
    let mut host = Host::new();
    assert_eq!(connect(&mut host, true, Some("abc".to_string())), None);
    assert_eq!(host.main[0].text, "discord: Already connected");
    assert_eq!(host.main.len(), 1);
}

#[test]
fn connect_without_a_token_tells_how_to_set_one() {
    let mut host = Host::new();
    assert_eq!(connect(&mut host, false, Some(String::new())), None);
    let texts: Vec<String> = host.main.iter().map(|line| line.text.clone()).collect();
    assert_eq!(
        texts,
        vec![
            "Error: weecord.main.token is not set. To set it, run:".to_string(),
            "/discord token 123456789ABCDEF".to_string(),
        ]
    );
}

#[test]
fn connect_after_a_failed_evaluation_says_so() {
    let mut host = Host::new();
    assert_eq!(connect(&mut host, false, None), None);
    assert_eq!(
        host.main,
        vec![Line {
            date: None,
            text: "Error: failed to evaluate token option, expected valid ${sec.data...}"
                .to_string()
        }]
    );
}

#[test]
fn tracing_buffer_is_created_once() {
    let mut host = Host::new();
    weecord::buffer::debug::Debug::create_buffer(&mut host);
    let buffer = host.search("weecord.tracing").unwrap();
    assert_eq!(host.get_property(buffer, "title"), Some("Tracing events for weecord".to_string()));
    assert_eq!(host.get_property(buffer, "hotlist"), Some("-".to_string()));
    assert_eq!(host.get_property(buffer, "notify"), Some("0".to_string()));
    let journal = host.journal.len();
    weecord::buffer::debug::Debug::create_buffer(&mut host);
    assert_eq!(host.journal.len(), journal);
    assert_eq!(host.buffers.len(), 1);
}

#[test]
fn tracing_messages_go_to_the_tracing_buffer_if_it_is_there() {
    let mut host = Host::new();
    weecord::buffer::debug::Debug::write_to_buffer(&mut host, "lost");
    assert!(host.journal.is_empty());
    weecord::buffer::debug::Debug::create_buffer(&mut host);
    weecord::buffer::debug::Debug::write_to_buffer(&mut host, "kept");
    let buffer = host.search("weecord.tracing").unwrap();
    assert_eq!(host.buffers[buffer.index].lines, vec![Line { date: None, text: "kept".to_string() }]);
}

#[test]
fn tracing_writes_are_cut_at_the_limit() {
    assert_eq!(WRITE_LIMIT, 4500);
    let short = vec![7u8; 10];
    assert_eq!(weecord::buffer::debug::Debug::write(&short, false), (Some(short.clone()), 10));
    let exact = vec![1u8; 4500];
    assert_eq!(weecord::buffer::debug::Debug::write(&exact, false), (Some(exact.clone()), 4500));
    let mut long = vec![2u8; 4500];
    long.extend(vec![3u8; 100]);
    let (chunk, taken) = weecord::buffer::debug::Debug::write(&long, false);
    assert_eq!(taken, 4600);
    assert_eq!(chunk, Some(vec![2u8; 4500]));
    assert_eq!(weecord::buffer::debug::Debug::write(&[], false), (Some(vec![]), 0));
    weecord::buffer::debug::Debug::flush();
}

#[test]
fn tracing_writes_during_shutdown_are_dropped_but_counted() {
    let long = vec![2u8; 5000];
    assert_eq!(weecord::buffer::debug::Debug::write(&long, true), (None, 5000));
}

#[test]
fn guild_subscription_holds_its_fields() {
    let mut channels = std::collections::HashMap::new();
    channels.insert(5u64, vec![vec![0u8, 99u8]]);
    let minimal = GuildSubscription {
        d: GuildSubscriptionInfo::Minimal(GuildSubscriptionMinimal {
            guild_id: 1,
            channels: channels.clone(),
        }),
        op: 14,
    };
    assert_eq!(minimal.op, 14);
    let full = GuildSubscriptionInfo::Full(GuildSubscriptionFull {
        guild_id: 1,
        typing: true,
        activities: false,
        threads: true,
        channels,
    });
    match full {
        GuildSubscriptionInfo::Full(full) => {
            assert!(full.typing && full.threads && !full.activities);
            assert_eq!(full.channels[&5], vec![vec![0u8, 99u8]]);
        }
        GuildSubscriptionInfo::Minimal(_) => panic!("wrong variant"),
    }
}
