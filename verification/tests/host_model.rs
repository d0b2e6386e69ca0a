use weecord::host::{BufferHandle, Host, HostAction, Line, NotifyTag};

#[test]
fn new_host_is_empty() {
    let host = Host::new();
    assert!(host.buffers.is_empty());
    assert!(host.main.is_empty());
    assert!(host.journal.is_empty());
}

#[test]
fn create_gives_consecutive_handles_and_refuses_a_taken_name() {
    let mut host = Host::new();
    let first = host.create("one").unwrap();
    let second = host.create("two").unwrap();
    assert_eq!(first, BufferHandle { index: 0 });
    assert_eq!(second, BufferHandle { index: 1 });
    assert_eq!(host.create("one"), None);
    assert_eq!(host.buffers.len(), 2);
    assert_eq!(host.journal.len(), 2);
    assert_eq!(
        host.journal[0],
        HostAction::Create { handle: first, name: "one".to_string() }
    );
}

#[test]
fn search_finds_open_buffers_only() {
    let mut host = Host::new();
    let first = host.create("one").unwrap();
    assert_eq!(host.search("one"), Some(first));
    assert_eq!(host.search("two"), None);
    host.close(first);
    assert_eq!(host.search("one"), None);
    assert!(!host.is_open(first));
    let again = host.create("one").unwrap();
    assert_eq!(again, BufferHandle { index: 1 });
    assert_eq!(host.search("one"), Some(again));
}

#[test]
fn properties_are_last_write_wins() {
    let mut host = Host::new();
    let buffer = host.create("one").unwrap();
    assert_eq!(host.get_property(buffer, "title"), None);
    host.set_property(buffer, "title", "first");
    host.set_property(buffer, "short_name", "s");
    host.set_property(buffer, "title", "second");
    assert_eq!(host.get_property(buffer, "title"), Some("second".to_string()));
    assert_eq!(host.get_property(buffer, "short_name"), Some("s".to_string()));
    assert_eq!(host.buffers[0].props.len(), 2);
    assert_eq!(host.journal.len(), 4);
}

#[test]
fn nick_list_adds_at_the_end_and_removes_the_first_occurrence() {
    let mut host = Host::new();
    let buffer = host.create("one").unwrap();
    host.add_nick(buffer, "ann");
    host.add_nick(buffer, "bob");
    host.add_nick(buffer, "ann");
    host.remove_nick(buffer, "ann");
    assert_eq!(host.buffers[0].nicks, vec!["bob".to_string(), "ann".to_string()]);
    host.remove_nick(buffer, "nobody");
    assert_eq!(host.buffers[0].nicks, vec!["bob".to_string(), "ann".to_string()]);
}

#[test]
fn print_and_clear_change_the_lines_of_one_buffer() {
    let mut host = Host::new();
    let one = host.create("one").unwrap();
    let two = host.create("two").unwrap();
    host.print(one, Some(7), Some(NotifyTag::Message), "hello");
    host.print(two, None, None, "other");
    assert_eq!(host.buffers[0].lines, vec![Line { date: Some(7), text: "hello".to_string() }]);
    host.clear(one);
    assert!(host.buffers[0].lines.is_empty());
    assert_eq!(host.buffers[1].lines, vec![Line { date: None, text: "other".to_string() }]);
}

#[test]
fn print_records_the_tag_in_the_journal() {
    let mut host = Host::new();
    let one = host.create("one").unwrap();
    host.print(one, Some(7), Some(NotifyTag::Highlight), "hello");
    assert_eq!(
        host.journal[1],
        HostAction::Print {
            handle: one,
            date: Some(7),
            tag: Some(NotifyTag::Highlight),
            text: "hello".to_string()
        }
    );
}

#[test]
fn main_buffer_takes_undated_lines() {
    let mut host = Host::new();
    host.print_main("hello");
    assert_eq!(host.main, vec![Line { date: None, text: "hello".to_string() }]);
    assert_eq!(host.journal, vec![HostAction::PrintMain { text: "hello".to_string() }]);
}

#[test]
fn take_journal_hands_out_the_actions_in_order_and_empties_it() {
    let mut host = Host::new();
    let one = host.create("one").unwrap();
    host.add_nick(one, "ann");
    let actions = host.take_journal();
    assert_eq!(
        actions,
        vec![
            HostAction::Create { handle: one, name: "one".to_string() },
            HostAction::AddNick { handle: one, nick: "ann".to_string() },
        ]
    );
    assert!(host.journal.is_empty());
    assert_eq!(host.buffers.len(), 1);
    assert_eq!(host.buffers[0].nicks, vec!["ann".to_string()]);
}
