//! The buffer that shows the plugin's tracing events.

use vstd::prelude::*;
use crate::host::{ActionView, Host, HostView};

verus! {

/// The tracing buffer.
pub struct Debug;

/// The most bytes of one write that reach the tracing buffer.
pub const WRITE_LIMIT: usize = 4500;

/// Creating the tracing buffer: it gets its title, stays out of the hotlist
/// and never notifies.
pub open spec fn tracing_actions(host: HostView) -> Seq<ActionView> {
    seq![
        ActionView::Create { handle: host.fresh(), name: "weecord.tracing"@ },
        ActionView::SetProperty {
            handle: host.fresh(),
            key: "title"@,
            value: "Tracing events for weecord"@,
        },
        ActionView::SetProperty { handle: host.fresh(), key: "hotlist"@, value: "-"@ },
        ActionView::SetProperty { handle: host.fresh(), key: "notify"@, value: "0"@ },
    ]
}

impl Debug {
    /// Creates the tracing buffer, unless a buffer of its name is open.
    pub fn create_buffer(host: &mut Host)
        ensures
            final(host)@ == if old(host)@.name_free("weecord.tracing"@) {
                old(host)@.after_all(tracing_actions(old(host)@))
            } else {
                old(host)@
            },
            old(host)@.wf() ==> final(host)@.wf(),
    {
        if let Some(buffer) = host.create("weecord.tracing") {
            host.set_property(buffer, "title", "Tracing events for weecord");
            host.set_property(buffer, "hotlist", "-");
            host.set_property(buffer, "notify", "0");
            proof {
                let actions = tracing_actions(old(host)@);
                old(host)@.lemma_after_one(actions[0]);
                old(host)@.lemma_after_push(seq![actions[0]], actions[1]);
                old(host)@.lemma_after_push(seq![actions[0], actions[1]], actions[2]);
                old(host)@.lemma_after_push(seq![actions[0], actions[1], actions[2]], actions[3]);
                assert(seq![actions[0]].push(actions[1]) =~= seq![actions[0], actions[1]]);
                assert(seq![actions[0], actions[1]].push(actions[2]) =~= seq![
                    actions[0],
                    actions[1],
                    actions[2],
                ]);
                assert(seq![actions[0], actions[1], actions[2]].push(actions[3]) =~= actions);
                old(host)@.lemma_after_all_keeps(actions);
            }
        }
    }

    /// Prints a tracing message to the tracing buffer, if it is open.
    pub fn write_to_buffer(host: &mut Host, message: &str)
        requires
            old(host)@.wf(),
        ensures
            final(host)@ == if old(host)@.name_free("weecord.tracing"@) {
                old(host)@
            } else {
                old(host)@.after(
                    ActionView::Print {
                        handle: old(host)@.named("weecord.tracing"@),
                        date: None,
                        tag: None,
                        text: message@,
                    },
                )
            },
    {
        if let Some(buffer) = host.search("weecord.tracing") {
            proof {
                host@.lemma_named(buffer, "weecord.tracing"@);
            }
            host.print(buffer, None, None, message);
        }
    }

    /// Takes a write of tracing output. Unless the plugin is shutting down,
    /// the first `WRITE_LIMIT` bytes are what goes to the tracing buffer. The
    /// whole write counts as taken either way.
    pub fn write(buf: &[u8], shutting_down: bool) -> (taken: (Option<Vec<u8>>, usize))
        ensures
            taken.1 == buf@.len(),
            shutting_down ==> taken.0.is_none(),
            !shutting_down ==> (taken.0 matches Some(bytes) && bytes@ == buf@.take(
                if buf@.len() < WRITE_LIMIT {
                    buf@.len() as int
                } else {
                    WRITE_LIMIT as int
                },
            )),
    {
        if shutting_down {
            return (None, buf.len());
        }
        let limit: usize = if buf.len() < WRITE_LIMIT {
            buf.len()
        } else {
            WRITE_LIMIT
        };
        let mut bytes: Vec<u8> = Vec::new();
        let mut i: usize = 0;
        while i < limit
            invariant
                i <= limit <= buf@.len(),
                bytes@ == buf@.take(i as int),
            decreases limit - i,
        {
            bytes.push(buf[i]);
            proof {
                assert(bytes@ =~= buf@.take(i + 1));
            }
            i = i + 1;
        }
        (Some(bytes), buf.len())
    }

    /// Nothing is held back, so there is nothing to flush.
    pub fn flush() {
    }
}

} // verus!
