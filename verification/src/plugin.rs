//! What the plugin says to the user, and how it picks the token to connect
//! with.

use vstd::prelude::*;
use crate::host::{ActionView, Host};

verus! {

/// Prints a line of the plugin to the main buffer, under the plugin's prefix.
pub fn plugin_print(host: &mut Host, msg: &str)
    ensures
        final(host)@ == old(host)@.after(ActionView::PrintMain { text: "discord: "@ + msg@ }),
{
    let mut line = String::from_str("discord: ");
    line.append(msg);
    host.print_main(line.as_str());
}

/// Whether `text` begins with `prefix`.
pub fn starts_with(text: &str, prefix: &str) -> (begins: bool)
    ensures
        begins == prefix@.is_prefix_of(text@),
{
    let length = prefix.unicode_len();
    if text.unicode_len() < length {
        return false;
    }
    let mut i: usize = 0;
    while i < length
        invariant
            i <= length,
            length == prefix@.len(),
            length <= text@.len(),
            forall|j: int| 0 <= j < i ==> text@[j] == prefix@[j],
        decreases length - i,
    {
        if text.get_char(i) != prefix.get_char(i) {
            proof {
                assert(text@.subrange(0, length as int)[i as int] != prefix@[i as int]);
            }
            return false;
        }
        i = i + 1;
    }
    proof {
        assert(prefix@ =~= text@.subrange(0, length as int));
    }
    true
}

/// Whether the configured token is an expression over the host's secured
/// data, which the host has to evaluate before it can be used.
pub fn needs_evaluation(token: &str) -> (needed: bool)
    ensures
        needed == "${sec.data"@.is_prefix_of(token@),
{
    starts_with(token, "${sec.data")
}

/// The lines that tell the user that no token is set.
pub open spec fn token_missing_lines() -> Seq<ActionView> {
    seq![
        ActionView::PrintMain { text: "Error: weecord.main.token is not set. To set it, run:"@ },
        ActionView::PrintMain { text: "/discord token 123456789ABCDEF"@ },
    ]
}

/// Picks the token to connect with. `token` is the configured token, after
/// the host evaluated it where `needs_evaluation` asked for that, or `None`
/// where the evaluation failed. With a connection in place nothing is picked
/// and a line says so; an empty token and a failed evaluation are told to the
/// user; any other token is the one to connect with.
pub fn connect(host: &mut Host, connected: bool, token: Option<String>) -> (chosen: Option<String>)
    ensures
        connected ==> chosen.is_none() && final(host)@ == old(host)@.after(
            ActionView::PrintMain { text: "discord: "@ + "Already connected"@ },
        ),
        !connected ==> match token {
            Some(text) => if text@.len() > 0 {
                chosen == Some(text) && final(host)@ == old(host)@
            } else {
                chosen.is_none() && final(host)@ == old(host)@.after_all(token_missing_lines())
            },
            None => chosen.is_none() && final(host)@ == old(host)@.after(
                ActionView::PrintMain {
                    text: "Error: failed to evaluate token option, expected valid ${sec.data...}"@,
                },
            ),
        },
{
    if connected {
        plugin_print(host, "Already connected");
        return None;
    }
    match token {
        Some(text) => {
            if text.as_str().unicode_len() > 0 {
                Some(text)
            } else {
                host.print_main("Error: weecord.main.token is not set. To set it, run:");
                host.print_main("/discord token 123456789ABCDEF");
                proof {
                    let lines = token_missing_lines();
                    old(host)@.lemma_after_one(lines[0]);
                    old(host)@.lemma_after_push(seq![lines[0]], lines[1]);
                    assert(seq![lines[0]].push(lines[1]) =~= lines);
                }
                None
            }
        },
        None => {
            host.print_main(
                "Error: failed to evaluate token option, expected valid ${sec.data...}",
            );
            None
        },
    }
}

} // verus!
