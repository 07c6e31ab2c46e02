//! Plugins that are told of an event, and what they answer.

use vstd::prelude::*;
use crate::chars::{eq_ignore_ascii_case, same_ignoring_ascii_case};
use crate::model::opt_text;
use crate::state::App;

verus! {

/// A plugin, and whether the user enabled it.
#[derive(Debug)]
pub struct Plugin {
    pub id: String,
    pub enabled: bool,
}

/// A plugin that is to be told of an event.
#[derive(Debug)]
pub struct PluginCall {
    pub plugin: String,
    pub event: String,
}

/// A call by its views.
pub open spec fn call_view(call: PluginCall) -> (Seq<char>, Seq<char>) {
    (call.plugin@, call.event@)
}

/// One plugin is told of every event.
pub open spec fn calls_of(plugin: Plugin, events: Seq<String>) -> Seq<(Seq<char>, Seq<char>)> {
    if plugin.enabled {
        events.map_values(|event: String| (plugin.id@, event@))
    } else {
        Seq::empty()
    }
}

/// Every enabled plugin is told of every event, one plugin after the other.
pub open spec fn all_calls(plugins: Seq<Plugin>, events: Seq<String>) -> Seq<
    (Seq<char>, Seq<char>),
>
    decreases plugins.len(),
{
    if plugins.len() == 0 {
        Seq::empty()
    } else {
        all_calls(plugins.drop_last(), events) + calls_of(plugins.last(), events)
    }
}

/// Which plugins to tell of which events, in order.
pub fn plugin_calls(plugins: &Vec<Plugin>, events: &Vec<String>) -> (r: Vec<PluginCall>)
    ensures
        r@.map_values(|call: PluginCall| call_view(call)) == all_calls(plugins@, events@),
{
    let ghost views = |call: PluginCall| call_view(call);
    let mut r: Vec<PluginCall> = Vec::new();
    let mut i: usize = 0;
    assert(r@.map_values(views) =~= all_calls(plugins@.take(0), events@));
    while i < plugins.len()
        invariant
            i <= plugins@.len(),
            views == (|call: PluginCall| call_view(call)),
            r@.map_values(views) == all_calls(plugins@.take(i as int), events@),
        decreases plugins.len() - i,
    {
        let ghost before = r@.map_values(views);
        proof {
            assert(plugins@.take(i + 1).drop_last() =~= plugins@.take(i as int));
            assert(plugins@.take(i + 1).last() == plugins@[i as int]);
        }
        if plugins[i].enabled {
            let ghost calls = calls_of(plugins@[i as int], events@);
            let mut k: usize = 0;
            assert(before =~= before + calls.take(0));
            while k < events.len()
                invariant
                    i < plugins@.len(),
                    k <= events@.len(),
                    views == (|call: PluginCall| call_view(call)),
                    calls == events@.map_values(
                        |event: String| (plugins@[i as int].id@, event@),
                    ),
                    r@.map_values(views) == before + calls.take(k as int),
                decreases events.len() - k,
            {
                let ghost now = r@;
                r.push(PluginCall { plugin: plugins[i].id.clone(), event: events[k].clone() });
                assert(r@.map_values(views) =~= now.map_values(views).push(calls[k as int]));
                assert(before + calls.take(k + 1) =~= (before + calls.take(k as int)).push(
                    calls[k as int],
                ));
                k = k + 1;
            }
            assert(calls.take(events@.len() as int) =~= calls);
        } else {
            assert(before + Seq::<(Seq<char>, Seq<char>)>::empty() =~= before);
        }
        i = i + 1;
    }
    assert(plugins@.take(plugins@.len() as int) =~= plugins@);
    r
}

/// What became of one thing that a plugin asked for.
#[derive(Debug)]
pub enum PluginOutcome {
    Message(String),
    /// A paper was put into a collection; the flag says that this changed anything.
    Collected(bool),
    /// A paper could not be put into a collection.
    NotCollected,
}

/// Anything that the plugins asked for changed a collection.
pub open spec fn any_collected(outcomes: Seq<PluginOutcome>) -> bool {
    exists|i: int| 0 <= i < outcomes.len() && #[trigger] outcomes[i] == PluginOutcome::Collected(true)
}

/// The last message of the plugins.
pub open spec fn last_message(outcomes: Seq<PluginOutcome>) -> Option<Seq<char>>
    decreases outcomes.len(),
{
    if outcomes.len() == 0 {
        None
    } else {
        match outcomes.last() {
            PluginOutcome::Message(text) => Some(text@),
            _ => last_message(outcomes.drop_last()),
        }
    }
}

/// Ends a round of plugins: their last message is shown where they changed a
/// collection. The result says that the lists of the library are to be read anew.
pub fn finish_plugin_events(app: &mut App, outcomes: &Vec<PluginOutcome>) -> (changed: bool)
    ensures
        changed == any_collected(outcomes@),
        *final(app) == (App { toast: final(app).toast, ..*old(app) }),
        changed && last_message(outcomes@) is Some ==> opt_text(final(app).toast) == last_message(
            outcomes@,
        ),
        !(changed && last_message(outcomes@) is Some) ==> final(app).toast == old(app).toast,
        old(app).wf() ==> final(app).wf(),
{
    let mut changed = false;
    let mut message: Option<String> = None;
    let mut i: usize = 0;
    while i < outcomes.len()
        invariant
            i <= outcomes@.len(),
            changed == any_collected(outcomes@.take(i as int)),
            opt_text(message) == last_message(outcomes@.take(i as int)),
        decreases outcomes.len() - i,
    {
        let ghost shorter = outcomes@.take(i as int);
        let ghost longer = outcomes@.take(i + 1);
        proof {
            assert(longer.drop_last() =~= shorter);
            assert(longer.last() == outcomes@[i as int]);
            assert(longer[i as int] == outcomes@[i as int]);
            assert(any_collected(longer) == (any_collected(shorter) || outcomes@[i as int]
                == PluginOutcome::Collected(true))) by {
                if any_collected(shorter) {
                    let k = choose|k: int|
                        0 <= k < shorter.len() && #[trigger] shorter[k] == PluginOutcome::Collected(
                            true,
                        );
                    assert(longer[k] == shorter[k]);
                }
                if any_collected(longer) && outcomes@[i as int] != PluginOutcome::Collected(true) {
                    let k = choose|k: int|
                        0 <= k < longer.len() && #[trigger] longer[k] == PluginOutcome::Collected(
                            true,
                        );
                    assert(shorter[k] == longer[k]);
                }
            }
        }
        match &outcomes[i] {
            PluginOutcome::Message(text) => {
                message = Some(text.clone());
            },
            PluginOutcome::Collected(anything) => {
                if *anything {
                    changed = true;
                }
            },
            PluginOutcome::NotCollected => {},
        }
        i = i + 1;
    }
    assert(outcomes@.take(outcomes@.len() as int) =~= outcomes@);
    if changed && message.is_some() {
        app.toast = message;
    }
    changed
}

/// Whether a plugin that put a paper into a collection changed anything: where the
/// paper was in another one, or its file moved.
pub fn collection_changed(current: &Option<String>, name: &str, moved: bool) -> (r: bool)
    ensures
        r == (moved || !(current matches Some(found) && same_ignoring_ascii_case(found@, name@))),
{
    let already = match current {
        Some(found) => eq_ignore_ascii_case(found.as_str(), name),
        None => false,
    };
    !already || moved
}

/// Every enabled plugin is told of every event, and no other plugin of any: the calls of two
/// lists of plugins are those of the first and then those of the second.
pub proof fn law_plugins_are_told_in_turn(a: Seq<Plugin>, b: Seq<Plugin>, events: Seq<String>)
    ensures
        all_calls(a + b, events) == all_calls(a, events) + all_calls(b, events),
        a.len() == 1 && a[0].enabled ==> all_calls(a, events).len() == events.len() && forall|
            i: int,
        |
            0 <= i < events.len() ==> all_calls(a, events)[i] == (a[0].id@, (#[trigger] events[i])@),
        a.len() == 1 && !a[0].enabled ==> all_calls(a, events).len() == 0,
    decreases b.len(),
{
    if b.len() > 0 {
        law_plugins_are_told_in_turn(a, b.drop_last(), events);
        assert((a + b).drop_last() =~= a + b.drop_last());
        assert(all_calls(a + b, events) =~= all_calls(a, events) + all_calls(b, events));
    } else {
        assert(a + b =~= a);
        assert(all_calls(a, events) + all_calls(b, events) =~= all_calls(a, events));
    }
    if a.len() == 1 {
        assert(all_calls(a.drop_last(), events).len() == 0);
        assert(all_calls(a, events) =~= calls_of(a[0], events));
    }
}

/// The message that is shown is the last one: none comes behind it.
pub proof fn law_the_last_message_is_shown(outcomes: Seq<PluginOutcome>)
    ensures
        match last_message(outcomes) {
            Some(text) => exists|k: int|
                0 <= k < outcomes.len() && (#[trigger] outcomes[k] matches PluginOutcome::Message(m)
                    && m@ == text) && forall|j: int|
                    k < j < outcomes.len() ==> !(#[trigger] outcomes[j] is Message),
            None => forall|j: int| 0 <= j < outcomes.len() ==> !(#[trigger] outcomes[j] is Message),
        },
    decreases outcomes.len(),
{
    if outcomes.len() > 0 {
        let last = outcomes.len() - 1;
        if outcomes[last] is Message {
            assert(last_message(outcomes) == Some(outcomes[last]->Message_0@));
        } else {
            let less = outcomes.drop_last();
            law_the_last_message_is_shown(less);
            match last_message(less) {
                Some(text) => {
                    let k = choose|k: int|
                        0 <= k < less.len() && (#[trigger] less[k] matches PluginOutcome::Message(m)
                            && m@ == text) && forall|j: int|
                            k < j < less.len() ==> !(#[trigger] less[j] is Message);
                    assert(outcomes[k] == less[k]);
                    assert forall|j: int| k < j < outcomes.len() implies !(
                    #[trigger] outcomes[j] is Message) by {
                        if j < last {
                            assert(less[j] == outcomes[j]);
                        }
                    }
                },
                None => {
                    assert forall|j: int| 0 <= j < outcomes.len() implies !(
                    #[trigger] outcomes[j] is Message) by {
                        if j < last {
                            assert(less[j] == outcomes[j]);
                        }
                    }
                },
            }
        }
    }
}

} // verus!
