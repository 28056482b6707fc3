//! What one inbound event does to the subscriber set: "/stop"
//! unsubscribes, anything else — a text, or an event with no text
//! payload at all — is an attempted subscribe.  Treating a payload-free
//! event as a subscribe attempt mirrors a long-standing policy of this
//! bot and is kept deliberately.

use vstd::prelude::*;

use crate::chars::str_eq;
use crate::registry::add_id;
use crate::registry::remove_id;
use crate::registry::SubscriberRegistry;

verus! {

/// What handling one event amounted to.
#[derive(Clone, Copy, PartialEq, Eq, Structural, Debug)]
pub enum UpdateOutcome {
    /// "/stop" from a subscriber: it was removed.
    Unsubscribed,
    /// "/stop" from a non-subscriber: nothing to do.
    StopIgnored,
    /// A subscribe attempt from a subscriber: nothing to do.
    AlreadySubscribed,
    /// A subscribe attempt from a newcomer: it was added.
    Subscribed,
}

/// The view of an optional text payload.
pub open spec fn opt_text_view(text: Option<String>) -> Option<Seq<char>> {
    match text {
        Option::Some(t) => Option::Some(t@),
        Option::None => Option::None,
    }
}

/// Whether a payload is the stop command.
pub open spec fn is_stop(text: Option<Seq<char>>) -> bool {
    text is Some && text->0 == "/stop"@
}

/// The outcome an event has against a subscriber set.
pub open spec fn outcome_spec(ids: Seq<i64>, chat_id: i64, text: Option<Seq<char>>) -> UpdateOutcome {
    if is_stop(text) {
        if ids.contains(chat_id) {
            UpdateOutcome::Unsubscribed
        } else {
            UpdateOutcome::StopIgnored
        }
    } else {
        if ids.contains(chat_id) {
            UpdateOutcome::AlreadySubscribed
        } else {
            UpdateOutcome::Subscribed
        }
    }
}

/// The subscriber set after an event.
pub open spec fn ids_after(ids: Seq<i64>, chat_id: i64, text: Option<Seq<char>>) -> Seq<i64> {
    if is_stop(text) {
        remove_id(ids, chat_id)
    } else {
        add_id(ids, chat_id)
    }
}

/// Applies one inbound event to the registry and reports what happened.
/// The set changes exactly for `Unsubscribed` and `Subscribed`, the two
/// outcomes after which a snapshot is worth persisting.
pub fn handle_update(
    registry: &mut SubscriberRegistry,
    chat_id: i64,
    text: &Option<String>,
) -> (r: UpdateOutcome)
    requires
        old(registry).wf(),
    ensures
        final(registry).wf(),
        r == outcome_spec(old(registry)@, chat_id, opt_text_view(*text)),
        final(registry)@ == ids_after(old(registry)@, chat_id, opt_text_view(*text)),
{
    let stop = match text {
        Some(t) => str_eq(t.as_str(), "/stop"),
        None => false,
    };
    if stop {
        if registry.remove(chat_id) {
            UpdateOutcome::Unsubscribed
        } else {
            UpdateOutcome::StopIgnored
        }
    } else {
        if registry.add(chat_id) {
            UpdateOutcome::Subscribed
        } else {
            UpdateOutcome::AlreadySubscribed
        }
    }
}

/// Whether an outcome mutated the set, and so whether the stored
/// snapshot is stale.
pub fn outcome_persists(outcome: &UpdateOutcome) -> (r: bool)
    ensures
        r == (outcome is Unsubscribed || outcome is Subscribed),
{
    match outcome {
        UpdateOutcome::Unsubscribed => true,
        UpdateOutcome::Subscribed => true,
        UpdateOutcome::StopIgnored => false,
        UpdateOutcome::AlreadySubscribed => false,
    }
}

/// The reply each outcome earns; none for an ignored stop.
pub open spec fn reply_spec(outcome: UpdateOutcome) -> Option<Seq<char>> {
    match outcome {
        UpdateOutcome::Unsubscribed => Option::Some("OK, I won't greet you anymore. :'("@),
        UpdateOutcome::StopIgnored => Option::None,
        UpdateOutcome::AlreadySubscribed => Option::Some(
            "You are already being greeted! Chill. :P"@,
        ),
        UpdateOutcome::Subscribed => Option::Some("I'll greet you when it's morning. :)"@),
    }
}

/// The reply to send for an outcome.
pub fn reply_for_outcome(outcome: &UpdateOutcome) -> (r: Option<String>)
    ensures
        r is Some <==> reply_spec(*outcome) is Some,
        r is Some ==> r->0@ == reply_spec(*outcome)->0,
{
    match outcome {
        UpdateOutcome::Unsubscribed => Some(String::from_str("OK, I won't greet you anymore. :'(")),
        UpdateOutcome::StopIgnored => None,
        UpdateOutcome::AlreadySubscribed => Some(
            String::from_str("You are already being greeted! Chill. :P"),
        ),
        UpdateOutcome::Subscribed => Some(String::from_str("I'll greet you when it's morning. :)")),
    }
}

/// The text an event is logged and matched with: its payload, or a
/// sentinel for an event that carried none.
pub fn effective_text(text: &Option<String>) -> (r: String)
    ensures
        r@ == match opt_text_view(*text) {
            Option::Some(t) => t,
            Option::None => "[no message]"@,
        },
{
    match text {
        Some(t) => t.clone(),
        None => String::from_str("[no message]"),
    }
}

} // verus!
