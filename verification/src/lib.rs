//! A push-notification greeter: keeps a registry of subscribers, polls for
//! inbound commands with a monotonic watermark, and greets each time zone
//! once per local day at the target hour.

use vstd::prelude::*;

pub mod catalog;
pub mod chars;
pub mod codec;
pub mod commands;
pub mod composer;
pub mod config;
pub mod decimal;
pub mod registry;
pub mod scheduler;
pub mod telegram;

verus! {

/// The hour of local time (24-hour clock) at which a zone becomes due for
/// its daily greeting.
pub open spec fn greet_hour() -> int {
    9
}

} // verus!
