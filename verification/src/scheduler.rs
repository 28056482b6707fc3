//! The greeting scheduler: tracks, per catalog zone, the local time of
//! the last greeting, and on each tick reports the zones whose local
//! clock stands in the morning acceptance window and which have not been
//! greeted yet on their current local day.

use vstd::prelude::*;

use chrono::Datelike;
use chrono::TimeZone;
use chrono::Timelike;

use crate::catalog::display_name;
use crate::catalog::display_name_spec;
use crate::catalog::zone_names;
use crate::catalog::zones;
use crate::chars::views_of;
use crate::greet_hour;

verus! {

/// One zone's wall-clock reading: local calendar date, hour and minute.
#[derive(Clone, Copy, PartialEq, Eq, Structural)]
pub struct LocalTime {
    pub year: i32,
    pub month: u8,
    pub day: u8,
    pub hour: u8,
    pub minute: u8,
}

/// The calendar ranges every real reading lies in.
pub open spec fn valid_local_time(t: LocalTime) -> bool {
    &&& 1 <= t.month <= 12
    &&& 1 <= t.day <= 31
    &&& t.hour <= 23
    &&& t.minute <= 59
}

/// Two readings on the same local calendar day.
pub open spec fn same_local_day(a: LocalTime, b: LocalTime) -> bool {
    a.year == b.year && a.month == b.month && a.day == b.day
}

/// The acceptance window: the greeting hour, within its first five
/// minutes.  The window is sized to the scheduler's polling cadence so a
/// tick is never missed, without reaching a second greeting hour.
pub open spec fn in_greet_window(t: LocalTime) -> bool {
    t.hour == greet_hour() && t.minute < 5
}

/// Whether a zone with ledger entry `entry` is due at reading `now`:
/// the reading stands in the window and the zone has not been greeted on
/// that local day.
pub open spec fn zone_due(entry: Option<LocalTime>, now: LocalTime) -> bool {
    in_greet_window(now) && match entry {
        Option::None => true,
        Option::Some(prev) => !same_local_day(prev, now),
    }
}

/// The ledger after a tick: each zone with a reading that made it due is
/// stamped with that reading; every other entry is kept.
pub open spec fn ledger_after(
    ledger: Seq<Option<LocalTime>>,
    now: Seq<Option<LocalTime>>,
) -> Seq<Option<LocalTime>> {
    Seq::new(
        ledger.len(),
        |i: int|
            if now[i] is Some && zone_due(ledger[i], now[i]->0) {
                now[i]
            } else {
                ledger[i]
            },
    )
}

/// The display names of the zones among the first `n` that are due, in
/// catalog order.
pub open spec fn due_names(
    ledger: Seq<Option<LocalTime>>,
    now: Seq<Option<LocalTime>>,
    n: int,
) -> Seq<Seq<char>>
    decreases n,
{
    if n <= 0 {
        Seq::empty()
    } else {
        due_names(ledger, now, n - 1) + if now[n - 1] is Some && zone_due(
            ledger[n - 1],
            now[n - 1]->0,
        ) {
            seq![display_name_spec(zone_names()[n - 1])]
        } else {
            Seq::empty()
        }
    }
}

/// Once a zone's greeting has fired at a reading, no tick at a later
/// reading of the same local day fires it again.
pub proof fn lemma_no_second_greeting(
    ledger: Seq<Option<LocalTime>>,
    now1: Seq<Option<LocalTime>>,
    now2: Seq<Option<LocalTime>>,
    i: int,
)
    requires
        0 <= i < ledger.len(),
        now1.len() == ledger.len(),
        now1[i] is Some,
        zone_due(ledger[i], now1[i]->0),
        now2[i] is Some,
        same_local_day(now1[i]->0, now2[i]->0),
    ensures
        !zone_due(ledger_after(ledger, now1)[i], now2[i]->0),
{
}

/// Relies on `str::parse::<chrono_tz::Tz>` (the zone table lookup of
/// chrono-tz), `chrono::Utc::now` and `chrono::TimeZone::from_utc_datetime`:
/// the zone's current wall-clock reading.  The reading depends on the
/// moment of the call, so nothing is promised beyond the calendar ranges
/// that chrono documents for the date and time accessors.
#[verifier::external_body]
fn zone_now(zone: &str) -> (r: Option<LocalTime>)
    ensures
        r is Some ==> valid_local_time(r->0),
{
    let tz: chrono_tz::Tz = match zone.parse() {
        Ok(t) => t,
        Err(_) => return None,
    };
    let t = tz.from_utc_datetime(&chrono::Utc::now().naive_utc());
    Some(
        LocalTime {
            year: t.year(),
            month: t.month() as u8,
            day: t.day() as u8,
            hour: t.hour() as u8,
            minute: t.minute() as u8,
        },
    )
}

/// The scheduler state: the catalog and the per-zone ledger of last
/// greetings.  The ledger starts empty and is never persisted, so after a
/// restart a zone may be greeted once more on the same local day, and
/// never more than once more.
pub struct TimezoneGreeter {
    zone_list: Vec<String>,
    last_greeted: Vec<Option<LocalTime>>,
}

impl TimezoneGreeter {
    /// The catalog is loaded and the ledger covers it.
    pub closed spec fn wf(&self) -> bool {
        views_of(self.zone_list@) == zone_names() && self.last_greeted@.len()
            == zone_names().len()
    }

    /// The per-zone ledger: `None` until a zone's first greeting, then
    /// the reading at which it last fired.
    pub closed spec fn ledger(&self) -> Seq<Option<LocalTime>> {
        self.last_greeted@
    }

    /// A fresh scheduler: full catalog, empty ledger.
    pub fn new() -> (r: TimezoneGreeter)
        ensures
            r.wf(),
            r.ledger().len() == zone_names().len(),
            forall|i: int| 0 <= i < r.ledger().len() ==> r.ledger()[i] is None,
    {
        let zone_list = zones();
        let mut last_greeted: Vec<Option<LocalTime>> = Vec::new();
        let n = zone_list.len();
        let mut i: usize = 0;
        while i < n
            invariant
                i <= n,
                last_greeted@.len() == i,
                forall|j: int| 0 <= j < i ==> last_greeted@[j] is None,
            decreases n - i,
        {
            last_greeted.push(None);
            i = i + 1;
        }
        proof {
            assert(views_of(zone_list@).len() == zone_list@.len());
        }
        TimezoneGreeter { zone_list, last_greeted }
    }

    /// One tick against the given per-zone readings (`None` where no
    /// reading could be had): stamps every newly due zone and returns the
    /// due zones' display names in catalog order, each exactly once.
    pub fn tick_at(&mut self, now: &Vec<Option<LocalTime>>) -> (r: Vec<String>)
        requires
            old(self).wf(),
            now@.len() == zone_names().len(),
        ensures
            final(self).wf(),
            final(self).ledger() == ledger_after(old(self).ledger(), now@),
            views_of(r@) == due_names(old(self).ledger(), now@, zone_names().len() as int),
    {
        let ghost ledger0 = self.last_greeted@;
        let mut r: Vec<String> = Vec::new();
        let n = self.zone_list.len();
        proof {
            assert(views_of(self.zone_list@).len() == self.zone_list@.len());
        }
        let mut i: usize = 0;
        while i < n
            invariant
                i <= n,
                n == zone_names().len(),
                views_of(self.zone_list@) == zone_names(),
                self.zone_list@.len() == n,
                now@.len() == n,
                self.last_greeted@.len() == n,
                ledger0.len() == n,
                forall|j: int|
                    i <= j < n ==> self.last_greeted@[j] == ledger0[j],
                forall|j: int|
                    0 <= j < i ==> self.last_greeted@[j] == ledger_after(ledger0, now@)[j],
                views_of(r@) == due_names(ledger0, now@, i as int),
            decreases n - i,
        {
            let entry = self.last_greeted[i];
            let reading = now[i];
            let ghost r0 = r@;
            match reading {
                Some(t) => {
                    let fresh = match entry {
                        Some(prev) => !(prev.year == t.year && prev.month == t.month
                            && prev.day == t.day),
                        None => true,
                    };
                    if t.hour == 9 && t.minute < 5 && fresh {
                        proof {
                            assert(views_of(self.zone_list@)[i as int] == zone_names()[i as int]);
                        }
                        let name = display_name(self.zone_list[i].as_str());
                        r.push(name);
                        self.last_greeted.set(i, Some(t));
                        proof {
                            assert(views_of(r@) =~= views_of(r0).push(
                                display_name_spec(zone_names()[i as int]),
                            ));
                            assert(views_of(r0).push(display_name_spec(zone_names()[i as int]))
                                =~= views_of(r0) + seq![
                                display_name_spec(zone_names()[i as int]),
                            ]);
                        }
                    }
                },
                None => {},
            }
            i = i + 1;
        }
        proof {
            assert(self.last_greeted@ =~= ledger_after(ledger0, now@));
        }
        r
    }

    /// Reads every catalog zone's current local time and ticks once: the
    /// returned names are exactly the zones that the readings made due,
    /// and the ledger advances by exactly those zones, whatever readings
    /// came back.
    pub fn get_cities_to_greet(&mut self) -> (r: Vec<String>)
        requires
            old(self).wf(),
        ensures
            final(self).wf(),
            exists|ts: Seq<Option<LocalTime>>|
                {
                    &&& ts.len() == zone_names().len()
                    &&& (forall|i: int|
                        0 <= i < ts.len() && (#[trigger] ts[i]) is Some ==> valid_local_time(
                            ts[i]->0,
                        ))
                    &&& final(self).ledger() == ledger_after(old(self).ledger(), ts)
                    &&& views_of(r@) == due_names(
                        old(self).ledger(),
                        ts,
                        zone_names().len() as int,
                    )
                },
    {
        let mut now: Vec<Option<LocalTime>> = Vec::new();
        let n = self.zone_list.len();
        proof {
            assert(views_of(self.zone_list@).len() == self.zone_list@.len());
        }
        let mut i: usize = 0;
        while i < n
            invariant
                i <= n,
                n == self.zone_list@.len(),
                now@.len() == i,
                forall|j: int|
                    0 <= j < i && (#[trigger] now@[j]) is Some ==> valid_local_time(now@[j]->0),
            decreases n - i,
        {
            now.push(zone_now(self.zone_list[i].as_str()));
            i = i + 1;
        }
        let r = self.tick_at(&now);
        proof {
            let ts = now@;
            assert(ts.len() == zone_names().len());
        }
        r
    }
}

} // verus!
