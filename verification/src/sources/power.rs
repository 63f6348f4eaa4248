//! Where power comes from, and which readings of it are worth reporting.

use crate::event::{PowerChange, PowerSource, Topic};
use crate::source::{described, SourceId};
use crate::sources::{describe, known};
use crate::text::same;
use vstd::prelude::*;

verus! {

/// A key in what describes a power source, or the adapter.
#[derive(Debug, Clone, Copy, PartialEq, Eq, Structural)]
pub enum PowerKey {
    /// Which kind of source an entry describes.
    Type,
    /// Charge now, in whatever unit the source counts in.
    CurrentCapacity,
    /// Charge when full, in the same unit.
    MaxCapacity,
    /// Whether the source is taking charge.
    IsCharging,
    TimeToEmpty,
    TimeToFullCharge,
    /// What the adapter says it can supply.
    AdapterWatts,
}

/// The spelling of a key.
pub open spec fn power_key_text(key: PowerKey) -> Seq<char> {
    match key {
        PowerKey::Type => "Type"@,
        PowerKey::CurrentCapacity => "Current Capacity"@,
        PowerKey::MaxCapacity => "Max Capacity"@,
        PowerKey::IsCharging => "Is Charging"@,
        PowerKey::TimeToEmpty => "Time to Empty"@,
        PowerKey::TimeToFullCharge => "Time to Full Charge"@,
        PowerKey::AdapterWatts => "Watts"@,
    }
}

impl PowerKey {
    /// The spelling of this key.
    pub fn name(self) -> (r: &'static str)
        ensures
            r@ == power_key_text(self),
    {
        match self {
            PowerKey::Type => "Type",
            PowerKey::CurrentCapacity => "Current Capacity",
            PowerKey::MaxCapacity => "Max Capacity",
            PowerKey::IsCharging => "Is Charging",
            PowerKey::TimeToEmpty => "Time to Empty",
            PowerKey::TimeToFullCharge => "Time to Full Charge",
            PowerKey::AdapterWatts => "Watts",
        }
    }
}

/// A key in what the battery itself measures.
#[derive(Debug, Clone, Copy, PartialEq, Eq, Structural)]
pub enum BatteryKey {
    /// Current in milliamperes: negative discharging, positive charging.
    Amperage,
    /// Voltage in millivolts.
    Voltage,
}

impl BatteryKey {
    /// The spelling of this key.
    pub fn name(self) -> (r: &'static str)
        ensures
            r@ == match self {
                BatteryKey::Amperage => "Amperage"@,
                BatteryKey::Voltage => "Voltage"@,
            },
    {
        match self {
            BatteryKey::Amperage => "Amperage",
            BatteryKey::Voltage => "Voltage",
        }
    }
}

/// The kind an internal battery reports itself as.
pub const INTERNAL_BATTERY: &'static str = "InternalBattery";

/// Which side the machine is drawing from, with nothing attached.
#[derive(Debug, Clone, Copy, PartialEq, Eq, Structural)]
pub enum Side {
    Ac,
    Battery,
    Unknown,
}

/// The side a providing source is, where there is one.
pub open spec fn side_of(kind: Option<Seq<char>>) -> Side {
    match kind {
        Some(kind) => if kind == "AC Power"@ {
            Side::Ac
        } else if kind == "Battery Power"@ {
            Side::Battery
        } else {
            Side::Unknown
        },
        None => Side::Unknown,
    }
}

impl Side {
    /// The side a providing source is, where there is one.
    pub fn of(kind: &Option<String>) -> (r: Side)
        ensures
            r == side_of(crate::modules::part(*kind)),
    {
        match kind {
            Some(kind) => if same(kind, "AC Power") {
                Side::Ac
            } else if same(kind, "Battery Power") {
                Side::Battery
            } else {
                Side::Unknown
            },
            None => Side::Unknown,
        }
    }
}

/// What describes one power source, as far as it says.
#[derive(Debug, Clone, PartialEq, Eq)]
pub struct Described {
    pub kind: Option<String>,
    pub current: Option<i64>,
    pub max: Option<i64>,
    pub charging: Option<bool>,
    pub time_to_empty: Option<i64>,
    pub time_to_full: Option<i64>,
}

/// What an internal battery says of itself.
#[derive(Debug, Clone, Copy, PartialEq, Eq, Structural)]
pub struct BatteryReading {
    pub charge: u8,
    pub charging: bool,
    pub time_to_empty_minutes: Option<u32>,
    pub time_to_full_minutes: Option<u32>,
}

/// A size without its sign.
pub open spec fn magnitude(n: int) -> int {
    if n < 0 {
        -n
    } else {
        n
    }
}

/// How full something is, in whole percent, none of it where the two differ in
/// sign and never more than all of it.
pub open spec fn percent(current: int, max: int) -> int {
    if current == 0 || (current > 0) != (max > 0) {
        0
    } else {
        let filled = magnitude(current) * 100 / magnitude(max);
        if filled > 100 {
            100
        } else {
            filled
        }
    }
}

/// How full a battery is, in whole percent.
pub fn charge_percent(current: i64, max: i64) -> (r: u8)
    requires
        max != 0,
    ensures
        r == percent(current as int, max as int),
        r <= 100,
{
    if current == 0 || (current > 0) != (max > 0) {
        return 0;
    }
    let now: i128 = if current < 0 {
        -(current as i128)
    } else {
        current as i128
    };
    let full: i128 = if max < 0 {
        -(max as i128)
    } else {
        max as i128
    };
    let filled: u128 = (now as u128) * 100 / (full as u128);
    if filled > 100 {
        100
    } else {
        filled as u8
    }
}

/// A count of minutes, where it is one.
pub open spec fn minutes(said: Option<i64>) -> Option<u32> {
    match said {
        Some(m) => if 0 <= m <= u32::MAX {
            Some(m as u32)
        } else {
            None
        },
        None => None,
    }
}

/// A number that fits, where it does.
fn fitting(said: Option<i64>) -> (r: Option<u32>)
    ensures
        r == minutes(said),
{
    match said {
        Some(m) => if 0 <= m && m <= 4294967295 {
            Some(m as u32)
        } else {
            None
        },
        None => None,
    }
}

/// What an internal battery's entry says. Only the estimate for the way it is
/// going is asked for, since the other is not always marked as not applying.
pub open spec fn reading_of(entry: Described) -> Option<BatteryReading> {
    match entry.max {
        None => None,
        Some(max) => if max <= 0 {
            None
        } else {
            match entry.current {
                None => None,
                Some(current) => {
                    let charging = entry.charging == Some(true);
                    Some(
                        BatteryReading {
                            charge: percent(current as int, max as int) as u8,
                            charging,
                            time_to_empty_minutes: if charging {
                                None
                            } else {
                                minutes(entry.time_to_empty)
                            },
                            time_to_full_minutes: if charging {
                                minutes(entry.time_to_full)
                            } else {
                                None
                            },
                        },
                    )
                },
            }
        },
    }
}

/// Whether an entry is an internal battery's.
pub open spec fn is_internal(entry: Described) -> bool {
    crate::modules::part(entry.kind) == Some(INTERNAL_BATTERY@)
}

/// The first internal battery's entry.
pub open spec fn first_internal(entries: Seq<Described>) -> Option<Described>
    decreases entries.len(),
{
    if entries.len() == 0 {
        None
    } else if is_internal(entries[0]) {
        Some(entries[0])
    } else {
        first_internal(entries.skip(1))
    }
}

/// What the internal battery says of itself, where there is one that does.
pub open spec fn battery_of(entries: Seq<Described>) -> Option<BatteryReading> {
    match first_internal(entries) {
        Some(entry) => reading_of(entry),
        None => None,
    }
}

/// What an internal battery's entry says.
fn read_entry(entry: &Described) -> (r: Option<BatteryReading>)
    ensures
        r == reading_of(*entry),
{
    let max = match entry.max {
        Some(max) => max,
        None => {
            return None;
        },
    };
    if max <= 0 {
        return None;
    }
    let current = match entry.current {
        Some(current) => current,
        None => {
            return None;
        },
    };
    let charging = match entry.charging {
        Some(charging) => charging,
        None => false,
    };
    Some(
        BatteryReading {
            charge: charge_percent(current, max),
            charging,
            time_to_empty_minutes: if charging {
                None
            } else {
                fitting(entry.time_to_empty)
            },
            time_to_full_minutes: if charging {
                fitting(entry.time_to_full)
            } else {
                None
            },
        },
    )
}

/// What the internal battery says of itself, where there is one that does.
pub fn internal_battery(entries: &Vec<Described>) -> (r: Option<BatteryReading>)
    ensures
        r == battery_of(entries@),
{
    let mut i: usize = 0;
    assert(entries@.skip(0) =~= entries@);
    while i < entries.len()
        invariant
            i <= entries@.len(),
            first_internal(entries@) == first_internal(entries@.skip(i as int)),
        decreases entries@.len() - i,
    {
        assert(entries@.skip(i as int)[0] == entries@[i as int]);
        assert(entries@.skip(i as int).skip(1) =~= entries@.skip(i + 1));
        let internal = match &entries[i].kind {
            Some(kind) => same(kind, INTERNAL_BATTERY),
            None => false,
        };
        if internal {
            return read_entry(&entries[i]);
        }
        i = i + 1;
    }
    None
}

/// What the adapter says it can supply, where it says a number of watts.
pub fn adapter_watts(said: Option<i64>) -> (r: Option<u32>)
    ensures
        r == minutes(said),
{
    fitting(said)
}

/// The power going through the battery in whole watts, to the nearest one:
/// milliamperes times millivolts, whichever way it is going.
pub open spec fn watts_of(amperage: Option<i64>, voltage: Option<i64>) -> Option<u32> {
    match (amperage, voltage) {
        (Some(milliamps), Some(millivolts)) => {
            let microwatts = magnitude(milliamps as int) * millivolts;
            let watts = (microwatts + 500_000) / 1_000_000;
            if millivolts < 0 || watts > u32::MAX {
                None
            } else {
                Some(watts as u32)
            }
        },
        _ => None,
    }
}

/// The power going through the battery in whole watts, to the nearest one.
pub fn measured_watts(amperage: Option<i64>, voltage: Option<i64>) -> (r: Option<u32>)
    ensures
        r == watts_of(amperage, voltage),
{
    match (amperage, voltage) {
        (Some(milliamps), Some(millivolts)) => {
            if millivolts < 0 {
                return None;
            }
            let size: i128 = if milliamps < 0 {
                -(milliamps as i128)
            } else {
                milliamps as i128
            };
            let amps: u128 = size as u128;
            let volts: u128 = millivolts as u128;
            assert(0 <= amps * volts <= 9223372036854775808 * 9223372036854775808)
                by (nonlinear_arith)
                requires
                    0 <= amps <= 9223372036854775808,
                    0 <= volts <= 9223372036854775808,
            ;
            let watts: u128 = (amps * volts + 500_000) / 1_000_000;
            if watts > 4294967295 {
                None
            } else {
                Some(watts as u32)
            }
        },
        _ => None,
    }
}

/// Everything one look at the power situation finds.
#[derive(Debug, Clone, PartialEq, Eq)]
pub struct Found {
    /// What the machine says it is drawing from.
    pub providing: Option<String>,
    pub sources: Vec<Described>,
    /// What the adapter says it can supply.
    pub adapter: Option<i64>,
    pub amperage: Option<i64>,
    pub voltage: Option<i64>,
}

/// Everything one reading of the power situation says.
#[derive(Debug, Clone, Copy, PartialEq, Eq, Structural)]
pub struct Snapshot {
    pub power_source: PowerSource,
    pub watts: Option<u32>,
    pub charge: Option<u8>,
}

/// What a look at the power situation says, where there was one.
pub open spec fn snapshot_of(found: Option<Found>) -> Snapshot {
    match found {
        None => Snapshot { power_source: PowerSource::Unknown, watts: None, charge: None },
        Some(found) => {
            let battery = battery_of(found.sources@);
            Snapshot {
                power_source: match side_of(crate::modules::part(found.providing)) {
                    Side::Ac => PowerSource::Ac {
                        adapter_watts: minutes(found.adapter),
                        charging: battery matches Some(b) && b.charging,
                        time_to_full_minutes: match battery {
                            Some(b) => b.time_to_full_minutes,
                            None => None,
                        },
                    },
                    Side::Battery => PowerSource::Battery {
                        time_to_empty_minutes: match battery {
                            Some(b) => b.time_to_empty_minutes,
                            None => None,
                        },
                    },
                    Side::Unknown => PowerSource::Unknown,
                },
                watts: watts_of(found.amperage, found.voltage),
                charge: match battery {
                    Some(b) => Some(b.charge),
                    None => None,
                },
            }
        },
    }
}

/// What a look at the power situation says, where there was one.
pub fn read(found: &Option<Found>) -> (r: Snapshot)
    ensures
        r == snapshot_of(*found),
{
    match found {
        None => Snapshot { power_source: PowerSource::Unknown, watts: None, charge: None },
        Some(found) => {
            let battery = internal_battery(&found.sources);
            let charging = match battery {
                Some(b) => b.charging,
                None => false,
            };
            let power_source = match Side::of(&found.providing) {
                Side::Ac => PowerSource::Ac {
                    adapter_watts: adapter_watts(found.adapter),
                    charging,
                    time_to_full_minutes: match battery {
                        Some(b) => b.time_to_full_minutes,
                        None => None,
                    },
                },
                Side::Battery => PowerSource::Battery {
                    time_to_empty_minutes: match battery {
                        Some(b) => b.time_to_empty_minutes,
                        None => None,
                    },
                },
                Side::Unknown => PowerSource::Unknown,
            };
            Snapshot {
                power_source,
                watts: measured_watts(found.amperage, found.voltage),
                charge: match battery {
                    Some(b) => Some(b.charge),
                    None => None,
                },
            }
        },
    }
}

/// Whether the machine is on mains or on battery, with the numbers that side
/// carries.
pub fn providing_source(found: &Option<Found>) -> (r: PowerSource)
    ensures
        r == snapshot_of(*found).power_source,
{
    read(found).power_source
}

/// Whether two say the same of where power comes from, the estimates of time
/// aside.
pub open spec fn sides_agree(a: PowerSource, b: PowerSource) -> bool {
    match (a, b) {
        (
            PowerSource::Ac { adapter_watts: left, charging: taking, time_to_full_minutes: _ },
            PowerSource::Ac { adapter_watts: right, charging: taken, time_to_full_minutes: _ },
        ) => left == right && taking == taken,
        (PowerSource::Battery { .. }, PowerSource::Battery { .. }) => true,
        (PowerSource::Unknown, PowerSource::Unknown) => true,
        _ => false,
    }
}

/// Whether two counts that may not be there are one.
fn same_count(a: Option<u32>, b: Option<u32>) -> (r: bool)
    ensures
        r == (a == b),
{
    match (a, b) {
        (Some(a), Some(b)) => a == b,
        (None, None) => true,
        _ => false,
    }
}

/// Whether two say the same of where power comes from.
pub fn same_side(a: PowerSource, b: PowerSource) -> (r: bool)
    ensures
        r == sides_agree(a, b),
{
    match (a, b) {
        (
            PowerSource::Ac { adapter_watts: left, charging: taking, time_to_full_minutes: _ },
            PowerSource::Ac { adapter_watts: right, charging: taken, time_to_full_minutes: _ },
        ) => same_count(left, right) && taking == taken,
        (PowerSource::Battery { .. }, PowerSource::Battery { .. }) => true,
        (PowerSource::Unknown, PowerSource::Unknown) => true,
        _ => false,
    }
}

/// Whether two readings differ in anything an item would draw.
pub open spec fn differ(a: Snapshot, b: Snapshot) -> bool {
    a.charge != b.charge || a.watts != b.watts || !sides_agree(a.power_source, b.power_source)
}

impl Snapshot {
    /// Whether this differs from another in anything an item would draw. The
    /// estimates of time are none of it: they wobble from minute to minute.
    pub fn differs_from(&self, other: &Snapshot) -> (r: bool)
        ensures
            r == differ(*self, *other),
    {
        let charge = match (self.charge, other.charge) {
            (Some(a), Some(b)) => a == b,
            (None, None) => true,
            _ => false,
        };
        !charge || !same_count(self.watts, other.watts) || !same_side(
            self.power_source,
            other.power_source,
        )
    }

    /// What is reported of this.
    pub fn into_event(self) -> (r: PowerChange)
        ensures
            r.power_source == self.power_source,
            r.watts == self.watts,
            r.charge == self.charge,
    {
        PowerChange { power_source: self.power_source, watts: self.watts, charge: self.charge }
    }
}

/// The source of power events: what it read last.
#[derive(Debug, Clone, Copy, PartialEq, Eq, Structural)]
pub struct Power {
    last: Option<Snapshot>,
}

impl View for Power {
    type V = Option<Snapshot>;

    closed spec fn view(&self) -> Option<Snapshot> {
        self.last
    }
}

/// Whether a reading is worth reporting after another.
pub open spec fn worth_reporting(last: Option<Snapshot>, now: Snapshot) -> bool {
    match last {
        Some(before) => differ(before, now),
        None => true,
    }
}

impl Power {
    /// One that has read nothing.
    pub fn new() -> (r: Power)
        ensures
            r@ is None,
    {
        Power { last: None }
    }

    /// What this source is called, and what it produces.
    pub fn describe() -> (r: crate::source::Described)
        ensures
            described(r) == known("power"@, seq![Topic::PowerSourceChanged], false),
    {
        let topics = vec![Topic::PowerSourceChanged];
        assert(topics@ =~= seq![Topic::PowerSourceChanged]);
        describe(SourceId("power"), topics, false)
    }

    /// Takes a reading, and says what is to be reported of it.
    pub fn decide(&mut self, now: Snapshot) -> (r: Option<PowerChange>)
        ensures
            final(self)@ == Some(now),
            match r {
                Some(change) => worth_reporting(old(self)@, now) && change.power_source
                    == now.power_source && change.watts == now.watts && change.charge == now.charge,
                None => !worth_reporting(old(self)@, now),
            },
    {
        let worth = match &self.last {
            Some(before) => before.differs_from(&now),
            None => true,
        };
        self.last = Some(now);
        if worth {
            Some(now.into_event())
        } else {
            None
        }
    }
}

// ---------------------------------------------------------------------------
// Laws

/// A reading that differs from the last only in an estimate of time is never
/// reported.
pub proof fn law_estimates_are_not_news(
    a: Snapshot,
    adapter: Option<u32>,
    charging: bool,
    before: Option<u32>,
    after: Option<u32>,
)
    ensures
        !worth_reporting(
            Some(
                (Snapshot {
                    power_source: PowerSource::Ac {
                        adapter_watts: adapter,
                        charging,
                        time_to_full_minutes: before,
                    },
                    ..a
                }),
            ),
            (Snapshot {
                power_source: PowerSource::Ac {
                    adapter_watts: adapter,
                    charging,
                    time_to_full_minutes: after,
                },
                ..a
            }),
        ),
        !worth_reporting(
            Some(
                (Snapshot {
                    power_source: PowerSource::Battery { time_to_empty_minutes: before },
                    ..a
                }),
            ),
            (Snapshot {
                power_source: PowerSource::Battery { time_to_empty_minutes: after },
                ..a
            }),
        ),
{
}

/// The same reading twice is reported once, and differing goes both ways.
pub proof fn law_a_reading_is_news_once(a: Snapshot, b: Snapshot)
    ensures
        !worth_reporting(Some(a), a),
        differ(a, b) == differ(b, a),
{
}

/// A battery is never said to charge and to empty at once, nor to discharge
/// and to fill.
pub proof fn law_one_estimate_at_a_time(entry: Described)
    ensures
        reading_of(entry) matches Some(reading) ==> (reading.charging
            ==> reading.time_to_empty_minutes is None) && (!reading.charging
            ==> reading.time_to_full_minutes is None),
{
}

/// An empty battery is at nothing, a full one at all of it, and more charge is
/// never less of it.
pub proof fn law_charge_is_in_proportion(max: int, less: int, more: int)
    requires
        max > 0,
        0 <= less <= more,
    ensures
        percent(0, max) == 0,
        percent(max, max) == 100,
        0 <= percent(less, max) <= percent(more, max) <= 100,
{
    assert(max * 100 / max == 100) by (nonlinear_arith)
        requires
            max > 0,
    ;
    assert(less * 100 / max <= more * 100 / max) by (nonlinear_arith)
        requires
            max > 0,
            0 <= less <= more,
    ;
    assert(0 <= less * 100 / max) by (nonlinear_arith)
        requires
            max > 0,
            0 <= less,
    ;
}

} // verus!
