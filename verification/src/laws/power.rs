//! What a reading of the power situation says, and when it is news.

use crate::event::PowerSource;
use crate::sources::power::{
    first_internal, is_internal, percent, power_key_text, snapshot_of, watts_of, worth_reporting,
    Described, Found, PowerKey, Snapshot,
};
use vstd::prelude::*;

verus! {

/// A change of the charge, of the power going through the battery, of the side the
/// machine draws from, of what the adapter supplies or of whether the battery is
/// charging is news, and nothing else is: not how long there is to go. The first
/// reading is always news.
pub proof fn law_what_is_news(a: Snapshot, b: Snapshot)
    ensures
        worth_reporting(None, b),
        a.charge != b.charge ==> worth_reporting(Some(a), b),
        a.watts != b.watts ==> worth_reporting(Some(a), b),
        a.power_source is Ac != b.power_source is Ac ==> worth_reporting(Some(a), b),
        a.power_source is Battery != b.power_source is Battery ==> worth_reporting(Some(a), b),
        a.power_source is Unknown != b.power_source is Unknown ==> worth_reporting(Some(a), b),
        a.power_source is Ac && b.power_source is Ac && a.power_source->adapter_watts
            != b.power_source->adapter_watts ==> worth_reporting(Some(a), b),
        a.power_source is Ac && b.power_source is Ac && a.power_source->charging
            != b.power_source->charging ==> worth_reporting(Some(a), b),
        worth_reporting(Some(a), b) ==> a.charge != b.charge || a.watts != b.watts
            || a.power_source is Ac != b.power_source is Ac || a.power_source is Battery
            != b.power_source is Battery || (a.power_source is Ac && b.power_source is Ac && (
        a.power_source->adapter_watts != b.power_source->adapter_watts || a.power_source->charging
            != b.power_source->charging)),
{
}

/// The charge of a battery is the greatest number of whole percents that is no more
/// than what is in it, from none to all of it.
pub proof fn law_the_charge_is_what_part_is_filled(current: int, max: int)
    requires
        max > 0,
    ensures
        current <= 0 ==> percent(current, max) == 0,
        current >= max ==> percent(current, max) == 100,
        0 <= current < max ==> percent(current, max) * max <= current * 100 && current * 100 < (
        percent(current, max) + 1) * max,
        0 <= percent(current, max) <= 100,
{
    if current > 0 {
        let filled = current * 100 / max;
        assert(filled * max <= current * 100 && current * 100 < (filled + 1) * max)
            by (nonlinear_arith)
            requires
                max > 0,
                filled == current * 100 / max,
        ;
        assert(current < max ==> filled <= 100) by (nonlinear_arith)
            requires
                max > 0,
                current > 0,
                filled * max <= current * 100,
        ;
        assert(current >= max ==> filled >= 100) by (nonlinear_arith)
            requires
                max > 0,
                current * 100 < (filled + 1) * max,
        ;
        assert(filled >= 0) by (nonlinear_arith)
            requires
                max > 0,
                current > 0,
                filled == current * 100 / max,
        ;
    } else {
        assert(0 * max == 0 && (0 + 1) * max == max) by (nonlinear_arith);
    }
}

/// The power going through a battery is the product of current and voltage to the
/// nearest watt, whichever way the current flows, and is said wherever both are
/// known, the voltage is one and it fits.
pub proof fn law_watts_are_volts_times_amperes(milliamps: i64, millivolts: i64)
    ensures
        watts_of(Some(milliamps), Some(millivolts)) matches Some(watts) ==> {
            let microwatts = (if milliamps < 0 {
                -(milliamps as int)
            } else {
                milliamps as int
            }) * millivolts;
            -500_000 < watts * 1_000_000 - microwatts <= 500_000
        },
        watts_of(Some(milliamps), Some(millivolts)) is Some <==> 0 <= millivolts && (if milliamps
            < 0 {
            -(milliamps as int)
        } else {
            milliamps as int
        }) * millivolts < 4_294_967_295 * 1_000_000 + 500_000,
        watts_of(None, Some(millivolts)) is None,
        watts_of(Some(milliamps), None) is None,
        watts_of(None, None) is None,
{
    let size = if milliamps < 0 {
        -(milliamps as int)
    } else {
        milliamps as int
    };
    assert(millivolts >= 0 ==> size * millivolts >= 0) by (nonlinear_arith)
        requires
            size >= 0,
    ;
}

/// The entry of the internal battery is the first that says it is one.
proof fn lemma_first(entries: Seq<Described>, i: int)
    requires
        0 <= i < entries.len(),
        is_internal(entries[i]),
        forall|j: int| 0 <= j < i ==> !is_internal(#[trigger] entries[j]),
    ensures
        first_internal(entries) == Some(entries[i]),
    decreases i,
{
    if i > 0 {
        assert(!is_internal(entries[0]));
        let rest = entries.skip(1);
        assert(rest[i - 1] == entries[i]);
        assert forall|j: int| 0 <= j < i - 1 implies !is_internal(#[trigger] rest[j]) by {
            assert(rest[j] == entries[j + 1]);
        }
        lemma_first(rest, i - 1);
    }
}

/// Where no entry is a battery's, none is found.
proof fn lemma_no_first(entries: Seq<Described>)
    requires
        forall|j: int| 0 <= j < entries.len() ==> !is_internal(#[trigger] entries[j]),
    ensures
        first_internal(entries) is None,
    decreases entries.len(),
{
    if entries.len() > 0 {
        assert(!is_internal(entries[0]));
        let rest = entries.skip(1);
        assert forall|j: int| 0 <= j < rest.len() implies !is_internal(#[trigger] rest[j]) by {
            assert(rest[j] == entries[j + 1]);
        }
        lemma_no_first(rest);
    }
}

/// Whether an entry says it is the battery in the machine.
pub open spec fn names_a_battery(entry: Described) -> bool {
    entry.kind matches Some(kind) && kind@ == "InternalBattery"@
}

/// Whether an entry says how much is in a battery, and out of how much.
pub open spec fn says_charge(entry: Described) -> bool {
    entry.current is Some && (entry.max matches Some(max) && max > 0)
}

/// Whether an entry says its battery is being charged.
pub open spec fn says_charging(entry: Described) -> bool {
    says_charge(entry) && entry.charging == Some(true)
}

/// A number of minutes or watts is the one that is said, where it is one.
pub open spec fn is_number(said: Option<i64>, number: Option<u32>) -> bool {
    match number {
        Some(n) => said matches Some(m) && m == n,
        None => said matches Some(m) ==> m < 0 || m > 0xffff_ffff,
    }
}

/// A reading of a machine with a battery in it says the charge of that battery,
/// whether it fills, and how long it will take the way it is going: to fill where it
/// charges and to empty where it does not.
pub proof fn law_a_reading_is_of_the_battery_in_the_machine(found: Found, i: int)
    requires
        0 <= i < found.sources@.len(),
        names_a_battery(found.sources@[i]),
        forall|j: int| 0 <= j < i ==> !names_a_battery(#[trigger] found.sources@[j]),
    ensures
        ({
            let entry = found.sources@[i];
            let reading = snapshot_of(Some(found));
            &&& reading.charge is Some <==> says_charge(entry)
            &&& reading.charge matches Some(charge) ==> charge == percent(
                entry.current->0 as int,
                entry.max->0 as int,
            )
            &&& match reading.power_source {
                PowerSource::Ac { adapter_watts, charging, time_to_full_minutes } => {
                    &&& found.providing matches Some(side)
                    &&& side@ == "AC Power"@
                    &&& is_number(found.adapter, adapter_watts)
                    &&& charging == says_charging(entry)
                    &&& charging ==> is_number(entry.time_to_full, time_to_full_minutes)
                    &&& !charging ==> time_to_full_minutes is None
                },
                PowerSource::Battery { time_to_empty_minutes } => {
                    &&& found.providing matches Some(side)
                    &&& side@ == "Battery Power"@
                    &&& says_charge(entry) && !says_charging(entry) ==> is_number(
                        entry.time_to_empty,
                        time_to_empty_minutes,
                    )
                    &&& !says_charge(entry) || says_charging(entry)
                        ==> time_to_empty_minutes is None
                },
                PowerSource::Unknown => found.providing matches Some(side) ==> side@
                    != "AC Power"@ && side@ != "Battery Power"@,
            }
        }),
{
    let entries = found.sources@;
    assert forall|j: int| 0 <= j < i implies !is_internal(#[trigger] entries[j]) by {
        assert(!names_a_battery(entries[j]));
    }
    lemma_first(entries, i);
    reveal_strlit("AC Power");
    reveal_strlit("Battery Power");
    if says_charge(entries[i]) {
        law_the_charge_is_what_part_is_filled(
            entries[i].current->0 as int,
            entries[i].max->0 as int,
        );
    }
}

/// A reading of a machine without a battery says nothing of one, and is of the side
/// the machine draws from. No look at all says nothing of anything.
pub proof fn law_a_reading_without_a_battery_says_nothing_of_one(found: Found)
    requires
        forall|j: int|
            0 <= j < found.sources@.len() ==> !names_a_battery(#[trigger] found.sources@[j]),
    ensures
        snapshot_of(Some(found)).charge is None,
        match snapshot_of(Some(found)).power_source {
            PowerSource::Ac { adapter_watts, charging, time_to_full_minutes } => {
                &&& found.providing matches Some(side)
                &&& side@ == "AC Power"@
                &&& is_number(found.adapter, adapter_watts)
                &&& !charging
                &&& time_to_full_minutes is None
            },
            PowerSource::Battery { time_to_empty_minutes } => {
                &&& found.providing matches Some(side)
                &&& side@ == "Battery Power"@
                &&& time_to_empty_minutes is None
            },
            PowerSource::Unknown => found.providing matches Some(side) ==> side@ != "AC Power"@
                && side@ != "Battery Power"@,
        },
        snapshot_of(None).power_source is Unknown,
        snapshot_of(None).charge is None,
        snapshot_of(None).watts is None,
{
    let entries = found.sources@;
    assert forall|j: int| 0 <= j < entries.len() implies !is_internal(#[trigger] entries[j]) by {
        assert(!names_a_battery(entries[j]));
    }
    lemma_no_first(entries);
}

/// The power of a reading is that of its current and its voltage.
pub proof fn law_a_reading_has_the_power_it_measured(found: Found)
    ensures
        snapshot_of(Some(found)).watts == watts_of(found.amperage, found.voltage),
{
}

/// Each figure is asked for under the name the system keeps it by.
pub proof fn law_each_figure_goes_by_its_name()
    ensures
        power_key_text(PowerKey::Type) == "Type"@,
        power_key_text(PowerKey::CurrentCapacity) == "Current Capacity"@,
        power_key_text(PowerKey::MaxCapacity) == "Max Capacity"@,
        power_key_text(PowerKey::IsCharging) == "Is Charging"@,
        power_key_text(PowerKey::TimeToEmpty) == "Time to Empty"@,
        power_key_text(PowerKey::TimeToFullCharge) == "Time to Full Charge"@,
        power_key_text(PowerKey::AdapterWatts) == "Watts"@,
{
}

} // verus!
