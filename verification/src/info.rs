//! What an event carries, as one value and as named variables.

use crate::json::{json_text, Json};
use crate::text::{decimal, decimal_text};
use vstd::prelude::*;

verus! {

/// Where the machine is drawing power from.
#[derive(Debug, Clone, Copy, PartialEq, Eq, Structural)]
pub enum PowerSource {
    Ac,
    Battery,
    Unknown,
}

/// The word a script matches a power source on.
pub open spec fn power_word(source: PowerSource) -> Seq<char> {
    match source {
        PowerSource::Ac => "AC"@,
        PowerSource::Battery => "BATTERY"@,
        PowerSource::Unknown => "UNKNOWN"@,
    }
}

impl PowerSource {
    /// The word a script matches this on.
    pub fn to_string(&self) -> (r: String)
        ensures
            r@ == power_word(*self),
    {
        match self {
            PowerSource::Ac => "AC".to_owned(),
            PowerSource::Battery => "BATTERY".to_owned(),
            PowerSource::Unknown => "UNKNOWN".to_owned(),
        }
    }
}

/// The payload of an event.
#[derive(Debug, PartialEq)]
pub enum Info {
    /// The event is the fact that it happened.
    Nothing,
    /// The application that came to the front.
    App { name: String },
    /// Output volume, as a whole percentage.
    Volume { percent: u8 },
    /// Where power is coming from.
    Power { source: PowerSource },
    /// The space now current on a display.
    Space { display: u32, space: u64 },
    /// Anything a config triggered itself.
    Custom(Json),
}

/// A payload as one value.
pub open spec fn info_summary(info: Info) -> Seq<char> {
    match info {
        Info::Nothing => Seq::empty(),
        Info::App { name } => name@,
        Info::Volume { percent } => decimal_text(percent as nat),
        Info::Power { source } => power_word(source),
        Info::Space { space, .. } => decimal_text(space as nat),
        Info::Custom(value) => json_text(value@),
    }
}

/// A payload as named variables, after the one that holds all of it.
pub open spec fn info_env(info: Info) -> Seq<(Seq<char>, Seq<char>)> {
    let first = seq![("RSBAR_INFO"@, info_summary(info))];
    match info {
        Info::App { name } => first.push(("RSBAR_APP"@, name@)),
        Info::Volume { percent } => first.push(("RSBAR_VOLUME"@, decimal_text(percent as nat))),
        Info::Power { source } => first.push(("RSBAR_POWER_SOURCE"@, power_word(source))),
        Info::Space { display, space } => first.push(
            ("RSBAR_DISPLAY"@, decimal_text(display as nat)),
        ).push(("RSBAR_SPACE"@, decimal_text(space as nat))),
        _ => first,
    }
}

/// Variables over plain text.
pub open spec fn var_views(vars: Seq<(&'static str, String)>) -> Seq<(Seq<char>, Seq<char>)> {
    vars.map_values(|v: (&'static str, String)| (v.0@, v.1@))
}

impl Info {
    /// The payload as the one value every script reaches for.
    pub fn summary(&self) -> (r: String)
        ensures
            r@ == info_summary(*self),
    {
        match self {
            Info::Nothing => String::new(),
            Info::App { name } => name.clone(),
            Info::Volume { percent } => decimal(*percent as u64),
            Info::Power { source } => source.to_string(),
            Info::Space { space, .. } => decimal(*space),
            Info::Custom(value) => value.to_string(),
        }
    }

    /// The payload as named variables, so that no script has to parse.
    pub fn env(&self) -> (r: Vec<(&'static str, String)>)
        ensures
            var_views(r@) == info_env(*self),
    {
        let mut vars: Vec<(&'static str, String)> = Vec::new();
        vars.push(("RSBAR_INFO", self.summary()));
        match self {
            Info::App { name } => {
                vars.push(("RSBAR_APP", name.clone()));
            },
            Info::Volume { percent } => {
                vars.push(("RSBAR_VOLUME", decimal(*percent as u64)));
            },
            Info::Power { source } => {
                vars.push(("RSBAR_POWER_SOURCE", source.to_string()));
            },
            Info::Space { display, space } => {
                vars.push(("RSBAR_DISPLAY", decimal(*display as u64)));
                vars.push(("RSBAR_SPACE", decimal(*space)));
            },
            _ => {},
        }
        assert(var_views(vars@) =~= info_env(*self));
        vars
    }

    /// Whether the event is only the fact that it happened.
    pub fn is_none(&self) -> (r: bool)
        ensures
            r == (*self is Nothing),
    {
        match self {
            Info::Nothing => true,
            _ => false,
        }
    }
}

impl Default for Info {
    fn default() -> (r: Self)
        ensures
            r is Nothing,
    {
        Info::Nothing
    }
}

/// Every payload sets the variable that holds all of it, first.
pub proof fn law_info_is_always_set(info: Info)
    ensures
        info_env(info).len() > 0,
        info_env(info)[0] == ("RSBAR_INFO"@, info_summary(info)),
{
}

} // verus!
