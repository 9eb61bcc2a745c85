//! The power panel: the state of the battery, and power actions.

use crate::text::{any_of, join, joined, replace_chars, swapped, views};
use vstd::prelude::*;

verus! {

/// A battery; its charge comes as it is printed.
#[derive(Debug)]
pub struct Battery {
    pub percentage: Option<String>,
    pub state: Option<String>,
}

#[derive(Debug)]
pub struct PowerSnapshot {
    pub batteries: Vec<Battery>,
    pub line_power_online: Option<bool>,
    pub performance_profile: Option<String>,
}

/// The first battery in words.
pub open spec fn battery_text(s: PowerSnapshot) -> Seq<char> {
    if s.batteries@.len() == 0 {
        "No battery detected"@
    } else {
        let b = s.batteries@[0];
        match (b.percentage, b.state) {
            (Some(percent), Some(state)) => "Battery "@ + percent@ + "% \u{b7} "@ + state@,
            (Some(percent), None) => "Battery "@ + percent@ + "%"@,
            (None, Some(state)) => "Battery information unavailable \u{b7} "@ + state@,
            (None, None) => "Battery information unavailable"@,
        }
    }
}

/// The parts of the state of the power supply.
pub open spec fn power_parts(s: PowerSnapshot) -> Seq<Seq<char>> {
    seq![battery_text(s)] + (match s.line_power_online {
        Some(online) => seq![
            if online {
                "Plugged in"@
            } else {
                "On battery"@
            },
        ],
        None => Seq::empty(),
    }) + (match s.performance_profile {
        Some(profile) => if profile@.len() > 0 {
            seq![swapped(profile@, any_of("-"@), ' ') + " profile"@]
        } else {
            Seq::empty()
        },
        None => Seq::empty(),
    })
}

fn first_battery(snapshot: &PowerSnapshot) -> (r: String)
    ensures
        r@ == battery_text(*snapshot),
{
    if snapshot.batteries.len() == 0 {
        return "No battery detected".to_owned();
    }
    let b = &snapshot.batteries[0];
    match (&b.percentage, &b.state) {
        (Some(percent), Some(state)) => "Battery ".to_owned().concat(percent.as_str()).concat(
            "% \u{b7} ",
        ).concat(state.as_str()),
        (Some(percent), None) => "Battery ".to_owned().concat(percent.as_str()).concat("%"),
        (None, Some(state)) => "Battery information unavailable \u{b7} ".to_owned().concat(
            state.as_str(),
        ),
        (None, None) => "Battery information unavailable".to_owned(),
    }
}

/// The state of the power supply in a line.
pub fn power_status_text(snapshot: &PowerSnapshot) -> (r: String)
    ensures
        r@ == joined(power_parts(*snapshot), " \u{b7} "@),
{
    let mut parts: Vec<String> = Vec::new();
    parts.push(first_battery(snapshot));
    if let Some(online) = snapshot.line_power_online {
        parts.push(
            if online {
                "Plugged in".to_owned()
            } else {
                "On battery".to_owned()
            },
        );
    }
    if let Some(profile) = &snapshot.performance_profile {
        if !profile.as_str().is_empty() {
            parts.push(replace_chars(profile.as_str(), "-", ' ').concat(" profile"));
        }
    }
    assert(views(parts@) =~= power_parts(*snapshot));
    join(&parts, " \u{b7} ")
}

/// How a request to the power service ended.
#[derive(Debug, Clone, Copy, PartialEq, Eq, Structural)]
pub enum PowerReply {
    Started,
    Refused,
    /// An answer to some other request.
    Unexpected,
    Unreachable,
}

/// What is said after a power action was asked for.
pub fn run_power_action(reply: PowerReply) -> (r: &'static str)
    ensures
        r@ == if reply == PowerReply::Started {
            "Power action started"@
        } else {
            "Power action failed"@
        },
{
    match reply {
        PowerReply::Started => "Power action started",
        _ => "Power action failed",
    }
}

/// The status has one part for the battery, one for the line where that is
/// known, and one for the profile where there is one, in this order.
pub proof fn law_power_parts(s: PowerSnapshot)
    ensures
        ({
            let parts = power_parts(s);
            let n = if s.line_power_online is Some {
                1int
            } else {
                0
            };
            let m = if s.performance_profile is Some && s.performance_profile->Some_0@.len() > 0 {
                1int
            } else {
                0
            };
            &&& parts.len() == 1 + n + m
            &&& parts[0] == battery_text(s)
            &&& s.line_power_online == Some(true) ==> parts[1] == "Plugged in"@
            &&& s.line_power_online == Some(false) ==> parts[1] == "On battery"@
            &&& m == 1 ==> parts.last() == swapped(
                s.performance_profile->Some_0@,
                any_of("-"@),
                ' ',
            ) + " profile"@
        }),
{
}

/// What is known of the first battery is said, and of no other one.
pub proof fn law_battery_text(s: PowerSnapshot, other: PowerSnapshot)
    ensures
        s.batteries@.len() == 0 ==> battery_text(s) == "No battery detected"@,
        s.batteries@.len() > 0 && s.batteries@[0].percentage is Some ==> {
            let percent = s.batteries@[0].percentage->Some_0@;
            &&& battery_text(s).subrange(0, 8) == "Battery "@
            &&& battery_text(s).subrange(8, 8 + percent.len() as int) == percent
            &&& battery_text(s)[8 + percent.len() as int] == '%'
        },
        s.batteries@.len() > 0 && s.batteries@[0].state is Some ==> {
            let state = s.batteries@[0].state->Some_0@;
            battery_text(s).skip(battery_text(s).len() - state.len()) == state
        },
        s.batteries@.len() > 0 && other.batteries@.len() > 0 && s.batteries@[0]
            == other.batteries@[0] ==> battery_text(s) == battery_text(other),
{
    reveal_strlit("Battery ");
    reveal_strlit("%");
    reveal_strlit("% \u{b7} ");
    if s.batteries@.len() > 0 {
        let text = battery_text(s);
        if s.batteries@[0].percentage is Some {
            let percent = s.batteries@[0].percentage->Some_0@;
            assert(text.subrange(0, 8) =~= "Battery "@);
            assert(text.subrange(8, 8 + percent.len() as int) =~= percent);
        }
        if s.batteries@[0].state is Some {
            let state = s.batteries@[0].state->Some_0@;
            assert(text.skip(text.len() - state.len()) =~= state);
        }
    }
}

} // verus!
