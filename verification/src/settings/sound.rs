//! The sound panel: the rows that choose a device.

use crate::settings::audio::{
    choice_views, set_default_audio_device, set_default_command, AudioDeviceChoice,
    AudioDeviceKind, ChoiceView,
};
use crate::settings::control::ControlCommand;
use crate::text::views;
use vstd::prelude::*;

verus! {

/// What a row for devices shows.
#[derive(Debug)]
pub enum DeviceRow {
    /// A text in place of a menu, and what is said below the title.
    Text { text: String, subtitle: String },
    /// A menu of devices.
    Menu { labels: Vec<String> },
}

/// The value of a [`DeviceRow`].
pub ghost enum DeviceRowView {
    Text { text: Seq<char>, subtitle: Seq<char> },
    Menu { labels: Seq<Seq<char>> },
}

impl View for DeviceRow {
    type V = DeviceRowView;

    open spec fn view(&self) -> DeviceRowView {
        match self {
            DeviceRow::Text { text, subtitle } => DeviceRowView::Text {
                text: text@,
                subtitle: subtitle@,
            },
            DeviceRow::Menu { labels } => DeviceRowView::Menu { labels: views(labels@) },
        }
    }
}

pub open spec fn labels_of(devices: Seq<ChoiceView>) -> Seq<Seq<char>> {
    Seq::new(devices.len(), |i: int| devices[i].label)
}

/// What the row for devices shows.
pub open spec fn row_for(
    kind: AudioDeviceKind,
    devices: Result<Vec<AudioDeviceChoice>, String>,
) -> DeviceRowView {
    match devices {
        Ok(list) => if list@.len() == 0 {
            DeviceRowView::Text {
                text: match kind {
                    AudioDeviceKind::Sink => "No Output Devices"@,
                    AudioDeviceKind::Source => "No Input Devices"@,
                },
                subtitle: ""@,
            }
        } else {
            DeviceRowView::Menu { labels: labels_of(choice_views(list@)) }
        },
        Err(e) => DeviceRowView::Text {
            text: match kind {
                AudioDeviceKind::Sink => "Output Detection Unavailable"@,
                AudioDeviceKind::Source => "Input Detection Unavailable"@,
            },
            subtitle: e@,
        },
    }
}

/// What the row for devices shows.
pub fn device_row(kind: AudioDeviceKind, devices: &Result<Vec<AudioDeviceChoice>, String>) -> (r:
    DeviceRow)
    ensures
        r@ == row_for(kind, *devices),
{
    match devices {
        Ok(list) => {
            if list.len() == 0 {
                let text = match kind {
                    AudioDeviceKind::Sink => "No Output Devices",
                    AudioDeviceKind::Source => "No Input Devices",
                };
                return DeviceRow::Text { text: text.to_owned(), subtitle: "".to_owned() };
            }
            let ghost all = labels_of(choice_views(list@));
            let mut labels: Vec<String> = Vec::new();
            let mut i: usize = 0;
            while i < list.len()
                invariant
                    i <= list.len(),
                    all == labels_of(choice_views(list@)),
                    views(labels@) == all.take(i as int),
                decreases list.len() - i,
            {
                let ghost before = labels@;
                labels.push(list[i].label.clone());
                i += 1;
                assert(views(labels@) =~= views(before).push(all[i - 1]));
                assert(views(labels@) =~= all.take(i as int));
            }
            assert(all.take(all.len() as int) =~= all);
            DeviceRow::Menu { labels }
        },
        Err(e) => {
            let text = match kind {
                AudioDeviceKind::Sink => "Output Detection Unavailable",
                AudioDeviceKind::Source => "Input Detection Unavailable",
            };
            DeviceRow::Text { text: text.to_owned(), subtitle: e.clone() }
        },
    }
}

/// A device was chosen from the menu. Returns the command that makes it the
/// default; none where there is no such device.
pub fn choose_device(kind: AudioDeviceKind, devices: &Vec<AudioDeviceChoice>, selected: u32) -> (r:
    Option<ControlCommand>)
    ensures
        match r {
            Some(c) => selected < devices.len() && c@ == set_default_command(
                kind,
                devices@[selected as int]@.selector,
            ),
            None => selected >= devices.len(),
        },
{
    let i: usize = selected as usize;
    if i < devices.len() {
        Some(set_default_audio_device(kind, devices[i].selector.as_str()))
    } else {
        None
    }
}

/// What is said after a device was made the default, or not.
pub open spec fn device_text(kind: AudioDeviceKind, result: Result<(), String>) -> Seq<char> {
    match (kind, result) {
        (AudioDeviceKind::Sink, Ok(_)) => "Default output changed"@,
        (AudioDeviceKind::Source, Ok(_)) => "Default input changed"@,
        (AudioDeviceKind::Sink, Err(e)) => "Could not change output: "@ + e@,
        (AudioDeviceKind::Source, Err(e)) => "Could not change input: "@ + e@,
    }
}

/// What is said after a device was made the default, or not.
pub fn device_message(kind: AudioDeviceKind, result: &Result<(), String>) -> (r: String)
    ensures
        r@ == device_text(kind, *result),
{
    match result {
        Ok(_) => match kind {
            AudioDeviceKind::Sink => "Default output changed".to_owned(),
            AudioDeviceKind::Source => "Default input changed".to_owned(),
        },
        Err(e) => {
            let mut out = match kind {
                AudioDeviceKind::Sink => "Could not change output: ".to_owned(),
                AudioDeviceKind::Source => "Could not change input: ".to_owned(),
            };
            out.append(e.as_str());
            out
        },
    }
}

/// The menu shows the devices that were found, one label each and in their
/// order; without any there is no menu, and an error is passed on.
pub proof fn law_device_menu(
    kind: AudioDeviceKind,
    list: Vec<AudioDeviceChoice>,
    error: String,
    i: int,
)
    ensures
        ({
            let row = row_for(kind, Ok(list));
            &&& row is Menu <==> list@.len() > 0
            &&& row is Menu ==> row->labels.len() == list@.len()
            &&& 0 <= i < list@.len() ==> row->labels[i] == list@[i]@.label
        }),
        row_for(kind, Err(error)) is Text,
        row_for(kind, Err(error))->subtitle == error@,
        row_for(AudioDeviceKind::Sink, Err(error))->Text_text == "Output Detection Unavailable"@,
        row_for(AudioDeviceKind::Source, Err(error))->Text_text == "Input Detection Unavailable"@,
{
}

} // verus!
