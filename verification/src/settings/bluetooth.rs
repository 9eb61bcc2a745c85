//! The Bluetooth panel: devices, and what their buttons do.

use crate::settings::control::{status, unavailable, StatusLine, StatusView};
use vstd::prelude::*;

verus! {

#[derive(Debug)]
pub struct BluetoothDevice {
    pub name: String,
    pub address: String,
    pub connected: bool,
    pub paired: bool,
}

#[derive(Debug)]
pub struct BluetoothSnapshot {
    pub powered: bool,
    pub scanning: bool,
    pub devices: Vec<BluetoothDevice>,
    pub error: Option<String>,
}

/// The line above the devices.
pub open spec fn bluetooth_status_of(s: BluetoothSnapshot) -> StatusView {
    match s.error {
        Some(error) => StatusView {
            unavailable: true,
            text: "Bluetooth service unavailable"@,
            details: Some(error@),
        },
        None => StatusView {
            unavailable: false,
            text: if !s.powered {
                "Bluetooth is powered off"@
            } else if s.scanning {
                "Bluetooth is scanning"@
            } else {
                "Bluetooth is powered on"@
            },
            details: None,
        },
    }
}

/// The line above the devices.
pub fn bluetooth_status(snapshot: &BluetoothSnapshot) -> (r: StatusLine)
    ensures
        r@ == bluetooth_status_of(*snapshot),
{
    match &snapshot.error {
        Some(error) => unavailable("Bluetooth service unavailable", error),
        None => if !snapshot.powered {
            status("Bluetooth is powered off")
        } else if snapshot.scanning {
            status("Bluetooth is scanning")
        } else {
            status("Bluetooth is powered on")
        },
    }
}

/// What stands in place of an empty list of devices.
pub fn no_devices_title(powered: bool) -> (r: &'static str)
    ensures
        r@ == if powered {
            "No Bluetooth devices found"@
        } else {
            "Turn on Bluetooth to manage devices"@
        },
{
    if powered {
        "No Bluetooth devices found"
    } else {
        "Turn on Bluetooth to manage devices"
    }
}

/// What the buttons of a device do.
#[derive(Debug, Clone, Copy, PartialEq, Eq, Structural)]
pub enum DeviceButton {
    /// Pairs and connects.
    Pair,
    Connect,
    Disconnect,
    Trust,
    Remove,
}

/// A device below its name.
pub open spec fn device_subtitle(d: BluetoothDevice) -> Seq<char> {
    (if d.connected {
        "Connected"@
    } else {
        "Disconnected"@
    }) + (if d.paired {
        " | Paired"@
    } else {
        ""@
    }) + " | "@ + d.address@
}

/// The buttons of a device: one that is not paired can only be paired.
pub open spec fn device_buttons(d: BluetoothDevice) -> Seq<DeviceButton> {
    if !d.paired {
        seq![DeviceButton::Pair]
    } else if d.connected {
        seq![DeviceButton::Disconnect, DeviceButton::Trust, DeviceButton::Remove]
    } else {
        seq![DeviceButton::Connect, DeviceButton::Trust, DeviceButton::Remove]
    }
}

/// A device in the list.
#[derive(Debug)]
pub struct DeviceRow {
    pub title: String,
    pub subtitle: String,
    pub buttons: Vec<DeviceButton>,
}

/// A device in the list.
pub fn device_row(d: &BluetoothDevice) -> (r: DeviceRow)
    ensures
        r.title@ == d.name@,
        r.subtitle@ == device_subtitle(*d),
        r.buttons@ == device_buttons(*d),
{
    let mut subtitle = if d.connected {
        "Connected".to_owned()
    } else {
        "Disconnected".to_owned()
    };
    subtitle.append(
        if d.paired {
            " | Paired"
        } else {
            ""
        },
    );
    subtitle.append(" | ");
    subtitle.append(d.address.as_str());
    let mut buttons: Vec<DeviceButton> = Vec::new();
    if !d.paired {
        buttons.push(DeviceButton::Pair);
    } else {
        buttons.push(
            if d.connected {
                DeviceButton::Disconnect
            } else {
                DeviceButton::Connect
            },
        );
        buttons.push(DeviceButton::Trust);
        buttons.push(DeviceButton::Remove);
    }
    assert(buttons@ =~= device_buttons(*d));
    DeviceRow { title: d.name.clone(), subtitle, buttons }
}

/// The devices in the list.
pub fn populate_bluetooth_list(snapshot: &BluetoothSnapshot) -> (r: Vec<DeviceRow>)
    ensures
        r.len() == snapshot.devices.len(),
        forall|i: int|
            0 <= i < r.len() ==> {
                let d = snapshot.devices@[i];
                &&& (#[trigger] r[i]).title@ == d.name@
                &&& r[i].subtitle@ == device_subtitle(d)
                &&& r[i].buttons@ == device_buttons(d)
            },
{
    let mut out: Vec<DeviceRow> = Vec::new();
    let mut i: usize = 0;
    while i < snapshot.devices.len()
        invariant
            i <= snapshot.devices.len(),
            out.len() == i,
            forall|k: int|
                0 <= k < i ==> {
                    let d = snapshot.devices@[k];
                    &&& (#[trigger] out[k]).title@ == d.name@
                    &&& out[k].subtitle@ == device_subtitle(d)
                    &&& out[k].buttons@ == device_buttons(d)
                },
        decreases snapshot.devices.len() - i,
    {
        out.push(device_row(&snapshot.devices[i]));
        i += 1;
    }
    out
}

/// A device that is not paired can be paired and nothing else; one that is can
/// be connected or disconnected, whichever it is not, trusted and removed.
pub proof fn law_buttons_fit_the_device(d: BluetoothDevice)
    ensures
        device_buttons(d).contains(DeviceButton::Pair) <==> !d.paired,
        device_buttons(d).contains(DeviceButton::Connect) <==> d.paired && !d.connected,
        device_buttons(d).contains(DeviceButton::Disconnect) <==> d.paired && d.connected,
        device_buttons(d).contains(DeviceButton::Remove) <==> d.paired,
{
    let b = device_buttons(d);
    if !d.paired {
        assert(b[0] == DeviceButton::Pair);
    } else {
        assert(b[2] == DeviceButton::Remove);
        if d.connected {
            assert(b[0] == DeviceButton::Disconnect);
        } else {
            assert(b[0] == DeviceButton::Connect);
        }
    }
}

/// What is said while a button's task runs; none where it is done at once.
pub fn waiting_text(button: DeviceButton) -> (r: Option<&'static str>)
    ensures
        match button {
            DeviceButton::Pair => r is Some && r->Some_0@
                == "Pairing and connecting\u{2026} keep the device in pairing mode"@,
            DeviceButton::Connect => r is Some && r->Some_0@
                == "Connecting Bluetooth device\u{2026}"@,
            DeviceButton::Disconnect => r is Some && r->Some_0@
                == "Disconnecting Bluetooth device\u{2026}"@,
            DeviceButton::Trust => r is None,
            DeviceButton::Remove => r is None,
        },
{
    match button {
        DeviceButton::Pair =>
            Some("Pairing and connecting\u{2026} keep the device in pairing mode"),
        DeviceButton::Connect => Some("Connecting Bluetooth device\u{2026}"),
        DeviceButton::Disconnect => Some("Disconnecting Bluetooth device\u{2026}"),
        DeviceButton::Trust => None,
        DeviceButton::Remove => None,
    }
}

/// How the task of a button ended.
#[derive(Debug)]
pub enum TaskEnd {
    Done { output: String },
    Failed { error: String },
    /// It ended without an answer.
    Vanished,
}

/// What follows the end of a task.
#[derive(Debug)]
pub struct TaskReaction {
    pub text: String,
    /// Load the list again.
    pub refresh: bool,
    /// Let the button be used again.
    pub release: bool,
}

/// What is said at the end of a task.
pub open spec fn task_text(button: DeviceButton, address: Seq<char>, end: TaskEnd) -> Seq<char> {
    match end {
        TaskEnd::Failed { error } => error@,
        TaskEnd::Vanished => if button == DeviceButton::Pair {
            "Bluetooth pairing task stopped unexpectedly"@
        } else {
            "Bluetooth connection task stopped unexpectedly"@
        },
        TaskEnd::Done { output } => match button {
            DeviceButton::Pair => "Paired and connected"@,
            DeviceButton::Connect => if output@.len() == 0 {
                "connect sent to "@ + address
            } else {
                output@
            },
            DeviceButton::Disconnect => if output@.len() == 0 {
                "disconnect sent to "@ + address
            } else {
                output@
            },
            DeviceButton::Trust => if output@.len() == 0 {
                "Trusted "@ + address
            } else {
                output@
            },
            DeviceButton::Remove => "Removed "@ + address
                + " \u{2014} tap Refresh to update the list"@,
        },
    }
}

fn is_task(button: DeviceButton) -> (r: bool)
    ensures
        r == (button == DeviceButton::Pair || button == DeviceButton::Connect || button
            == DeviceButton::Disconnect),
{
    match button {
        DeviceButton::Pair => true,
        DeviceButton::Connect => true,
        DeviceButton::Disconnect => true,
        _ => false,
    }
}

fn output_or(output: &String, done: &str, address: &str) -> (r: String)
    ensures
        r@ == if output@.len() == 0 {
            done@ + address@
        } else {
            output@
        },
{
    if output.as_str().is_empty() {
        done.to_owned().concat(address)
    } else {
        output.clone()
    }
}

/// What follows the end of a button's task: pairing and connections load the
/// list again where they succeed, and release the button where they fail.
pub fn on_task_end(button: DeviceButton, address: &str, end: &TaskEnd) -> (r: TaskReaction)
    ensures
        r.text@ == task_text(button, address@, *end),
        ({
            let task = button == DeviceButton::Pair || button == DeviceButton::Connect || button
                == DeviceButton::Disconnect;
            &&& r.refresh == (task && end is Done)
            &&& r.release == (task && !(end is Done))
        }),
{
    let task = is_task(button);
    match end {
        TaskEnd::Failed { error } => TaskReaction {
            text: error.clone(),
            refresh: false,
            release: task,
        },
        TaskEnd::Vanished => TaskReaction {
            text: if button == DeviceButton::Pair {
                "Bluetooth pairing task stopped unexpectedly".to_owned()
            } else {
                "Bluetooth connection task stopped unexpectedly".to_owned()
            },
            refresh: false,
            release: task,
        },
        TaskEnd::Done { output } => {
            let text = match button {
                DeviceButton::Pair => "Paired and connected".to_owned(),
                DeviceButton::Connect => output_or(output, "connect sent to ", address),
                DeviceButton::Disconnect => output_or(output, "disconnect sent to ", address),
                DeviceButton::Trust => output_or(output, "Trusted ", address),
                DeviceButton::Remove => "Removed ".to_owned().concat(address).concat(
                    " \u{2014} tap Refresh to update the list",
                ),
            };
            TaskReaction { text, refresh: task, release: false }
        },
    }
}

/// The switches of the panel.
#[derive(Debug, Clone, Copy, PartialEq, Eq, Structural)]
pub enum BluetoothSwitch {
    Power,
    Scan,
}

/// What is said after a switch was turned.
pub fn switch_message(switch: BluetoothSwitch, on: bool, result: &Result<String, String>) -> (r:
    String)
    ensures
        r@ == match *result {
            Err(error) => error@,
            Ok(_) => match switch {
                BluetoothSwitch::Power => if on {
                    "Bluetooth powered on"@
                } else {
                    "Bluetooth powered off"@
                },
                BluetoothSwitch::Scan => if on {
                    "Bluetooth scan enabled"@
                } else {
                    "Bluetooth scan disabled"@
                },
            },
        },
{
    match result {
        Err(error) => error.clone(),
        Ok(_) => match switch {
            BluetoothSwitch::Power => if on {
                "Bluetooth powered on".to_owned()
            } else {
                "Bluetooth powered off".to_owned()
            },
            BluetoothSwitch::Scan => if on {
                "Bluetooth scan enabled".to_owned()
            } else {
                "Bluetooth scan disabled".to_owned()
            },
        },
    }
}

/// Whether the panel looks for devices, after its switch was turned: only a
/// call that succeeded counts.
pub fn scanning_after(scanning: bool, on: bool, result: &Result<String, String>) -> (r: bool)
    ensures
        r == if result is Ok {
            on
        } else {
            scanning
        },
{
    match result {
        Ok(_) => on,
        Err(_) => scanning,
    }
}

// ---------------------------------------------------------------------------
// Keeping the list up to date
// ---------------------------------------------------------------------------

/// How often the list is looked after while devices are searched for, in
/// seconds.
pub const RESCAN_SECONDS: u64 = 2;

/// Whether devices are searched for, as far as the panel knows.
#[derive(Debug, Clone, Copy, PartialEq, Eq, Structural)]
pub struct Discovery {
    pub scanning: bool,
}

impl Discovery {
    /// Nothing is searched for yet.
    pub fn new() -> (r: Discovery)
        ensures
            r == (Discovery { scanning: false }),
    {
        Discovery { scanning: false }
    }

    /// The switch was turned, with a result. The switch does nothing while the
    /// panel sets it itself.
    pub fn on_switch(&mut self, on: bool, result: &Result<String, String>)
        ensures
            *final(self) == (Discovery {
                scanning: if result is Ok {
                    on
                } else {
                    old(self).scanning
                },
            }),
    {
        self.scanning = scanning_after(self.scanning, on, result);
    }

    /// The state of the adapter was read.
    pub fn on_snapshot(&mut self, snapshot: &BluetoothSnapshot)
        ensures
            *final(self) == (Discovery { scanning: snapshot.scanning }),
    {
        self.scanning = snapshot.scanning;
    }

    /// The time is up: whether the list is read anew.
    pub fn on_tick(&self) -> (r: bool)
        ensures
            r == self.scanning,
    {
        self.scanning
    }
}

/// What a button did is told by what came of it: an error as it is, the words of
/// the tool where it had any, and the device otherwise.
pub proof fn law_task_texts(button: DeviceButton, address: Seq<char>, said: String)
    ensures
        task_text(button, address, TaskEnd::Failed { error: said }) == said@,
        (button == DeviceButton::Connect || button == DeviceButton::Disconnect || button
            == DeviceButton::Trust) && said@.len() > 0 ==> task_text(
            button,
            address,
            TaskEnd::Done { output: said },
        ) == said@,
        (button == DeviceButton::Connect || button == DeviceButton::Disconnect || button
            == DeviceButton::Trust) && said@.len() == 0 ==> {
            let text = task_text(button, address, TaskEnd::Done { output: said });
            text.len() >= address.len() && text.skip(text.len() - address.len()) == address
        },
        task_text(DeviceButton::Pair, address, TaskEnd::Done { output: said })
            == "Paired and connected"@,
{
    let text = task_text(button, address, TaskEnd::Done { output: said });
    if text.len() >= address.len() {
        if button == DeviceButton::Connect && said@.len() == 0 {
            assert(text.skip(text.len() - address.len()) =~= address);
        }
        if button == DeviceButton::Disconnect && said@.len() == 0 {
            assert(text.skip(text.len() - address.len()) =~= address);
        }
        if button == DeviceButton::Trust && said@.len() == 0 {
            assert(text.skip(text.len() - address.len()) =~= address);
        }
    }
}

/// A paired device can be trusted, and only such a one; the second line of a
/// device says first whether it is connected, and ends in its address.
pub proof fn law_device_rows(d: BluetoothDevice)
    ensures
        device_buttons(d).contains(DeviceButton::Trust) <==> d.paired,
        device_subtitle(d).skip(device_subtitle(d).len() - d.address@.len()) == d.address@,
        d.connected ==> device_subtitle(d).take(9) == "Connected"@,
        !d.connected ==> device_subtitle(d).take(12) == "Disconnected"@,
{
    reveal_strlit("Connected");
    reveal_strlit("Disconnected");
    let text = device_subtitle(d);
    assert(text.skip(text.len() - d.address@.len()) =~= d.address@);
    if d.connected {
        assert(text.take(9) =~= "Connected"@);
    } else {
        assert(text.take(12) =~= "Disconnected"@);
    }
    let buttons = device_buttons(d);
    if d.paired {
        assert(buttons[1] == DeviceButton::Trust);
    }
}

/// The status says what the adapter is: unavailable where it gave an error, off
/// where it has no power, and scanning only where it has.
pub proof fn law_bluetooth_status(s: BluetoothSnapshot)
    ensures
        bluetooth_status_of(s).unavailable <==> s.error is Some,
        s.error is Some ==> bluetooth_status_of(s).details == Some(s.error->Some_0@),
        s.error is None && !s.powered ==> bluetooth_status_of(s).text
            == "Bluetooth is powered off"@,
        s.error is None && s.powered && s.scanning ==> bluetooth_status_of(s).text
            == "Bluetooth is scanning"@,
        s.error is None && s.powered && !s.scanning ==> bluetooth_status_of(s).text
            == "Bluetooth is powered on"@,
{
}

} // verus!
