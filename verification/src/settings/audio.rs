//! Audio devices as the sound servers' own tools list them.

use crate::assoc::{get, lookup, pair_views, set_pair, with_pair};
use crate::settings::control::{
    command, command_of, result_view, CommandView, ControlCommand,
};
use crate::text::{
    after_prefix, any_of, before_suffix, chars_of, contains, contains_char, cut, cut_at,
    ends_with, free_of, has_prefix, has_suffix, head_of, is_bare, is_space, join, joined,
    lemma_after_prefix, lemma_bare, lemma_joined_words, lemma_split_append, lemma_split_one,
    lemma_words, lines, lines_of, lowered, occurs, opt_view, replace_chars, same, space, spaces,
    split, split_at_each, split_head, split_once, split_once_at, split_whitespace, starts_with,
    strip_prefix, strip_suffix, swapped, to_ascii_lowercase, trim, trim_back, trim_front,
    trim_matches, trim_start_matches, trimmed, trimmed_of, views, words_of,
};
use vstd::prelude::*;

verus! {

#[derive(Debug, Clone, Copy, PartialEq, Eq, Structural)]
pub enum AudioDeviceKind {
    Sink,
    Source,
}

/// A device that can be chosen.
#[derive(Debug)]
pub struct AudioDeviceChoice {
    pub selector: String,
    pub label: String,
}

/// The value of an [`AudioDeviceChoice`].
pub ghost struct ChoiceView {
    pub selector: Seq<char>,
    pub label: Seq<char>,
}

impl View for AudioDeviceChoice {
    type V = ChoiceView;

    open spec fn view(&self) -> ChoiceView {
        ChoiceView { selector: self.selector@, label: self.label@ }
    }
}

pub open spec fn choice_views(list: Seq<AudioDeviceChoice>) -> Seq<ChoiceView> {
    Seq::new(list.len(), |i: int| list[i]@)
}

// ---------------------------------------------------------------------------
// Labels
// ---------------------------------------------------------------------------

/// `label` without white space and quotation marks around it.
pub open spec fn unquoted(label: Seq<char>) -> Seq<char> {
    trimmed_of(trimmed(label), "\""@)
}

/// `label` without the prefix of an ALSA device.
pub open spec fn without_alsa(label: Seq<char>) -> Seq<char> {
    match after_prefix(label, "alsa_input."@) {
        Some(rest) => rest,
        None => match after_prefix(label, "alsa_output."@) {
            Some(rest) => rest,
            None => label,
        },
    }
}

/// A label for people: the words of a name whose underscores and dots are
/// spaces.
pub open spec fn normalized(label: Seq<char>) -> Seq<char> {
    joined(words_of(swapped(without_alsa(unquoted(label)), any_of("_."@), ' ')), " "@)
}

/// A label for people.
pub fn normalize_audio_label(label: &str) -> (r: String)
    ensures
        r@ == normalized(label@),
{
    let bare = trim_matches(trim(label).as_str(), "\"");
    let name = match strip_prefix(bare.as_str(), "alsa_input.") {
        Some(rest) => rest,
        None => match strip_prefix(bare.as_str(), "alsa_output.") {
            Some(rest) => rest,
            None => bare,
        },
    };
    let spaced = replace_chars(name.as_str(), "_.", ' ');
    join(&split_whitespace(spaced.as_str()), " ")
}

proof fn lemma_spaced(s: Seq<char>, bad: spec_fn(char) -> bool)
    requires
        free_of(s, bad),
        !bad(' '),
    ensures
        free_of(swapped(s, any_of("_."@), ' '), any_of("_."@)),
        free_of(swapped(s, any_of("_."@), ' '), bad),
        free_of(s, any_of("_."@)) ==> swapped(s, any_of("_."@), ' ') == s,
{
    reveal_strlit("_.");
    let out = swapped(s, any_of("_."@), ' ');
    assert(!"_."@.contains(' '));
    assert forall|i: int| 0 <= i < out.len() implies !any_of("_."@)(#[trigger] out[i]) && !bad(
        out[i],
    ) by {
        assert(!bad(s[i]));
    }
    if free_of(s, any_of("_."@)) {
        assert forall|i: int| 0 <= i < out.len() implies #[trigger] out[i] == s[i] by {
            assert(!any_of("_."@)(s[i]));
        }
        assert(out =~= s);
    }
}

/// Nothing is left of the underscores and the dots of a label; it is made of
/// its words with one space between each two of them, and with none around it.
pub proof fn law_label_is_words(label: Seq<char>)
    ensures
        free_of(normalized(label), any_of("_."@)),
        normalized(label) == joined(words_of(normalized(label)), " "@),
        trimmed(normalized(label)) == normalized(label),
{
    let none = |c: char| false;
    let name = without_alsa(unquoted(label));
    lemma_spaced(name, none);
    lemma_words(swapped(name, any_of("_."@), ' '), any_of("_."@));
    reveal_strlit("_.");
    assert(!"_."@.contains(' '));
    let r = normalized(label);
    lemma_joined_words(words_of(swapped(name, any_of("_."@), ' ')), any_of("_."@));
    lemma_nothing_around(r, spaces());
}

proof fn lemma_nothing_around(s: Seq<char>, p: spec_fn(char) -> bool)
    requires
        s.len() > 0 ==> !p(s[0]) && !p(s.last()),
    ensures
        trim_back(trim_front(s, p), p) == s,
{
}

proof fn lemma_parts_free(label: Seq<char>, bad: spec_fn(char) -> bool)
    requires
        free_of(label, bad),
    ensures
        free_of(without_alsa(unquoted(label)), bad),
{
    lemma_trimmed_free(label, spaces(), bad);
    lemma_trimmed_free(trimmed(label), any_of("\""@), bad);
    let bare = unquoted(label);
    assert forall|n: int| 0 <= n <= bare.len() implies free_of(#[trigger] bare.skip(n), bad) by {
        assert forall|i: int| 0 <= i < bare.skip(n).len() implies !bad(
            #[trigger] bare.skip(n)[i],
        ) by {
            assert(!bad(bare[i + n]));
        }
    }
}

proof fn lemma_front_free(s: Seq<char>, p: spec_fn(char) -> bool, bad: spec_fn(char) -> bool)
    requires
        free_of(s, bad),
    ensures
        free_of(trim_front(s, p), bad),
    decreases s.len(),
{
    if s.len() > 0 && p(s[0]) {
        let rest = s.drop_first();
        assert forall|i: int| 0 <= i < rest.len() implies !bad(#[trigger] rest[i]) by {
            assert(!bad(s[i + 1]));
        }
        lemma_front_free(rest, p, bad);
    }
}

proof fn lemma_back_free(s: Seq<char>, p: spec_fn(char) -> bool, bad: spec_fn(char) -> bool)
    requires
        free_of(s, bad),
    ensures
        free_of(trim_back(s, p), bad),
    decreases s.len(),
{
    if s.len() > 0 && p(s.last()) {
        let rest = s.drop_last();
        assert forall|i: int| 0 <= i < rest.len() implies !bad(#[trigger] rest[i]) by {
            assert(!bad(s[i]));
        }
        lemma_back_free(rest, p, bad);
    }
}

proof fn lemma_trimmed_free(s: Seq<char>, p: spec_fn(char) -> bool, bad: spec_fn(char) -> bool)
    requires
        free_of(s, bad),
    ensures
        free_of(trim_back(trim_front(s, p), p), bad),
{
    lemma_front_free(s, p, bad);
    lemma_back_free(trim_front(s, p), p, bad);
}

/// A label that is normal already stays as it is, unless it holds quotation
/// marks: where a name held none, a second time changes nothing.
pub proof fn law_normalized_again(label: Seq<char>)
    requires
        !label.contains('"'),
    ensures
        normalized(normalized(label)) == normalized(label),
{
    let quotes = any_of("\""@);
    reveal_strlit("\"");
    reveal_strlit("_.");
    reveal_strlit("alsa_input.");
    reveal_strlit("alsa_output.");
    assert(!"_."@.contains(' '));
    let r = normalized(label);
    assert(forall|c: char| "\""@.contains(c) ==> c == '"') by {
        assert("\""@ =~= seq!['"']);
    }
    assert forall|i: int| 0 <= i < label.len() implies !quotes(#[trigger] label[i]) by {
        assert(label.contains(label[i]));
    }
    lemma_parts_free(label, quotes);
    let name = without_alsa(unquoted(label));
    lemma_spaced(name, quotes);
    let spaced = swapped(name, any_of("_."@), ' ');
    lemma_words(spaced, quotes);
    lemma_joined_words(words_of(spaced), quotes);
    law_label_is_words(label);
    lemma_nothing_around(r, quotes);
    assert(unquoted(r) == r);
    assert(!has_prefix(r, "alsa_input."@)) by {
        if has_prefix(r, "alsa_input."@) {
            assert(r.subrange(0, 11)[10] == '.');
            assert(any_of("_."@)(r[10])) by {
                assert("_."@[1] == '.');
            }
        }
    }
    assert(!has_prefix(r, "alsa_output."@)) by {
        if has_prefix(r, "alsa_output."@) {
            assert(r.subrange(0, 12)[11] == '.');
            assert(any_of("_."@)(r[11])) by {
                assert("_."@[1] == '.');
            }
        }
    }
    assert(without_alsa(r) == r);
    lemma_spaced(r, quotes);
    assert(words_of(r) == words_of(spaced));
}

/// What labels are compared by.
pub open spec fn label_key(label: Seq<char>) -> Seq<char> {
    lowered(trimmed(label))
}

/// What labels are compared by.
pub fn audio_label_key(label: &str) -> (r: String)
    ensures
        r@ == label_key(label@),
{
    to_ascii_lowercase(trim(label).as_str())
}

// ---------------------------------------------------------------------------
// Lists of devices
// ---------------------------------------------------------------------------

/// A device of the list has the selector.
pub open spec fn listed(devices: Seq<ChoiceView>, selector: Seq<char>) -> bool {
    exists|i: int| 0 <= i < devices.len() && (#[trigger] devices[i]).selector == selector
}

/// The list with one more device, in front or at the end, unless its selector
/// or its label is empty or its selector is listed already.
pub open spec fn with_device(
    devices: Seq<ChoiceView>,
    selector: Seq<char>,
    label: Seq<char>,
    prefer_first: bool,
) -> Seq<ChoiceView> {
    let device = ChoiceView { selector, label: normalized(label) };
    if selector.len() == 0 || device.label.len() == 0 || listed(devices, selector) {
        devices
    } else if prefer_first {
        seq![device] + devices
    } else {
        devices.push(device)
    }
}

/// Adds a device to a list, once.
pub fn push_unique_audio_device(
    devices: &mut Vec<AudioDeviceChoice>,
    selector: String,
    label: String,
    prefer_first: bool,
)
    ensures
        choice_views(final(devices)@) == with_device(
            choice_views(old(devices)@),
            selector@,
            label@,
            prefer_first,
        ),
{
    let ghost before = choice_views(devices@);
    let label = normalize_audio_label(label.as_str());
    if selector.as_str().is_empty() || label.as_str().is_empty() {
        return;
    }
    let mut i: usize = 0;
    while i < devices.len()
        invariant
            i <= devices.len(),
            devices@ == old(devices)@,
            before == choice_views(devices@),
            forall|k: int| 0 <= k < i ==> (#[trigger] before[k]).selector != selector@,
        decreases devices.len() - i,
    {
        assert(before[i as int].selector == devices@[i as int].selector@);
        if devices[i].selector == selector {
            assert(listed(before, selector@));
            return;
        }
        i += 1;
    }
    assert(!listed(before, selector@));
    let device = AudioDeviceChoice { selector, label };
    if prefer_first {
        devices.insert(0, device);
        assert(choice_views(devices@) =~= seq![device@] + before);
    } else {
        devices.push(device);
        assert(choice_views(devices@) =~= before.push(device@));
    }
}

/// Each device is listed once, and has a selector and a label.
pub open spec fn proper(devices: Seq<ChoiceView>) -> bool {
    &&& forall|i: int, j: int|
        0 <= i < j < devices.len() ==> (#[trigger] devices[i]).selector != (
        #[trigger] devices[j]).selector
    &&& forall|i: int|
        0 <= i < devices.len() ==> (#[trigger] devices[i]).selector.len() > 0
            && devices[i].label.len() > 0
}

/// Where the default device is listed, it is the first.
pub open spec fn default_first(devices: Seq<ChoiceView>, default_name: Option<Seq<char>>) -> bool {
    match default_name {
        Some(name) => listed(devices, name) ==> devices[0].selector == name,
        None => true,
    }
}

/// A device that is added keeps the list proper, and the default device first.
pub proof fn law_with_device(
    devices: Seq<ChoiceView>,
    selector: Seq<char>,
    label: Seq<char>,
    prefer_first: bool,
    default_name: Option<Seq<char>>,
)
    requires
        proper(devices),
    ensures
        proper(with_device(devices, selector, label, prefer_first)),
        default_first(devices, default_name) && prefer_first == (default_name == Some(selector))
            ==> default_first(with_device(devices, selector, label, prefer_first), default_name),
{
    let out = with_device(devices, selector, label, prefer_first);
    let device = ChoiceView { selector, label: normalized(label) };
    if !(selector.len() == 0 || device.label.len() == 0 || listed(devices, selector)) {
        if prefer_first {
            assert(out[0] == device);
            assert forall|i: int, j: int| 0 <= i < j < out.len() implies (
            #[trigger] out[i]).selector != (#[trigger] out[j]).selector by {
                assert(out[j] == devices[j - 1]);
                if i > 0 {
                    assert(out[i] == devices[i - 1]);
                }
            }
            assert forall|i: int| 0 <= i < out.len() implies (#[trigger] out[i]).selector.len() > 0
                && out[i].label.len() > 0 by {
                if i > 0 {
                    assert(out[i] == devices[i - 1]);
                }
            }
        } else {
            assert forall|i: int, j: int| 0 <= i < j < out.len() implies (
            #[trigger] out[i]).selector != (#[trigger] out[j]).selector by {
                assert(out[i] == devices[i]);
                if j < devices.len() {
                    assert(out[j] == devices[j]);
                }
            }
            if let Some(name) = default_name {
                if listed(out, name) && default_first(devices, default_name) && name != selector {
                    let i = choose|i: int|
                        0 <= i < out.len() && (#[trigger] out[i]).selector == name;
                    assert(out[i] == devices[i]);
                    assert(out[0] == devices[0]);
                }
            }
        }
    }
}

// ---------------------------------------------------------------------------
// pactl list
// ---------------------------------------------------------------------------

/// What follows a key in a line, without white space and quotation marks
/// around it.
pub open spec fn value_after(line: Seq<char>, key: Seq<char>) -> Option<Seq<char>> {
    match after_prefix(trimmed(line), key) {
        Some(rest) => Some(trimmed(unquoted(rest))),
        None => None,
    }
}

/// What follows a key in a line.
pub fn pactl_value(line: &str, key: &str) -> (r: Option<String>)
    ensures
        opt_view(r) == value_after(line@, key@),
{
    match strip_prefix(trim(line).as_str(), key) {
        Some(rest) => {
            let bare = trim_matches(trim(rest.as_str()).as_str(), "\"");
            Some(trim(bare.as_str()))
        },
        None => None,
    }
}

/// The label of a port: what stands behind its name and a colon, up to the
/// first bracket.
pub open spec fn port_label(line: Seq<char>, port_name: Seq<char>) -> Option<Seq<char>> {
    match after_prefix(trimmed(line), port_name) {
        None => None,
        Some(rest) => match after_prefix(rest, ":"@) {
            None => None,
            Some(rest) => {
                let label = trimmed(head_of(trimmed(rest), " ("@));
                if label.len() == 0 {
                    None
                } else {
                    Some(label)
                }
            },
        },
    }
}

/// The label of a port.
pub fn pactl_port_label(line: &str, port_name: &str) -> (r: Option<String>)
    ensures
        opt_view(r) == port_label(line@, port_name@),
{
    let rest = match strip_prefix(trim(line).as_str(), port_name) {
        None => {
            return None;
        },
        Some(rest) => rest,
    };
    let rest = match strip_prefix(rest.as_str(), ":") {
        None => {
            return None;
        },
        Some(rest) => rest,
    };
    let label = trim(split_head(trim(rest.as_str()).as_str(), " (").as_str());
    if label.as_str().is_empty() {
        None
    } else {
        Some(label)
    }
}

/// A device as far as it was read.
#[derive(Debug)]
pub struct PactlAudioDevice {
    pub name: Option<String>,
    pub description: Option<String>,
    pub active_port: Option<String>,
}

/// The value of a [`PactlAudioDevice`].
pub ghost struct PactlView {
    pub name: Option<Seq<char>>,
    pub description: Option<Seq<char>>,
    pub active_port: Option<Seq<char>>,
}

impl View for PactlAudioDevice {
    type V = PactlView;

    open spec fn view(&self) -> PactlView {
        PactlView {
            name: opt_view(self.name),
            description: opt_view(self.description),
            active_port: opt_view(self.active_port),
        }
    }
}

impl Default for PactlAudioDevice {
    fn default() -> (r: PactlAudioDevice)
        ensures
            r@ == (PactlView { name: None, description: None, active_port: None }),
    {
        PactlAudioDevice { name: None, description: None, active_port: None }
    }
}

/// The label of a device: its description, or else its name, and the label of
/// its active port where that says something new.
pub open spec fn device_label(d: PactlView, ports: Seq<(Seq<char>, Seq<char>)>) -> Option<
    Seq<char>,
> {
    let source = match d.description {
        Some(text) => Some(text),
        None => d.name,
    };
    match source {
        None => None,
        Some(text) => {
            let base = normalized(text);
            if base.len() == 0 {
                None
            } else {
                match d.active_port {
                    None => Some(base),
                    Some(port) => match lookup(ports, port) {
                        None => Some(base),
                        Some(label) => {
                            let extra = normalized(label);
                            if extra.len() == 0 || occurs(label_key(base), label_key(extra)) {
                                Some(base)
                            } else {
                                Some(base + " - "@ + extra)
                            }
                        },
                    },
                }
            }
        },
    }
}

/// The label of a device.
pub fn pactl_device_label(device: &PactlAudioDevice, ports: &Vec<(String, String)>) -> (r: Option<
    String,
>)
    ensures
        opt_view(r) == device_label(device@, pair_views(ports@)),
{
    let base = match &device.description {
        Some(text) => normalize_audio_label(text.as_str()),
        None => match &device.name {
            Some(text) => normalize_audio_label(text.as_str()),
            None => {
                return None;
            },
        },
    };
    if base.as_str().is_empty() {
        return None;
    }
    let port = match &device.active_port {
        Some(port) => port,
        None => {
            return Some(base);
        },
    };
    let extra = match get(ports, port) {
        Some(label) => normalize_audio_label(label.as_str()),
        None => {
            return Some(base);
        },
    };
    if extra.as_str().is_empty() || contains(
        audio_label_key(base.as_str()).as_str(),
        audio_label_key(extra.as_str()).as_str(),
    ) {
        Some(base)
    } else {
        Some(base.concat(" - ").concat(extra.as_str()))
    }
}

/// A source that only listens to a sink.
pub open spec fn is_monitor(kind: AudioDeviceKind, name: Seq<char>) -> bool {
    kind == AudioDeviceKind::Source && has_suffix(name, ".monitor"@)
}

/// The list with a device that was read, unless it is a monitor or has no name
/// or label.
pub open spec fn with_pactl_device(
    devices: Seq<ChoiceView>,
    d: PactlView,
    ports: Seq<(Seq<char>, Seq<char>)>,
    kind: AudioDeviceKind,
    default_name: Option<Seq<char>>,
) -> Seq<ChoiceView> {
    match (d.name, device_label(d, ports)) {
        (Some(name), Some(label)) => if is_monitor(kind, name) {
            devices
        } else {
            with_device(devices, name, label, default_name == Some(name))
        },
        _ => devices,
    }
}

fn is_default(name: &String, default_name: &Option<String>) -> (r: bool)
    ensures
        r == (opt_view(*default_name) == Some(name@)),
{
    match default_name {
        Some(d) => *d == *name,
        None => false,
    }
}

/// Adds a device that was read to a list.
pub fn push_pactl_device(
    current: &PactlAudioDevice,
    ports: &Vec<(String, String)>,
    devices: &mut Vec<AudioDeviceChoice>,
    kind: AudioDeviceKind,
    default_name: &Option<String>,
)
    ensures
        choice_views(final(devices)@) == with_pactl_device(
            choice_views(old(devices)@),
            current@,
            pair_views(ports@),
            kind,
            opt_view(*default_name),
        ),
{
    let label = pactl_device_label(current, ports);
    if let Some(name) = &current.name {
        if kind == AudioDeviceKind::Source && ends_with(name.as_str(), ".monitor") {
            return;
        }
        if let Some(label) = label {
            let first = is_default(name, default_name);
            push_unique_audio_device(devices, name.clone(), label, first);
        }
    }
}

/// What was read of the output of `pactl list`.
pub ghost struct PactlState {
    pub devices: Seq<ChoiceView>,
    pub current: PactlView,
    pub ports: Seq<(Seq<char>, Seq<char>)>,
    pub in_ports: bool,
}

/// The word that the header of a device starts with.
pub open spec fn header_word(kind: AudioDeviceKind) -> Seq<char> {
    match kind {
        AudioDeviceKind::Sink => "Sink #"@,
        AudioDeviceKind::Source => "Source #"@,
    }
}

/// The device under way has something to be listed.
pub open spec fn under_way(s: PactlState) -> bool {
    s.current.name is Some || s.current.description is Some
}

pub open spec fn no_device() -> PactlView {
    PactlView { name: None, description: None, active_port: None }
}

/// The ports with the one of a line, where the line holds one.
pub open spec fn with_port(ports: Seq<(Seq<char>, Seq<char>)>, line: Seq<char>) -> Seq<
    (Seq<char>, Seq<char>),
> {
    match cut(line, ':') {
        None => ports,
        Some((name, _)) => match port_label(line, trimmed(name)) {
            None => ports,
            Some(label) => with_pair(ports, trimmed(name), label),
        },
    }
}

/// What was read after one more line.
pub open spec fn pactl_step(
    s: PactlState,
    line: Seq<char>,
    kind: AudioDeviceKind,
    default_name: Option<Seq<char>>,
) -> PactlState {
    let t = trimmed(line);
    if has_prefix(t, header_word(kind)) {
        if under_way(s) {
            PactlState {
                devices: with_pactl_device(s.devices, s.current, s.ports, kind, default_name),
                current: no_device(),
                ports: Seq::empty(),
                in_ports: false,
            }
        } else {
            s
        }
    } else if value_after(line, "Name:"@) is Some {
        PactlState { current: PactlView { name: value_after(line, "Name:"@), ..s.current }, ..s }
    } else if value_after(line, "Description:"@) is Some {
        PactlState {
            current: PactlView { description: value_after(line, "Description:"@), ..s.current },
            ..s
        }
    } else if t == "Ports:"@ {
        PactlState { in_ports: true, ..s }
    } else if value_after(line, "Active Port:"@) is Some {
        PactlState {
            current: PactlView { active_port: value_after(line, "Active Port:"@), ..s.current },
            in_ports: false,
            ..s
        }
    } else if !s.in_ports {
        s
    } else if !(line.len() > 0 && is_space(line[0])) || has_suffix(t, ":"@) {
        PactlState { in_ports: false, ..s }
    } else {
        PactlState { ports: with_port(s.ports, t), ..s }
    }
}

/// What was read after a list of lines.
pub open spec fn pactl_read(
    lines: Seq<Seq<char>>,
    kind: AudioDeviceKind,
    default_name: Option<Seq<char>>,
) -> PactlState
    decreases lines.len(),
{
    if lines.len() == 0 {
        PactlState {
            devices: Seq::empty(),
            current: no_device(),
            ports: Seq::empty(),
            in_ports: false,
        }
    } else {
        pactl_step(
            pactl_read(lines.drop_last(), kind, default_name),
            lines.last(),
            kind,
            default_name,
        )
    }
}

/// The devices of the output of `pactl list`.
pub open spec fn pactl_devices(
    output: Seq<char>,
    kind: AudioDeviceKind,
    default_name: Option<Seq<char>>,
) -> Seq<ChoiceView> {
    let s = pactl_read(lines_of(output), kind, default_name);
    if under_way(s) {
        with_pactl_device(s.devices, s.current, s.ports, kind, default_name)
    } else {
        s.devices
    }
}

struct PactlReader {
    devices: Vec<AudioDeviceChoice>,
    current: PactlAudioDevice,
    ports: Vec<(String, String)>,
    in_ports: bool,
}

impl View for PactlReader {
    type V = PactlState;

    closed spec fn view(&self) -> PactlState {
        PactlState {
            devices: choice_views(self.devices@),
            current: self.current@,
            ports: pair_views(self.ports@),
            in_ports: self.in_ports,
        }
    }
}

fn starts_with_space(line: &str) -> (r: bool)
    ensures
        r == (line@.len() > 0 && is_space(line@[0])),
{
    let chars = chars_of(line);
    chars.len() > 0 && space(chars[0])
}

impl PactlReader {
    fn flush(&mut self, kind: AudioDeviceKind, default_name: &Option<String>)
        ensures
            final(self)@ == if under_way(old(self)@) {
                PactlState {
                    devices: with_pactl_device(
                        old(self)@.devices,
                        old(self)@.current,
                        old(self)@.ports,
                        kind,
                        opt_view(*default_name),
                    ),
                    current: no_device(),
                    ports: Seq::empty(),
                    in_ports: false,
                }
            } else {
                old(self)@
            },
    {
        if self.current.name.is_some() || self.current.description.is_some() {
            push_pactl_device(
                &self.current,
                &self.ports,
                &mut self.devices,
                kind,
                default_name,
            );
            self.current = PactlAudioDevice::default();
            self.ports = Vec::new();
            self.in_ports = false;
            assert(pair_views(self.ports@) =~= Seq::<(Seq<char>, Seq<char>)>::empty());
        }
    }

    fn read_port(&mut self, line: &str)
        ensures
            final(self)@ == (PactlState {
                ports: with_port(old(self)@.ports, line@),
                ..old(self)@
            }),
    {
        if let Some((name, _)) = split_once(line, ':') {
            let name = trim(name.as_str());
            if let Some(label) = pactl_port_label(line, name.as_str()) {
                set_pair(&mut self.ports, name, label);
            }
        }
    }

    fn read_line(&mut self, line: &str, kind: AudioDeviceKind, default_name: &Option<String>)
        ensures
            final(self)@ == pactl_step(old(self)@, line@, kind, opt_view(*default_name)),
    {
        let t = trim(line);
        let word = match kind {
            AudioDeviceKind::Sink => "Sink #",
            AudioDeviceKind::Source => "Source #",
        };
        if starts_with(t.as_str(), word) {
            self.flush(kind, default_name);
            return;
        }
        if let Some(name) = pactl_value(line, "Name:") {
            self.current.name = Some(name);
            return;
        }
        if let Some(description) = pactl_value(line, "Description:") {
            self.current.description = Some(description);
            return;
        }
        if same(t.as_str(), "Ports:") {
            self.in_ports = true;
            return;
        }
        if let Some(port) = pactl_value(line, "Active Port:") {
            self.current.active_port = Some(port);
            self.in_ports = false;
            return;
        }
        if self.in_ports {
            if !starts_with_space(line) || ends_with(t.as_str(), ":") {
                self.in_ports = false;
                return;
            }
            self.read_port(t.as_str());
        }
    }
}

/// The devices that `pactl list sinks` or `pactl list sources` names, the
/// default one first.
pub fn parse_pactl_devices(
    output: &str,
    kind: AudioDeviceKind,
    default_name: &Option<String>,
) -> (r: Vec<AudioDeviceChoice>)
    ensures
        choice_views(r@) == pactl_devices(output@, kind, opt_view(*default_name)),
{
    let all = lines(output);
    let ghost text = views(all@);
    let mut reader = PactlReader {
        devices: Vec::new(),
        current: PactlAudioDevice::default(),
        ports: Vec::new(),
        in_ports: false,
    };
    let mut i: usize = 0;
    proof {
        assert(choice_views(reader.devices@) =~= Seq::<ChoiceView>::empty());
        assert(pair_views(reader.ports@) =~= Seq::<(Seq<char>, Seq<char>)>::empty());
    }
    while i < all.len()
        invariant
            i <= all.len(),
            text == views(all@),
            reader@ == pactl_read(text.take(i as int), kind, opt_view(*default_name)),
        decreases all.len() - i,
    {
        proof {
            assert(text.take(i + 1).drop_last() =~= text.take(i as int));
            assert(text.take(i + 1).last() == all@[i as int]@);
        }
        reader.read_line(all[i].as_str(), kind, default_name);
        i += 1;
    }
    assert(text.take(i as int) =~= text);
    reader.flush(kind, default_name);
    reader.devices
}

proof fn lemma_pactl_read(
    lines: Seq<Seq<char>>,
    kind: AudioDeviceKind,
    default_name: Option<Seq<char>>,
)
    ensures
        proper(pactl_read(lines, kind, default_name).devices),
        default_first(pactl_read(lines, kind, default_name).devices, default_name),
    decreases lines.len(),
{
    if lines.len() > 0 {
        let s = pactl_read(lines.drop_last(), kind, default_name);
        lemma_pactl_read(lines.drop_last(), kind, default_name);
        lemma_with_pactl_device(s.devices, s.current, s.ports, kind, default_name);
    }
}

proof fn lemma_with_pactl_device(
    devices: Seq<ChoiceView>,
    d: PactlView,
    ports: Seq<(Seq<char>, Seq<char>)>,
    kind: AudioDeviceKind,
    default_name: Option<Seq<char>>,
)
    requires
        proper(devices),
        default_first(devices, default_name),
    ensures
        proper(with_pactl_device(devices, d, ports, kind, default_name)),
        default_first(with_pactl_device(devices, d, ports, kind, default_name), default_name),
{
    match (d.name, device_label(d, ports)) {
        (Some(name), Some(label)) => {
            law_with_device(devices, name, label, default_name == Some(name), default_name);
        },
        _ => {},
    }
}

/// Whatever `pactl list` prints, each device is listed once, with a selector
/// and a label, and the default device, where it is listed, is the first.
pub proof fn law_pactl_devices(
    output: Seq<char>,
    kind: AudioDeviceKind,
    default_name: Option<Seq<char>>,
)
    ensures
        proper(pactl_devices(output, kind, default_name)),
        default_first(pactl_devices(output, kind, default_name), default_name),
{
    let s = pactl_read(lines_of(output), kind, default_name);
    lemma_pactl_read(lines_of(output), kind, default_name);
    lemma_with_pactl_device(s.devices, s.current, s.ports, kind, default_name);
}

// ---------------------------------------------------------------------------
// pactl list short
// ---------------------------------------------------------------------------

/// The list with the device of a line: its second field between tabs.
pub open spec fn with_short_line(
    devices: Seq<ChoiceView>,
    line: Seq<char>,
    kind: AudioDeviceKind,
    default_name: Option<Seq<char>>,
) -> Seq<ChoiceView> {
    let fields = split_at_each(line, '\t');
    if fields.len() < 2 {
        devices
    } else {
        let name = trimmed(fields[1]);
        if name.len() == 0 || is_monitor(kind, name) {
            devices
        } else {
            with_device(devices, name, name, default_name == Some(name))
        }
    }
}

/// The devices of a list of lines.
pub open spec fn short_devices(
    lines: Seq<Seq<char>>,
    kind: AudioDeviceKind,
    default_name: Option<Seq<char>>,
) -> Seq<ChoiceView>
    decreases lines.len(),
{
    if lines.len() == 0 {
        Seq::empty()
    } else {
        with_short_line(
            short_devices(lines.drop_last(), kind, default_name),
            lines.last(),
            kind,
            default_name,
        )
    }
}

fn push_short_line(
    devices: &mut Vec<AudioDeviceChoice>,
    line: &str,
    kind: AudioDeviceKind,
    default_name: &Option<String>,
)
    ensures
        choice_views(final(devices)@) == with_short_line(
            choice_views(old(devices)@),
            line@,
            kind,
            opt_view(*default_name),
        ),
{
    let fields = split(line, '\t');
    assert(views(fields@).len() == fields.len());
    if fields.len() < 2 {
        return;
    }
    assert(views(fields@)[1] == fields@[1]@);
    let name = trim(fields[1].as_str());
    if name.as_str().is_empty() || (kind == AudioDeviceKind::Source && ends_with(
        name.as_str(),
        ".monitor",
    )) {
        return;
    }
    let first = is_default(&name, default_name);
    push_unique_audio_device(devices, name.clone(), name, first);
}

/// The devices that `pactl list short` names, the default one first.
pub fn parse_pactl_short_devices(
    output: &str,
    kind: AudioDeviceKind,
    default_name: &Option<String>,
) -> (r: Vec<AudioDeviceChoice>)
    ensures
        choice_views(r@) == short_devices(lines_of(output@), kind, opt_view(*default_name)),
{
    let all = lines(output);
    let ghost text = views(all@);
    let mut devices: Vec<AudioDeviceChoice> = Vec::new();
    let mut i: usize = 0;
    assert(choice_views(devices@) =~= Seq::<ChoiceView>::empty());
    while i < all.len()
        invariant
            i <= all.len(),
            text == views(all@),
            choice_views(devices@) == short_devices(
                text.take(i as int),
                kind,
                opt_view(*default_name),
            ),
        decreases all.len() - i,
    {
        proof {
            assert(text.take(i + 1).drop_last() =~= text.take(i as int));
            assert(text.take(i + 1).last() == all@[i as int]@);
        }
        push_short_line(&mut devices, all[i].as_str(), kind, default_name);
        i += 1;
    }
    assert(text.take(i as int) =~= text);
    devices
}

/// Whatever `pactl list short` prints, each device is listed once, and the
/// default device, where it is listed, is the first.
pub proof fn law_short_devices(
    lines: Seq<Seq<char>>,
    kind: AudioDeviceKind,
    default_name: Option<Seq<char>>,
)
    ensures
        proper(short_devices(lines, kind, default_name)),
        default_first(short_devices(lines, kind, default_name), default_name),
    decreases lines.len(),
{
    if lines.len() > 0 {
        let before = short_devices(lines.drop_last(), kind, default_name);
        law_short_devices(lines.drop_last(), kind, default_name);
        let fields = split_at_each(lines.last(), '\t');
        if fields.len() >= 2 {
            let name = trimmed(fields[1]);
            law_with_device(before, name, name, default_name == Some(name), default_name);
        }
    }
}

// ---------------------------------------------------------------------------
// wpctl status
// ---------------------------------------------------------------------------

/// The heading of a kind of devices.
pub open spec fn section_word(kind: AudioDeviceKind) -> Seq<char> {
    match kind {
        AudioDeviceKind::Sink => "Sinks:"@,
        AudioDeviceKind::Source => "Sources:"@,
    }
}

/// Text without white space around it and without stars in front.
pub open spec fn unstarred(text: Seq<char>) -> Seq<char> {
    trimmed(trim_front(trimmed(text), any_of("*"@)))
}

/// The list with the device of a line: a number, a dot and a label, which ends
/// at a bracket. A star marks the default device.
pub open spec fn with_wpctl_line(devices: Seq<ChoiceView>, t: Seq<char>) -> Seq<ChoiceView> {
    match cut_at(t, ". "@) {
        None => devices,
        Some((id, rest)) => {
            let label = unstarred(head_of(rest, " ["@));
            if label.len() == 0 || occurs(lowered(label), "monitor"@) {
                devices
            } else {
                with_device(devices, "wpctl:"@ + unstarred(id), label, t.contains('*'))
            }
        },
    }
}

/// What was read of the output of `wpctl status`.
pub ghost struct WpctlState {
    pub devices: Seq<ChoiceView>,
    pub in_section: bool,
    /// The section was left.
    pub ended: bool,
}

/// What was read after one more line.
pub open spec fn wpctl_step(s: WpctlState, line: Seq<char>, kind: AudioDeviceKind) -> WpctlState {
    let t = trimmed(line);
    if s.ended {
        s
    } else if occurs(t, section_word(kind)) {
        WpctlState { in_section: true, ..s }
    } else if !s.in_section {
        s
    } else if has_suffix(t, ":"@) {
        WpctlState { ended: true, ..s }
    } else {
        WpctlState { devices: with_wpctl_line(s.devices, t), ..s }
    }
}

/// What was read after a list of lines.
pub open spec fn wpctl_read(lines: Seq<Seq<char>>, kind: AudioDeviceKind) -> WpctlState
    decreases lines.len(),
{
    if lines.len() == 0 {
        WpctlState { devices: Seq::empty(), in_section: false, ended: false }
    } else {
        wpctl_step(wpctl_read(lines.drop_last(), kind), lines.last(), kind)
    }
}

proof fn lemma_wpctl_ended(lines: Seq<Seq<char>>, kind: AudioDeviceKind, n: int)
    requires
        0 <= n <= lines.len(),
        wpctl_read(lines.take(n), kind).ended,
    ensures
        wpctl_read(lines, kind) == wpctl_read(lines.take(n), kind),
    decreases lines.len(),
{
    if n == lines.len() {
        assert(lines.take(n) =~= lines);
    } else {
        assert(lines.drop_last().take(n) =~= lines.take(n));
        lemma_wpctl_ended(lines.drop_last(), kind, n);
    }
}

fn unstar(text: &str) -> (r: String)
    ensures
        r@ == unstarred(text@),
{
    trim(trim_start_matches(trim(text).as_str(), "*").as_str())
}

fn push_wpctl_line(devices: &mut Vec<AudioDeviceChoice>, t: &str)
    ensures
        choice_views(final(devices)@) == with_wpctl_line(choice_views(old(devices)@), t@),
{
    if let Some((id, rest)) = split_once_at(t, ". ") {
        let label = unstar(split_head(rest.as_str(), " [").as_str());
        if label.as_str().is_empty() || contains(
            to_ascii_lowercase(label.as_str()).as_str(),
            "monitor",
        ) {
            return;
        }
        let selector = "wpctl:".to_owned().concat(unstar(id.as_str()).as_str());
        let first = contains_char(t, '*');
        push_unique_audio_device(devices, selector, label, first);
    }
}

/// The devices that `wpctl status` names in the section of a kind.
pub fn parse_wpctl_devices(output: &str, kind: AudioDeviceKind) -> (r: Vec<AudioDeviceChoice>)
    ensures
        choice_views(r@) == wpctl_read(lines_of(output@), kind).devices,
{
    let all = lines(output);
    let ghost text = views(all@);
    let section = match kind {
        AudioDeviceKind::Sink => "Sinks:",
        AudioDeviceKind::Source => "Sources:",
    };
    let mut devices: Vec<AudioDeviceChoice> = Vec::new();
    let mut in_section = false;
    let mut i: usize = 0;
    assert(choice_views(devices@) =~= Seq::<ChoiceView>::empty());
    while i < all.len()
        invariant
            i <= all.len(),
            text == views(all@),
            text == lines_of(output@),
            section@ == section_word(kind),
            wpctl_read(text.take(i as int), kind) == (WpctlState {
                devices: choice_views(devices@),
                in_section,
                ended: false,
            }),
        decreases all.len() - i,
    {
        proof {
            assert(text.take(i + 1).drop_last() =~= text.take(i as int));
            assert(text.take(i + 1).last() == all@[i as int]@);
        }
        let t = trim(all[i].as_str());
        if contains(t.as_str(), section) {
            in_section = true;
        } else if in_section {
            if ends_with(t.as_str(), ":") {
                proof {
                    lemma_wpctl_ended(text, kind, i + 1);
                }
                return devices;
            }
            push_wpctl_line(&mut devices, t.as_str());
        }
        i += 1;
    }
    assert(text.take(i as int) =~= text);
    devices
}

/// Whatever `wpctl status` prints, each device is listed once, with a selector
/// and a label.
pub proof fn law_wpctl_devices(lines: Seq<Seq<char>>, kind: AudioDeviceKind)
    ensures
        proper(wpctl_read(lines, kind).devices),
    decreases lines.len(),
{
    if lines.len() > 0 {
        let s = wpctl_read(lines.drop_last(), kind);
        law_wpctl_devices(lines.drop_last(), kind);
        let t = trimmed(lines.last());
        if let Some((id, rest)) = cut_at(t, ". "@) {
            law_with_device(
                s.devices,
                "wpctl:"@ + unstarred(id),
                unstarred(head_of(rest, " ["@)),
                t.contains('*'),
                None,
            );
        }
    }
}

// ---------------------------------------------------------------------------
// The default device
// ---------------------------------------------------------------------------

pub open spec fn default_key(kind: AudioDeviceKind) -> Seq<char> {
    match kind {
        AudioDeviceKind::Sink => "Default Sink:"@,
        AudioDeviceKind::Source => "Default Source:"@,
    }
}

/// The value of the first line that starts with a key.
pub open spec fn first_value(lines: Seq<Seq<char>>, key: Seq<char>, from: int) -> Option<Seq<char>>
    decreases lines.len() - from,
{
    if from < 0 || from >= lines.len() {
        None
    } else if value_after(lines[from], key) is Some {
        value_after(lines[from], key)
    } else {
        first_value(lines, key, from + 1)
    }
}

/// The default device that `pactl info` names.
pub fn parse_pactl_default_device(output: &str, kind: AudioDeviceKind) -> (r: Option<String>)
    ensures
        opt_view(r) == first_value(lines_of(output@), default_key(kind), 0),
{
    let key = match kind {
        AudioDeviceKind::Sink => "Default Sink:",
        AudioDeviceKind::Source => "Default Source:",
    };
    let all = lines(output);
    let ghost text = views(all@);
    let mut i: usize = 0;
    while i < all.len()
        invariant
            i <= all.len(),
            text == views(all@),
            key@ == default_key(kind),
            text == lines_of(output@),
            first_value(text, key@, 0) == first_value(text, key@, i as int),
        decreases all.len() - i,
    {
        assert(text[i as int] == all@[i as int]@);
        if let Some(value) = pactl_value(all[i].as_str(), key) {
            return Some(value);
        }
        i += 1;
    }
    None
}

/// The command that makes a device the default.
pub open spec fn set_default_command(kind: AudioDeviceKind, selector: Seq<char>) -> CommandView {
    match after_prefix(selector, "wpctl:"@) {
        Some(id) => command_of("wpctl"@, seq!["set-default"@, id]),
        None => command_of(
            "pactl"@,
            seq![
                match kind {
                    AudioDeviceKind::Sink => "set-default-sink"@,
                    AudioDeviceKind::Source => "set-default-source"@,
                },
                selector,
            ],
        ),
    }
}

/// The command that makes a device the default.
pub fn set_default_audio_device(kind: AudioDeviceKind, selector: &str) -> (r: ControlCommand)
    ensures
        r@ == set_default_command(kind, selector@),
{
    if let Some(id) = strip_prefix(selector, "wpctl:") {
        let r = command("wpctl").arg("set-default").arg(id.as_str());
        assert(r@.args =~= seq!["set-default"@, id@]);
        return r;
    }
    let verb = match kind {
        AudioDeviceKind::Sink => "set-default-sink",
        AudioDeviceKind::Source => "set-default-source",
    };
    let r = command("pactl").arg(verb).arg(selector);
    assert(r@.args =~= seq![verb@, selector@]);
    r
}

// ---------------------------------------------------------------------------
// Finding the devices
// ---------------------------------------------------------------------------

/// How far the search for devices has come: which program is asked next, and
/// what is known from those before.
#[derive(Debug)]
pub enum AudioLoad {
    /// `pactl list`.
    List { kind: AudioDeviceKind },
    /// `pactl info`, after the list.
    Info { kind: AudioDeviceKind, list: String },
    /// `pactl list short`, after a list without devices.
    Short { kind: AudioDeviceKind, default_name: Option<String> },
    /// `wpctl status`, after `pactl` failed.
    Status { kind: AudioDeviceKind, error: String },
}

/// The value of an [`AudioLoad`].
pub ghost enum AudioLoadView {
    List { kind: AudioDeviceKind },
    Info { kind: AudioDeviceKind, list: Seq<char> },
    Short { kind: AudioDeviceKind, default_name: Option<Seq<char>> },
    Status { kind: AudioDeviceKind, error: Seq<char> },
}

impl View for AudioLoad {
    type V = AudioLoadView;

    open spec fn view(&self) -> AudioLoadView {
        match *self {
            AudioLoad::List { kind } => AudioLoadView::List { kind },
            AudioLoad::Info { kind, list } => AudioLoadView::Info { kind, list: list@ },
            AudioLoad::Short { kind, default_name } => AudioLoadView::Short {
                kind,
                default_name: opt_view(default_name),
            },
            AudioLoad::Status { kind, error } => AudioLoadView::Status { kind, error: error@ },
        }
    }
}

/// What follows an answer: another question, or the devices.
#[derive(Debug)]
pub enum AudioNext {
    Ask { load: AudioLoad },
    Found { devices: Vec<AudioDeviceChoice> },
    Failed { error: String },
}

/// The value of an [`AudioNext`].
pub ghost enum AudioNextView {
    Ask { load: AudioLoadView },
    Found { devices: Seq<ChoiceView> },
    Failed { error: Seq<char> },
}

impl View for AudioNext {
    type V = AudioNextView;

    open spec fn view(&self) -> AudioNextView {
        match *self {
            AudioNext::Ask { load } => AudioNextView::Ask { load: load@ },
            AudioNext::Found { devices } => AudioNextView::Found {
                devices: choice_views(devices@),
            },
            AudioNext::Failed { error } => AudioNextView::Failed { error: error@ },
        }
    }
}

pub open spec fn list_word(kind: AudioDeviceKind) -> Seq<char> {
    match kind {
        AudioDeviceKind::Sink => "sinks"@,
        AudioDeviceKind::Source => "sources"@,
    }
}

/// The program that is asked next.
pub open spec fn audio_question(load: AudioLoadView) -> CommandView {
    match load {
        AudioLoadView::List { kind } => command_of("pactl"@, seq!["list"@, list_word(kind)]),
        AudioLoadView::Info { .. } => command_of("pactl"@, seq!["info"@]),
        AudioLoadView::Short { kind, .. } => command_of(
            "pactl"@,
            seq!["list"@, "short"@, list_word(kind)],
        ),
        AudioLoadView::Status { .. } => command_of("wpctl"@, seq!["status"@]),
    }
}

/// What follows an answer. Where `pactl` lists nothing, its short list is
/// tried; where it fails, `wpctl` is asked.
pub open spec fn audio_answer(
    load: AudioLoadView,
    answer: Result<Seq<char>, Seq<char>>,
) -> AudioNextView {
    match (load, answer) {
        (AudioLoadView::List { kind }, Ok(list)) => AudioNextView::Ask {
            load: AudioLoadView::Info { kind, list },
        },
        (AudioLoadView::List { kind }, Err(error)) => AudioNextView::Ask {
            load: AudioLoadView::Status { kind, error },
        },
        (AudioLoadView::Info { kind, list }, info) => {
            let default_name = match info {
                Ok(text) => first_value(lines_of(text), default_key(kind), 0),
                Err(_) => None,
            };
            let devices = pactl_devices(list, kind, default_name);
            if devices.len() == 0 {
                AudioNextView::Ask { load: AudioLoadView::Short { kind, default_name } }
            } else {
                AudioNextView::Found { devices }
            }
        },
        (AudioLoadView::Short { kind, default_name }, Ok(text)) => AudioNextView::Found {
            devices: short_devices(lines_of(text), kind, default_name),
        },
        (AudioLoadView::Short { .. }, Err(error)) => AudioNextView::Failed { error },
        (AudioLoadView::Status { kind, .. }, Ok(text)) => AudioNextView::Found {
            devices: wpctl_read(lines_of(text), kind).devices,
        },
        (AudioLoadView::Status { error, .. }, Err(second)) => AudioNextView::Failed {
            error: error + "; "@ + second,
        },
    }
}

impl AudioLoad {
    /// The program to ask next.
    pub fn question(&self) -> (r: ControlCommand)
        ensures
            r@ == audio_question(self@),
    {
        match self {
            AudioLoad::List { kind } => {
                let word = match kind {
                    AudioDeviceKind::Sink => "sinks",
                    AudioDeviceKind::Source => "sources",
                };
                let r = command("pactl").arg("list").arg(word);
                assert(r@.args =~= seq!["list"@, word@]);
                r
            },
            AudioLoad::Info { .. } => {
                let r = command("pactl").arg("info");
                assert(r@.args =~= seq!["info"@]);
                r
            },
            AudioLoad::Short { kind, .. } => {
                let word = match kind {
                    AudioDeviceKind::Sink => "sinks",
                    AudioDeviceKind::Source => "sources",
                };
                let r = command("pactl").arg("list").arg("short").arg(word);
                assert(r@.args =~= seq!["list"@, "short"@, word@]);
                r
            },
            AudioLoad::Status { .. } => {
                let r = command("wpctl").arg("status");
                assert(r@.args =~= seq!["status"@]);
                r
            },
        }
    }

    /// Takes the answer of that program.
    pub fn answer(self, answer: Result<String, String>) -> (r: AudioNext)
        ensures
            r@ == audio_answer(self@, result_view(answer)),
    {
        match self {
            AudioLoad::List { kind } => match answer {
                Ok(list) => AudioNext::Ask { load: AudioLoad::Info { kind, list } },
                Err(error) => AudioNext::Ask { load: AudioLoad::Status { kind, error } },
            },
            AudioLoad::Info { kind, list } => {
                let default_name = match answer {
                    Ok(text) => parse_pactl_default_device(text.as_str(), kind),
                    Err(_) => None,
                };
                let devices = parse_pactl_devices(list.as_str(), kind, &default_name);
                assert(choice_views(devices@).len() == devices.len());
                if devices.len() == 0 {
                    AudioNext::Ask { load: AudioLoad::Short { kind, default_name } }
                } else {
                    AudioNext::Found { devices }
                }
            },
            AudioLoad::Short { kind, default_name } => match answer {
                Ok(text) => AudioNext::Found {
                    devices: parse_pactl_short_devices(text.as_str(), kind, &default_name),
                },
                Err(error) => AudioNext::Failed { error },
            },
            AudioLoad::Status { kind, error } => match answer {
                Ok(text) => AudioNext::Found { devices: parse_wpctl_devices(text.as_str(), kind) },
                Err(second) => AudioNext::Failed {
                    error: error.concat("; ").concat(second.as_str()),
                },
            },
        }
    }
}

/// The search starts with the list of `pactl`.
pub fn load_audio_devices(kind: AudioDeviceKind) -> (r: AudioLoad)
    ensures
        r@ == (AudioLoadView::List { kind }),
{
    AudioLoad::List { kind }
}

/// How many questions may still be asked.
pub open spec fn questions_left(load: AudioLoadView) -> nat {
    match load {
        AudioLoadView::List { .. } => 3,
        AudioLoadView::Info { .. } => 2,
        AudioLoadView::Short { .. } => 1,
        AudioLoadView::Status { .. } => 1,
    }
}

/// The search ends after at most three questions, and what it finds is listed
/// once each.
pub proof fn law_audio_search(load: AudioLoadView, answer: Result<Seq<char>, Seq<char>>)
    ensures
        audio_answer(load, answer) is Ask ==> questions_left(audio_answer(load, answer)->load)
            < questions_left(load),
        audio_answer(load, answer) is Found ==> proper(audio_answer(load, answer)->devices),
{
    match (load, answer) {
        (AudioLoadView::Info { kind, list }, info) => {
            let default_name = match info {
                Ok(text) => first_value(lines_of(text), default_key(kind), 0),
                Err(_) => None,
            };
            law_pactl_devices(list, kind, default_name);
        },
        (AudioLoadView::Short { kind, default_name }, Ok(text)) => {
            law_short_devices(lines_of(text), kind, default_name);
        },
        (AudioLoadView::Status { kind, .. }, Ok(text)) => {
            law_wpctl_devices(lines_of(text), kind);
        },
        _ => {},
    }
}

// ---------------------------------------------------------------------------
// The volume
// ---------------------------------------------------------------------------

/// The words of a text that end in a percent sign, without it.
pub open spec fn percents(words: Seq<Seq<char>>) -> Seq<Seq<char>>
    decreases words.len(),
{
    if words.len() == 0 {
        Seq::empty()
    } else {
        let before = percents(words.drop_last());
        match before_suffix(words.last(), "%"@) {
            Some(number) => before.push(number),
            None => before,
        }
    }
}

/// What `pactl get-sink-volume` may name as the volume: the words that end in a
/// percent sign, without it. The first that is a number is the volume.
pub fn pactl_percents(output: &str) -> (r: Vec<String>)
    ensures
        views(r@) == percents(words_of(output@)),
{
    let words = split_whitespace(output);
    let ghost all = views(words@);
    let mut out: Vec<String> = Vec::new();
    let mut i: usize = 0;
    assert(views(out@) =~= percents(all.take(0)));
    while i < words.len()
        invariant
            i <= words.len(),
            all == views(words@),
            views(out@) == percents(all.take(i as int)),
        decreases words.len() - i,
    {
        proof {
            assert(all.take(i + 1).drop_last() =~= all.take(i as int));
            assert(all.take(i + 1).last() == words@[i as int]@);
        }
        if let Some(number) = strip_suffix(words[i].as_str(), "%") {
            proof {
                crate::text::lemma_views_push(out@, number);
            }
            out.push(number);
        }
        i += 1;
    }
    assert(all.take(i as int) =~= all);
    out
}

/// The commands that read the volume: `wpctl`, and where that fails `pactl`.
pub fn get_volume_command(fallback: bool) -> (r: ControlCommand)
    ensures
        r@ == if fallback {
            command_of("pactl"@, seq!["get-sink-volume"@, "@DEFAULT_SINK@"@])
        } else {
            command_of("wpctl"@, seq!["get-volume"@, "@DEFAULT_AUDIO_SINK@"@])
        },
{
    if fallback {
        let r = command("pactl").arg("get-sink-volume").arg("@DEFAULT_SINK@");
        assert(r@.args =~= seq!["get-sink-volume"@, "@DEFAULT_SINK@"@]);
        r
    } else {
        let r = command("wpctl").arg("get-volume").arg("@DEFAULT_AUDIO_SINK@");
        assert(r@.args =~= seq!["get-volume"@, "@DEFAULT_AUDIO_SINK@"@]);
        r
    }
}

/// The command that sets the volume to a value.
pub open spec fn volume_setter(fallback: bool, value: Seq<char>) -> CommandView {
    if fallback {
        command_of("pactl"@, seq!["set-sink-volume"@, "@DEFAULT_SINK@"@, value])
    } else {
        command_of("wpctl"@, seq!["set-volume"@, "@DEFAULT_AUDIO_SINK@"@, value])
    }
}

/// The commands that set the volume: `wpctl` with a share of one, and where
/// that fails `pactl` with a percentage.
pub fn set_volume_command(fallback: bool, value: &str) -> (r: ControlCommand)
    ensures
        r@ == volume_setter(fallback, value@),
        r@ == if fallback {
            command_of("pactl"@, seq!["set-sink-volume"@, "@DEFAULT_SINK@"@, value@])
        } else {
            command_of("wpctl"@, seq!["set-volume"@, "@DEFAULT_AUDIO_SINK@"@, value@])
        },
{
    if fallback {
        let r = command("pactl").arg("set-sink-volume").arg("@DEFAULT_SINK@").arg(value);
        assert(r@.args =~= seq!["set-sink-volume"@, "@DEFAULT_SINK@"@, value@]);
        r
    } else {
        let r = command("wpctl").arg("set-volume").arg("@DEFAULT_AUDIO_SINK@").arg(value);
        assert(r@.args =~= seq!["set-volume"@, "@DEFAULT_AUDIO_SINK@"@, value@]);
        r
    }
}

/// The error where both programs failed.
pub fn both_failed(first: &str, second: &str) -> (r: String)
    ensures
        r@ == first@ + "; "@ + second@,
{
    first.to_owned().concat("; ").concat(second)
}

/// The error where a program answered with something that is no volume.
pub fn unreadable_volume(fallback: bool) -> (r: &'static str)
    ensures
        r@ == if fallback {
            "pactl returned an unreadable volume"@
        } else {
            "wpctl returned an unreadable volume"@
        },
{
    if fallback {
        "pactl returned an unreadable volume"
    } else {
        "wpctl returned an unreadable volume"
    }
}

// ---------------------------------------------------------------------------
// What the lists are for
// ---------------------------------------------------------------------------

/// The `n`-th line is the first that names the default device of a kind.
pub open spec fn names_default(
    lines: Seq<Seq<char>>,
    n: int,
    kind: AudioDeviceKind,
    name: Seq<char>,
) -> bool {
    let key = match kind {
        AudioDeviceKind::Sink => "Default Sink:"@,
        AudioDeviceKind::Source => "Default Source:"@,
    };
    &&& 0 <= n < lines.len()
    &&& value_after(lines[n], key) == Some(name)
    &&& forall|i: int| 0 <= i < n ==> value_after(#[trigger] lines[i], key) is None
}

proof fn lemma_first_value(lines: Seq<Seq<char>>, key: Seq<char>, from: int, n: int)
    requires
        0 <= from <= n < lines.len(),
        value_after(lines[n], key) is Some,
        forall|i: int| from <= i < n ==> value_after(#[trigger] lines[i], key) is None,
    ensures
        first_value(lines, key, from) == value_after(lines[n], key),
    decreases n - from,
{
    if from < n {
        assert(value_after(lines[from], key) is None);
        lemma_first_value(lines, key, from + 1, n);
    }
}

/// The device that the sound server names as its default is the first of the
/// devices that are found, where it is among them: the menu shows the first as
/// chosen. This holds of the long list and, where that held no device, of the
/// short one.
pub proof fn law_default_device_is_first(
    kind: AudioDeviceKind,
    list: Seq<char>,
    info: Seq<char>,
    short: Seq<char>,
    n: int,
    name: Seq<char>,
    i: int,
)
    requires
        names_default(lines_of(info), n, kind, name),
    ensures
        ({
            let listed = audio_answer(AudioLoadView::List { kind }, Ok(list));
            let informed = audio_answer(listed->load, Ok(info));
            &&& listed is Ask && !(informed is Failed)
            &&& informed is Found && 0 <= i < informed->devices.len()
                && informed->devices[i].selector == name ==> i == 0
            &&& informed is Ask ==> {
                let found = audio_answer(informed->load, Ok(short));
                found is Found && (0 <= i < found->devices.len() && found->devices[i].selector
                    == name ==> i == 0)
            }
        }),
{
    let lines = lines_of(info);
    lemma_first_value(lines, default_key(kind), 0, n);
    let default_name = Some(name);
    law_pactl_devices(list, kind, default_name);
    law_short_devices(lines_of(short), kind, default_name);
    let long = pactl_devices(list, kind, default_name);
    let brief = short_devices(lines_of(short), kind, default_name);
    if 0 <= i < long.len() && long[i].selector == name {
        assert(listed(long, name));
        assert(long[0].selector == name);
    }
    if 0 <= i < brief.len() && brief[i].selector == name {
        assert(listed(brief, name));
        assert(brief[0].selector == name);
    }
}

/// What the search does where `pactl` fails: it asks `wpctl`, and where that
/// fails too it says why, both times. An unknown default is no failure.
pub proof fn law_audio_search_falls_back(
    kind: AudioDeviceKind,
    first: Seq<char>,
    second: Seq<char>,
    list: Seq<char>,
    status: Seq<char>,
)
    ensures
        ({
            let asked = audio_answer(AudioLoadView::List { kind }, Err(first));
            let found = audio_answer(asked->load, Ok(status));
            let failed = audio_answer(asked->load, Err(second));
            let listed = audio_answer(AudioLoadView::List { kind }, Ok(list));
            let blind = audio_answer(listed->load, Err(first));
            &&& asked is Ask && audio_question(asked->load).program == "wpctl"@
            &&& found is Found
            &&& failed is Failed && has_prefix(failed->error, first) && has_suffix(
                failed->error,
                second,
            )
            &&& listed is Ask && !(blind is Failed)
            &&& blind is Found ==> blind->devices == pactl_devices(list, kind, None)
            &&& blind is Ask ==> audio_answer(blind->load, Err(second)) == (
            AudioNextView::Failed { error: second })
        }),
{
    lemma_after_prefix(first, "; "@ + second);
    lemma_after_prefix(first + "; "@, second);
    assert(first + "; "@ + second =~= first + ("; "@ + second));
}

/// The commands that list devices name the right kind of them.
pub proof fn law_audio_questions(
    kind: AudioDeviceKind,
    list: Seq<char>,
    name: Option<Seq<char>>,
    error: Seq<char>,
)
    ensures
        ({
            let l = audio_question(AudioLoadView::List { kind });
            let i = audio_question(AudioLoadView::Info { kind, list });
            let s = audio_question(AudioLoadView::Short { kind, default_name: name });
            let w = audio_question(AudioLoadView::Status { kind, error });
            let word = match kind {
                AudioDeviceKind::Sink => "sinks"@,
                AudioDeviceKind::Source => "sources"@,
            };
            &&& l.program == "pactl"@ && l.args[0] == "list"@ && l.args.len() == 2
            &&& l.args.last() == word && s.args.last() == word
            &&& i.program == "pactl"@ && i.args.last() == "info"@ && i.args.len() == 1
            &&& s.program == "pactl"@ && s.args[0] == "list"@ && s.args[1] == "short"@
                && s.args.len() == 3
            &&& w.program == "wpctl"@ && w.args.last() == "status"@ && w.args.len() == 1
        }),
{
}

/// Choosing a device hands its own name to the server that listed it: a device
/// that `wpctl` listed goes there by its number, every other one to `pactl`,
/// which is told whether it plays or records.
pub proof fn law_set_default_names_the_device(kind: AudioDeviceKind, id: Seq<char>)
    ensures
        ({
            let w = set_default_command(kind, "wpctl:"@ + id);
            &&& w.program == "wpctl"@ && w.args.len() == 2 && w.args[0] == "set-default"@
            &&& w.args.last() == id
        }),
        !has_prefix(id, "wpctl:"@) ==> {
            let p = set_default_command(kind, id);
            &&& p.program == "pactl"@ && p.args.len() == 2 && p.args.last() == id
            &&& kind == AudioDeviceKind::Sink ==> p.args[0] == "set-default-sink"@
            &&& kind == AudioDeviceKind::Source ==> p.args[0] == "set-default-source"@
        },
{
    lemma_after_prefix("wpctl:"@, id);
}

/// No monitor of an output is offered as an input.
pub proof fn law_no_monitors(
    output: Seq<char>,
    default_name: Option<Seq<char>>,
    i: int,
)
    ensures
        ({
            let kind = AudioDeviceKind::Source;
            let long = pactl_devices(output, kind, default_name);
            let short = short_devices(lines_of(output), kind, default_name);
            &&& 0 <= i < long.len() ==> !has_suffix(long[i].selector, ".monitor"@)
            &&& 0 <= i < short.len() ==> !has_suffix(short[i].selector, ".monitor"@)
        }),
{
    lemma_pactl_no_monitors(lines_of(output), default_name);
    lemma_short_no_monitors(lines_of(output), default_name);
    let s = pactl_read(lines_of(output), AudioDeviceKind::Source, default_name);
    lemma_push_no_monitor(s.devices, s.current, s.ports, default_name);
}

/// None of the devices is a monitor.
pub open spec fn without_monitors(devices: Seq<ChoiceView>) -> bool {
    forall|i: int|
        0 <= i < devices.len() ==> !has_suffix((#[trigger] devices[i]).selector, ".monitor"@)
}

proof fn lemma_push_no_monitor(
    devices: Seq<ChoiceView>,
    d: PactlView,
    ports: Seq<(Seq<char>, Seq<char>)>,
    default_name: Option<Seq<char>>,
)
    requires
        without_monitors(devices),
    ensures
        without_monitors(
            with_pactl_device(devices, d, ports, AudioDeviceKind::Source, default_name),
        ),
{
}

proof fn lemma_pactl_no_monitors(lines: Seq<Seq<char>>, default_name: Option<Seq<char>>)
    ensures
        without_monitors(pactl_read(lines, AudioDeviceKind::Source, default_name).devices),
    decreases lines.len(),
{
    if lines.len() > 0 {
        lemma_pactl_no_monitors(lines.drop_last(), default_name);
        let s = pactl_read(lines.drop_last(), AudioDeviceKind::Source, default_name);
        lemma_push_no_monitor(s.devices, s.current, s.ports, default_name);
    }
}

proof fn lemma_short_no_monitors(lines: Seq<Seq<char>>, default_name: Option<Seq<char>>)
    ensures
        without_monitors(short_devices(lines, AudioDeviceKind::Source, default_name)),
    decreases lines.len(),
{
    if lines.len() > 0 {
        lemma_short_no_monitors(lines.drop_last(), default_name);
    }
}

/// A value as `pactl` writes it: without white space or quotation marks around
/// it.
pub open spec fn is_plain_value(s: Seq<char>) -> bool {
    is_bare(s) && s[0] != '"' && s.last() != '"'
}

/// A value is read as it was written behind its key, with quotation marks around
/// it or without them.
pub proof fn law_value_round_trip(key: Seq<char>, value: Seq<char>)
    requires
        is_bare(key),
        is_plain_value(value),
    ensures
        value_after(key + " "@ + value, key) == Some(value),
        value_after(" "@ + (key + " "@ + value), key) == Some(value),
        value_after(key + " "@ + seq!['"'] + value + seq!['"'], key) == Some(value),
{
    reveal_strlit(" ");
    let line = key + " "@ + value;
    lemma_bare(line);
    assert(line =~= key + (" "@ + value));
    lemma_after_prefix(key, " "@ + value);
    lemma_bare(value);
    lemma_quotes(value);
    let quoted = seq!['"'] + value + seq!['"'];
    let long = key + " "@ + seq!['"'] + value + seq!['"'];
    assert(long =~= key + (" "@ + quoted));
    lemma_after_prefix(key, " "@ + quoted);
    lemma_bare(quoted);
    lemma_bare(long);
}

proof fn lemma_quotes(value: Seq<char>)
    requires
        is_plain_value(value),
    ensures
        trimmed_of(value, "\""@) == value,
        trimmed_of(seq!['"'] + value + seq!['"'], "\""@) == value,
{
    reveal_strlit("\"");
    let q = any_of("\""@);
    let quoted = seq!['"'] + value + seq!['"'];
    assert("\""@ =~= seq!['"']);
    assert("\""@.contains('"')) by {
        assert("\""@[0] == '"');
    }
    assert(!"\""@.contains(value[0]) && !"\""@.contains(value.last()));
    lemma_nothing_around(value, q);
    assert(q(quoted[0]));
    let rest = value.push('"');
    assert(quoted.drop_first() =~= rest);
    assert(rest[0] == value[0]);
    assert(trim_front(quoted, q) == trim_front(rest, q));
    assert(trim_front(rest, q) == rest);
    assert(rest.drop_last() =~= value);
    assert(q(rest.last()));
    assert(trim_back(rest, q) == trim_back(value, q));
    assert(trim_back(value, q) == value);
}

/// The lines that `pactl` writes on a device of a kind.
pub open spec fn pactl_block(kind: AudioDeviceKind, d: (Seq<char>, Seq<char>)) -> Seq<Seq<char>> {
    seq![
        match kind {
            AudioDeviceKind::Sink => "Sink #7"@,
            AudioDeviceKind::Source => "Source #7"@,
        },
        "Name:"@ + " "@ + d.0,
        "Description:"@ + " "@ + d.1,
    ]
}

pub open spec fn pactl_blocks(kind: AudioDeviceKind, list: Seq<(Seq<char>, Seq<char>)>) -> Seq<
    Seq<char>,
>
    decreases list.len(),
{
    if list.len() == 0 {
        Seq::empty()
    } else {
        pactl_blocks(kind, list.drop_last()) + pactl_block(kind, list.last())
    }
}

/// Devices that can be told apart, with names and descriptions that can be
/// shown.
pub open spec fn distinct_devices(
    kind: AudioDeviceKind,
    list: Seq<(Seq<char>, Seq<char>)>,
) -> bool {
    &&& forall|i: int|
        0 <= i < list.len() ==> is_plain_value((#[trigger] list[i]).0) && is_plain_value(list[i].1)
            && normalized(list[i].1).len() > 0 && normalized(normalized(list[i].1))
            == normalized(list[i].1) && !is_monitor(kind, list[i].0)
    &&& forall|i: int, j: int|
        0 <= i < j < list.len() ==> (#[trigger] list[i]).0 != (#[trigger] list[j]).0
}

/// The devices as the menu shows them.
pub open spec fn as_choices(list: Seq<(Seq<char>, Seq<char>)>) -> Seq<ChoiceView> {
    Seq::new(
        list.len(),
        |i: int| ChoiceView { selector: list[i].0, label: normalized(list[i].1) },
    )
}

proof fn lemma_block_lines(kind: AudioDeviceKind, d: (Seq<char>, Seq<char>))
    requires
        is_plain_value(d.0),
        is_plain_value(d.1),
    ensures
        ({
            let block = pactl_block(kind, d);
            &&& has_prefix(trimmed(block[0]), header_word(kind))
            &&& !has_prefix(trimmed(block[1]), header_word(kind))
            &&& !has_prefix(trimmed(block[2]), header_word(kind))
            &&& value_after(block[1], "Name:"@) == Some(d.0)
            &&& value_after(block[2], "Name:"@) is None
            &&& value_after(block[2], "Description:"@) == Some(d.1)
        }),
{
    reveal_strlit("Sink #7");
    reveal_strlit("Source #7");
    reveal_strlit("Sink #");
    reveal_strlit("Source #");
    reveal_strlit("Name:");
    reveal_strlit("Description:");
    reveal_strlit(" ");
    let block = pactl_block(kind, d);
    lemma_bare(block[0]);
    assert(block[0].subrange(0, header_word(kind).len() as int) =~= header_word(kind));
    law_value_round_trip("Name:"@, d.0);
    law_value_round_trip("Description:"@, d.1);
    lemma_bare(block[1]);
    lemma_bare(block[2]);
    assert(block[1][0] == 'N' && block[2][0] == 'D');
    assert(header_word(kind)[0] == 'S');
    if has_prefix(block[1], header_word(kind)) {
        assert(block[1].subrange(0, header_word(kind).len() as int)[0] == 'N');
    }
    if has_prefix(block[2], header_word(kind)) {
        assert(block[2].subrange(0, header_word(kind).len() as int)[0] == 'D');
    }
    if has_prefix(block[2], "Name:"@) {
        assert(block[2].subrange(0, 5)[0] == 'D');
    }
}

proof fn lemma_three_lines(
    start: Seq<Seq<char>>,
    block: Seq<Seq<char>>,
    kind: AudioDeviceKind,
    default_name: Option<Seq<char>>,
)
    requires
        block.len() == 3,
    ensures
        pactl_read(start + block, kind, default_name) == pactl_step(
            pactl_step(
                pactl_step(
                    pactl_read(start, kind, default_name),
                    block[0],
                    kind,
                    default_name,
                ),
                block[1],
                kind,
                default_name,
            ),
            block[2],
            kind,
            default_name,
        ),
{
    let one = start.push(block[0]);
    let two = one.push(block[1]);
    let all = two.push(block[2]);
    assert(start + block =~= all);
    assert(all.drop_last() =~= two);
    assert(two.drop_last() =~= one);
    assert(one.drop_last() =~= start);
    let s = pactl_read(start, kind, default_name);
    assert(pactl_read(one, kind, default_name) == pactl_step(s, block[0], kind, default_name));
    assert(pactl_read(two, kind, default_name) == pactl_step(
        pactl_read(one, kind, default_name),
        block[1],
        kind,
        default_name,
    ));
}

proof fn lemma_block_step(
    s: PactlState,
    d: (Seq<char>, Seq<char>),
    kind: AudioDeviceKind,
    default_name: Option<Seq<char>>,
)
    requires
        is_plain_value(d.0),
        is_plain_value(d.1),
        !s.in_ports,
        s.ports.len() == 0,
        !under_way(s) ==> s.current == no_device(),
    ensures
        ({
            let block = pactl_block(kind, d);
            let s1 = pactl_step(s, block[0], kind, default_name);
            let s2 = pactl_step(s1, block[1], kind, default_name);
            let s3 = pactl_step(s2, block[2], kind, default_name);
            &&& !s3.in_ports && s3.ports.len() == 0
            &&& s3.current == (PactlView {
                name: Some(d.0),
                description: Some(d.1),
                active_port: None,
            })
            &&& s3.devices == if under_way(s) {
                with_pactl_device(s.devices, s.current, s.ports, kind, default_name)
            } else {
                s.devices
            }
        }),
{
    lemma_block_lines(kind, d);
}

proof fn lemma_choice_added(
    kind: AudioDeviceKind,
    list: Seq<(Seq<char>, Seq<char>)>,
    ports: Seq<(Seq<char>, Seq<char>)>,
    default_name: Option<Seq<char>>,
)
    requires
        list.len() > 0,
        distinct_devices(kind, list),
        default_name != Some(list.last().0),
    ensures
        with_pactl_device(
            as_choices(list.drop_last()),
            PactlView {
                name: Some(list.last().0),
                description: Some(list.last().1),
                active_port: None,
            },
            ports,
            kind,
            default_name,
        ) == as_choices(list),
{
    let n = list.len() - 1;
    let e = list.last();
    assert(list[n] == e);
    let before = as_choices(list.drop_last());
    assert(!listed(before, e.0)) by {
        if listed(before, e.0) {
            let k = choose|k: int| 0 <= k < before.len() && (#[trigger] before[k]).selector == e.0;
            assert(list[k].0 != list[n].0);
        }
    }
    assert(with_device(before, e.0, normalized(e.1), false) =~= as_choices(list));
}

proof fn lemma_fewer_devices(kind: AudioDeviceKind, list: Seq<(Seq<char>, Seq<char>)>)
    requires
        list.len() > 0,
        distinct_devices(kind, list),
    ensures
        distinct_devices(kind, list.drop_last()),
{
    let front = list.drop_last();
    assert forall|i: int| 0 <= i < front.len() implies is_plain_value((#[trigger] front[i]).0)
        && is_plain_value(front[i].1) && normalized(front[i].1).len() > 0 && normalized(
        normalized(front[i].1),
    ) == normalized(front[i].1) && !is_monitor(kind, front[i].0) by {
        assert(front[i] == list[i]);
    }
    assert forall|i: int, j: int| 0 <= i < j < front.len() implies (#[trigger] front[i]).0 != (
    #[trigger] front[j]).0 by {
        assert(list[i].0 != list[j].0);
    }
}

proof fn lemma_blocks_read(
    kind: AudioDeviceKind,
    list: Seq<(Seq<char>, Seq<char>)>,
    default_name: Option<Seq<char>>,
)
    requires
        distinct_devices(kind, list),
        forall|i: int| 0 <= i < list.len() ==> default_name != Some((#[trigger] list[i]).0),
    ensures
        ({
            let s = pactl_read(pactl_blocks(kind, list), kind, default_name);
            &&& !s.in_ports && s.ports.len() == 0
            &&& list.len() == 0 ==> s.devices.len() == 0 && s.current == no_device()
            &&& list.len() > 0 ==> s.devices == as_choices(list.drop_last()) && s.current == (
            PactlView {
                name: Some(list.last().0),
                description: Some(list.last().1),
                active_port: None,
            })
        }),
    decreases list.len(),
{
    if list.len() > 0 {
        let front = list.drop_last();
        let d = list.last();
        let n = front.len() as int;
        assert(list[n] == d);
        lemma_fewer_devices(kind, list);
        assert forall|i: int| 0 <= i < front.len() implies default_name != Some(
            (#[trigger] front[i]).0,
        ) by {
            assert(front[i] == list[i]);
        }
        lemma_blocks_read(kind, front, default_name);
        let start = pactl_blocks(kind, front);
        let s = pactl_read(start, kind, default_name);
        lemma_three_lines(start, pactl_block(kind, d), kind, default_name);
        lemma_block_step(s, d, kind, default_name);
        if n > 0 {
            assert(front[n - 1] == front.last());
            lemma_choice_added(kind, front, s.ports, default_name);
        } else {
            assert(s.devices =~= as_choices(front));
        }
    }
}

/// Every device that `pactl` lists is offered, under its description and in the
/// order of the list, where none of them is the default.
pub proof fn law_pactl_list_round_trip(
    kind: AudioDeviceKind,
    list: Seq<(Seq<char>, Seq<char>)>,
    output: Seq<char>,
    default_name: Option<Seq<char>>,
)
    requires
        distinct_devices(kind, list),
        lines_of(output) == pactl_blocks(kind, list),
        forall|i: int| 0 <= i < list.len() ==> default_name != Some((#[trigger] list[i]).0),
    ensures
        pactl_devices(output, kind, default_name) == as_choices(list),
{
    lemma_blocks_read(kind, list, default_name);
    let s = pactl_read(lines_of(output), kind, default_name);
    if list.len() > 0 {
        assert(list[list.len() - 1] == list.last());
        lemma_choice_added(kind, list, s.ports, default_name);
    } else {
        assert(pactl_devices(output, kind, default_name) =~= as_choices(list));
    }
}

/// A name in the short list is read as it was written between two tabs, and is
/// offered once.
pub proof fn law_short_line_round_trip(
    devices: Seq<ChoiceView>,
    number: Seq<char>,
    name: Seq<char>,
    rest: Seq<char>,
    kind: AudioDeviceKind,
    default_name: Option<Seq<char>>,
)
    requires
        !number.contains('\t'),
        !name.contains('\t'),
        !rest.contains('\t'),
        is_bare(name),
        normalized(name).len() > 0,
        !is_monitor(kind, name),
    ensures
        ({
            let after = with_short_line(
                devices,
                (number.push('\t') + name).push('\t') + rest,
                kind,
                default_name,
            );
            let device = ChoiceView { selector: name, label: normalized(name) };
            &&& listed(after, name)
            &&& listed(devices, name) ==> after == devices
            &&& !listed(devices, name) && default_name == Some(name) ==> after == seq![device]
                + devices
            &&& !listed(devices, name) && default_name != Some(name) ==> after == devices.push(
                device,
            )
        }),
{
    lemma_split_one(number, '\t');
    lemma_split_append(number, '\t', name);
    lemma_split_append(number.push('\t') + name, '\t', rest);
    lemma_bare(name);
    let line = (number.push('\t') + name).push('\t') + rest;
    assert(split_at_each(line, '\t')[1] == name);
    let device = ChoiceView { selector: name, label: normalized(name) };
    if !listed(devices, name) {
        assert((seq![device] + devices)[0].selector == name);
        assert(devices.push(device)[devices.len() as int].selector == name);
    }
}

/// The device with a star is the default: it is put first, under its number.
/// Every other device is put behind the ones before it.
pub proof fn law_wpctl_star_is_first(
    devices: Seq<ChoiceView>,
    id: Seq<char>,
    rest: Seq<char>,
    t: Seq<char>,
)
    requires
        cut_at(t, ". "@) == Some((id, rest)),
    ensures
        ({
            let after = with_wpctl_line(devices, t);
            let selector = "wpctl:"@ + unstarred(id);
            &&& after != devices && t.contains('*') ==> after[0].selector == selector
            &&& after != devices && !t.contains('*') ==> after.last().selector == selector
            &&& after != devices ==> after.len() == devices.len() + 1
            &&& occurs(lowered(unstarred(head_of(rest, " ["@))), "monitor"@) ==> after == devices
        }),
{
}

/// The numbers in front of the percent signs, all of them and in their order.
pub proof fn law_percents(words: Seq<Seq<char>>, more: Seq<Seq<char>>, number: Seq<char>)
    ensures
        percents(words + more) == percents(words) + percents(more),
        percents(seq![number + "%"@]) == seq![number],
        !has_suffix(number, "%"@) ==> percents(seq![number]).len() == 0,
    decreases more.len(),
{
    reveal_with_fuel(percents, 2);
    lemma_after_prefix(number, "%"@);
    assert(seq![number + "%"@].drop_last() =~= Seq::<Seq<char>>::empty());
    assert(seq![number].drop_last() =~= Seq::<Seq<char>>::empty());
    assert(percents(seq![number + "%"@]) =~= seq![number]);
    if more.len() == 0 {
        assert(words + more =~= words);
        assert(percents(words) + percents(more) =~= percents(words));
    } else {
        law_percents(words, more.drop_last(), number);
        assert((words + more).drop_last() =~= words + more.drop_last());
        assert((words + more).last() == more.last());
        assert(percents(words + more) =~= percents(words) + percents(more));
    }
}

/// A label says what the device is called, and what it plays through, where that
/// is known and not said already.
pub proof fn law_device_label(d: PactlView, ports: Seq<(Seq<char>, Seq<char>)>)
    ensures
        ({
            let base = normalized(
                match d.description {
                    Some(text) => text,
                    None => d.name->Some_0,
                },
            );
            let label = device_label(d, ports);
            let known = d.active_port is Some && lookup(ports, d.active_port->Some_0) is Some;
            let extra = normalized(lookup(ports, d.active_port->Some_0)->Some_0);
            &&& label is Some <==> (d.description is Some || d.name is Some) && base.len() > 0
            &&& label is Some ==> has_prefix(label->Some_0, base)
            &&& label is Some && known && !occurs(label_key(base), label_key(extra))
                && extra.len() > 0 ==> has_suffix(label->Some_0, extra)
            &&& label is Some && (!known || extra.len() == 0 || occurs(
                label_key(base),
                label_key(extra),
            )) ==> label->Some_0 == base
        }),
{
    let base = normalized(
        match d.description {
            Some(text) => text,
            None => d.name->Some_0,
        },
    );
    let extra = normalized(lookup(ports, d.active_port->Some_0)->Some_0);
    lemma_after_prefix(base, " - "@ + extra);
    lemma_after_prefix(base + " - "@, extra);
    assert(base + " - "@ + extra =~= base + (" - "@ + extra));
    assert(base.subrange(0, base.len() as int) =~= base);
}

/// The volume that is set is the last word of the command, behind the default
/// output as the program calls it.
pub proof fn law_volume_setter(fallback: bool, value: Seq<char>)
    ensures
        volume_setter(fallback, value).args.len() == 3,
        volume_setter(fallback, value).args.last() == value,
        volume_setter(true, value).program == "pactl"@,
        volume_setter(false, value).program == "wpctl"@,
        volume_setter(true, value).args[0] == "set-sink-volume"@,
        volume_setter(false, value).args[0] == "set-volume"@,
        volume_setter(true, value).args[1] == "@DEFAULT_SINK@"@,
        volume_setter(false, value).args[1] == "@DEFAULT_AUDIO_SINK@"@,
{
}

} // verus!
