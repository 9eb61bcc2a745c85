//! The network panel: wireless networks and wired devices as NetworkManager's
//! own tool lists them.

use crate::order::{
    items, key_before, keyed, lemma_sorted_by, lemma_sorted_mapped, mapped, paired, sorted,
    sorted_by, stable_sort, text_before, Key, KeyView,
};
use crate::settings::control::{
    command, command_of, outcome_message, outcome_text, result_view, status, unavailable, CommandView,
    ControlCommand, StatusLine, StatusView,
};
use crate::text::{
    dec, decimal, has_prefix, has_suffix, is_bare, law_decimal_round_trip, lemma_after_prefix,
    lemma_bare, lines, lines_of, number, opt_view, parse_unsigned, same, trim, trimmed, views,
};
use vstd::prelude::*;

verus! {

// ---------------------------------------------------------------------------
// Fields of a line
// ---------------------------------------------------------------------------

/// What was read of a line: the fields that are complete, the one under way,
/// and whether the next character stands for itself.
pub ghost struct FieldState {
    pub fields: Seq<Seq<char>>,
    pub current: Seq<char>,
    pub escape: bool,
}

/// What was read after one more character.
pub open spec fn field_step(s: FieldState, c: char) -> FieldState {
    if s.escape {
        FieldState { current: s.current.push(c), escape: false, ..s }
    } else if c == '\\' {
        FieldState { escape: true, ..s }
    } else if c == ':' {
        FieldState { fields: s.fields.push(s.current), current: Seq::empty(), escape: false }
    } else {
        FieldState { current: s.current.push(c), ..s }
    }
}

/// What was read of a line, from a state on.
pub open spec fn fields_from(s: FieldState, line: Seq<char>) -> FieldState
    decreases line.len(),
{
    if line.len() == 0 {
        s
    } else {
        field_step(fields_from(s, line.drop_last()), line.last())
    }
}

pub open spec fn no_fields() -> FieldState {
    FieldState { fields: Seq::empty(), current: Seq::empty(), escape: false }
}

/// The fields of a line: between colons, where a backslash makes the next
/// character stand for itself.
pub open spec fn fields_of(line: Seq<char>) -> Seq<Seq<char>> {
    let s = fields_from(no_fields(), line);
    s.fields.push(s.current)
}

/// The fields of a line of `nmcli -t`.
pub fn split_nmcli_line(line: &str) -> (r: Vec<String>)
    ensures
        views(r@) == fields_of(line@),
        r.len() > 0,
{
    let mut fields: Vec<String> = Vec::new();
    let mut current = String::new();
    let mut escape = false;
    proof {
        assert(line@.take(0) =~= Seq::<char>::empty());
        assert(views(fields@) =~= Seq::<Seq<char>>::empty());
    }
    for c in it: line.chars()
        invariant
            it.seq() == line@,
            fields_from(no_fields(), line@.take(it.index() as int)) == (FieldState {
                fields: views(fields@),
                current: current@,
                escape,
            }),
    {
        proof {
            let i = it.index() as int;
            assert(line@.take(i + 1).drop_last() =~= line@.take(i));
            assert(line@.take(i + 1).last() == c);
        }
        if escape {
            current.push(c);
            escape = false;
        } else if c == '\\' {
            escape = true;
        } else if c == ':' {
            let field = current;
            proof {
                crate::text::lemma_views_push(fields@, field);
            }
            fields.push(field);
            current = String::new();
        } else {
            current.push(c);
        }
    }
    proof {
        assert(line@.take(line@.len() as int) =~= line@);
        crate::text::lemma_views_push(fields@, current);
    }
    fields.push(current);
    fields
}

/// A field with a backslash before each colon and each backslash.
pub open spec fn escaped(field: Seq<char>) -> Seq<char>
    decreases field.len(),
{
    if field.len() == 0 {
        Seq::empty()
    } else {
        let c = field.last();
        let before = escaped(field.drop_last());
        if c == ':' || c == '\\' {
            before.push('\\').push(c)
        } else {
            before.push(c)
        }
    }
}

/// Fields as a line.
pub open spec fn line_of(fields: Seq<Seq<char>>) -> Seq<char>
    decreases fields.len(),
{
    if fields.len() == 0 {
        Seq::empty()
    } else if fields.len() == 1 {
        escaped(fields[0])
    } else {
        line_of(fields.drop_last()).push(':') + escaped(fields.last())
    }
}

proof fn lemma_fields_concat(s: FieldState, a: Seq<char>, b: Seq<char>)
    ensures
        fields_from(s, a + b) == fields_from(fields_from(s, a), b),
    decreases b.len(),
{
    if b.len() == 0 {
        assert(a + b =~= a);
    } else {
        lemma_fields_concat(s, a, b.drop_last());
        assert((a + b).drop_last() =~= a + b.drop_last());
    }
}

proof fn lemma_escaped_reads_back(s: FieldState, field: Seq<char>)
    requires
        !s.escape,
    ensures
        fields_from(s, escaped(field)) == (FieldState { current: s.current + field, ..s }),
    decreases field.len(),
{
    if field.len() == 0 {
        assert(s.current + field =~= s.current);
    } else {
        let c = field.last();
        let front = field.drop_last();
        lemma_escaped_reads_back(s, front);
        let before = escaped(front);
        let mid = FieldState { current: s.current + front, ..s };
        assert(s.current + field =~= (s.current + front).push(c));
        if c == ':' || c == '\\' {
            let one = before.push('\\');
            assert(one.drop_last() =~= before);
            assert(one.push(c).drop_last() =~= one);
            assert(fields_from(s, one) == field_step(mid, '\\'));
            assert(fields_from(s, one.push(c)) == field_step(field_step(mid, '\\'), c));
        } else {
            assert(before.push(c).drop_last() =~= before);
        }
    }
}

proof fn lemma_line_reads_back(fields: Seq<Seq<char>>)
    requires
        fields.len() > 0,
    ensures
        fields_from(no_fields(), line_of(fields)) == (FieldState {
            fields: fields.drop_last(),
            current: fields.last(),
            escape: false,
        }),
    decreases fields.len(),
{
    if fields.len() == 1 {
        lemma_escaped_reads_back(no_fields(), fields[0]);
        assert(fields.drop_last() =~= Seq::<Seq<char>>::empty());
        assert(Seq::<char>::empty() + fields[0] =~= fields[0]);
    } else {
        let front = fields.drop_last();
        lemma_line_reads_back(front);
        let line = line_of(front);
        let colon = line.push(':');
        assert(colon.drop_last() =~= line);
        let at_colon = fields_from(no_fields(), colon);
        assert(front.drop_last().push(front.last()) =~= front);
        assert(at_colon == (FieldState { fields: front, current: Seq::empty(), escape: false }));
        lemma_fields_concat(no_fields(), colon, escaped(fields.last()));
        lemma_escaped_reads_back(at_colon, fields.last());
        assert(Seq::<char>::empty() + fields.last() =~= fields.last());
    }
}

/// Fields that are written as a line are read back as they were, whatever they
/// hold.
pub proof fn law_fields_round_trip(fields: Seq<Seq<char>>)
    requires
        fields.len() > 0,
    ensures
        fields_of(line_of(fields)) == fields,
{
    lemma_line_reads_back(fields);
    assert(fields.drop_last().push(fields.last()) =~= fields);
}

/// The `i`-th field, or nothing.
pub open spec fn field_at(fields: Seq<Seq<char>>, i: int) -> Seq<char> {
    if i < fields.len() {
        fields[i]
    } else {
        Seq::empty()
    }
}

fn field(fields: &Vec<String>, i: usize) -> (r: String)
    ensures
        r@ == field_at(views(fields@), i as int),
{
    if i < fields.len() {
        assert(views(fields@)[i as int] == fields@[i as int]@);
        fields[i].clone()
    } else {
        String::new()
    }
}

// ---------------------------------------------------------------------------
// Wireless networks
// ---------------------------------------------------------------------------

#[derive(Debug)]
pub struct WifiNetwork {
    pub active: bool,
    pub ssid: String,
    pub security: String,
    pub signal: u8,
}

/// The value of a [`WifiNetwork`].
pub ghost struct WifiView {
    pub active: bool,
    pub ssid: Seq<char>,
    pub security: Seq<char>,
    pub signal: u8,
}

impl View for WifiNetwork {
    type V = WifiView;

    open spec fn view(&self) -> WifiView {
        WifiView {
            active: self.active,
            ssid: self.ssid@,
            security: self.security@,
            signal: self.signal,
        }
    }
}

pub open spec fn wifi_views(list: Seq<WifiNetwork>) -> Seq<WifiView> {
    Seq::new(list.len(), |i: int| list[i]@)
}

#[derive(Debug)]
pub struct WifiSnapshot {
    pub enabled: bool,
    pub networks: Vec<WifiNetwork>,
    pub error: Option<String>,
}

/// The value of a [`WifiSnapshot`].
pub ghost struct WifiSnapshotView {
    pub enabled: bool,
    pub networks: Seq<WifiView>,
    pub error: Option<Seq<char>>,
}

impl View for WifiSnapshot {
    type V = WifiSnapshotView;

    open spec fn view(&self) -> WifiSnapshotView {
        WifiSnapshotView {
            enabled: self.enabled,
            networks: wifi_views(self.networks@),
            error: opt_view(self.error),
        }
    }
}

/// The network of a line: a star where it is in use, its name, its security
/// and the strength of its signal; none without a name.
pub open spec fn wifi_of(line: Seq<char>) -> Option<WifiView> {
    let fields = fields_of(line);
    let ssid = trimmed(field_at(fields, 1));
    if ssid.len() == 0 {
        None
    } else {
        Some(
            WifiView {
                active: field_at(fields, 0) == "*"@,
                ssid,
                security: trimmed(field_at(fields, 2)),
                signal: match number(field_at(fields, 3), 255) {
                    Some(n) => n as u8,
                    None => 0,
                },
            },
        )
    }
}

fn parse_wifi_line(line: &str) -> (r: Option<WifiNetwork>)
    ensures
        match r {
            Some(network) => wifi_of(line@) == Some(network@),
            None => wifi_of(line@) is None,
        },
{
    let fields = split_nmcli_line(line);
    let ssid = trim(field(&fields, 1).as_str());
    if ssid.as_str().is_empty() {
        return None;
    }
    let security = trim(field(&fields, 2).as_str());
    let signal: u8 = match parse_unsigned(field(&fields, 3).as_str(), 255) {
        Some(n) => n as u8,
        None => 0,
    };
    let active = same(field(&fields, 0).as_str(), "*");
    Some(WifiNetwork { active, ssid, security, signal })
}

/// The networks of a list of lines.
pub open spec fn wifi_lines(lines: Seq<Seq<char>>) -> Seq<WifiView>
    decreases lines.len(),
{
    if lines.len() == 0 {
        Seq::empty()
    } else {
        let before = wifi_lines(lines.drop_last());
        match wifi_of(lines.last()) {
            Some(network) => before.push(network),
            None => before,
        }
    }
}

/// The network in use comes first, then the strongest signal.
pub open spec fn wifi_key(n: WifiView) -> KeyView {
    KeyView {
        rank: (255 - n.signal + if n.active {
            0int
        } else {
            256
        }) as u64,
        text: Seq::empty(),
    }
}

/// A list without the networks that have the name of the one kept before them.
pub open spec fn without_repeats(list: Seq<WifiView>) -> Seq<WifiView>
    decreases list.len(),
{
    if list.len() == 0 {
        list
    } else {
        let before = without_repeats(list.drop_last());
        if before.len() > 0 && before.last().ssid == list.last().ssid {
            before
        } else {
            before.push(list.last())
        }
    }
}

/// The networks of the output of `nmcli`.
pub open spec fn wifi_networks(output: Seq<char>) -> Seq<WifiView> {
    without_repeats(sorted_by(wifi_lines(lines_of(output)), |n: WifiView| wifi_key(n)))
}

/// The networks that `nmcli` lists, the one in use first, then by the strength
/// of their signal.
pub fn parse_wifi_networks(output: &str) -> (r: Vec<WifiNetwork>)
    ensures
        wifi_views(r@) == wifi_networks(output@),
{
    let all = lines(output);
    let ghost text = views(all@);
    let mut networks: Vec<WifiNetwork> = Vec::new();
    let mut keys: Vec<Key> = Vec::new();
    let mut i: usize = 0;
    assert(wifi_views(networks@) =~= wifi_lines(text.take(0)));
    while i < all.len()
        invariant
            i <= all.len(),
            text == views(all@),
            wifi_views(networks@) == wifi_lines(text.take(i as int)),
            keys.len() == networks.len(),
            forall|k: int| 0 <= k < keys.len() ==> (#[trigger] keys[k])@ == wifi_key(networks[k]@),
        decreases all.len() - i,
    {
        proof {
            assert(text.take(i + 1).drop_last() =~= text.take(i as int));
            assert(text.take(i + 1).last() == all@[i as int]@);
        }
        if let Some(network) = parse_wifi_line(all[i].as_str()) {
            let rank: u64 = (255 - network.signal) as u64 + if network.active {
                0
            } else {
                256
            };
            let ghost before = networks@;
            keys.push(Key { rank, text: String::new() });
            assert(wifi_views(before.push(network)) =~= wifi_views(before).push(network@));
            networks.push(network);
        }
        i += 1;
    }
    let ghost found = wifi_views(networks@);
    proof {
        assert(text.take(i as int) =~= text);
        let f = |n: WifiNetwork| n@;
        let key = |n: WifiView| wifi_key(n);
        let a = paired(keys@, networks@);
        lemma_sorted_mapped(a, f);
        assert(mapped(a, f) =~= keyed(found, key));
        assert(wifi_views(items(sorted(a))) =~= items(mapped(sorted(a), f)));
    }
    let mut ordered = stable_sort(networks, keys);
    let ghost wanted = wifi_views(ordered@);
    let mut out: Vec<WifiNetwork> = Vec::new();
    let ghost mut n: int = 0;
    assert(wifi_views(out@) =~= without_repeats(wanted.take(0)));
    assert(wanted.skip(0) =~= wanted);
    while ordered.len() > 0
        invariant
            0 <= n,
            n + ordered.len() == wanted.len(),
            wifi_views(ordered@) == wanted.skip(n),
            wifi_views(out@) == without_repeats(wanted.take(n)),
        decreases ordered.len(),
    {
        let ghost left = ordered@;
        let network = ordered.remove(0);
        proof {
            assert(wifi_views(left)[0] == network@);
            assert(wanted[n] == network@);
            assert(wanted.take(n + 1).drop_last() =~= wanted.take(n));
            assert(wanted.take(n + 1).last() == network@);
            assert(wifi_views(ordered@) =~= wifi_views(left).drop_first());
            assert(wanted.skip(n).drop_first() =~= wanted.skip(n + 1));
            n = n + 1;
        }
        let last: usize = out.len();
        let ghost before = out@;
        assert(wifi_views(before).len() == before.len());
        if last > 0 && out[last - 1].ssid == network.ssid {
            assert(wifi_views(before).last() == before.last()@);
        } else {
            if last > 0 {
                assert(wifi_views(before).last() == before.last()@);
            }
            assert(wifi_views(before.push(network)) =~= wifi_views(before).push(network@));
            out.push(network);
        }
    }
    assert(wanted.take(n) =~= wanted);
    out
}

proof fn lemma_without_repeats(list: Seq<WifiView>)
    ensures
        without_repeats(list).len() <= list.len(),
        list.len() > 0 ==> without_repeats(list).len() > 0 && without_repeats(list).last().ssid
            == list.last().ssid && without_repeats(list)[0] == list[0],
        forall|i: int|
            0 <= i < without_repeats(list).len() ==> list.contains(#[trigger] without_repeats(list)[i]),
        forall|i: int|
            0 < i < without_repeats(list).len() ==> (#[trigger] without_repeats(list)[i]).ssid
                != without_repeats(list)[i - 1].ssid,
    decreases list.len(),
{
    if list.len() > 0 {
        let front = list.drop_last();
        lemma_without_repeats(front);
        let before = without_repeats(front);
        let out = without_repeats(list);
        assert forall|i: int| 0 <= i < out.len() implies list.contains(#[trigger] out[i]) by {
            if i < before.len() {
                assert(front.contains(before[i]));
                let k = choose|k: int| 0 <= k < front.len() && front[k] == before[i];
                assert(list[k] == out[i]);
            } else {
                assert(list[list.len() - 1] == out[i]);
            }
        }
        assert forall|i: int| 0 < i < out.len() implies (#[trigger] out[i]).ssid != out[i
            - 1].ssid by {
            if i < before.len() {
                assert(out[i] == before[i]);
            }
        }
    }
}

/// A network in use comes first, no two neighbours have the same name, and
/// every listed network was reported.
pub proof fn law_wifi_networks(output: Seq<char>)
    ensures
        ({
            let reported = wifi_lines(lines_of(output));
            let shown = wifi_networks(output);
            &&& shown.len() <= reported.len()
            &&& reported.len() > 0 ==> shown.len() > 0
            &&& (exists|i: int| 0 <= i < reported.len() && (#[trigger] reported[i]).active)
                ==> shown[0].active
            &&& forall|i: int|
                0 < i < shown.len() ==> (#[trigger] shown[i]).ssid != shown[i - 1].ssid
            &&& forall|i: int| 0 <= i < shown.len() ==> reported.contains(#[trigger] shown[i])
        }),
{
    broadcast use vstd::seq_lib::group_to_multiset_ensures;

    let key = |n: WifiView| wifi_key(n);
    let reported = wifi_lines(lines_of(output));
    let ordered = sorted_by(reported, key);
    let shown = wifi_networks(output);
    lemma_sorted_by(reported, key);
    lemma_without_repeats(ordered);
    assert forall|i: int| 0 <= i < shown.len() implies reported.contains(#[trigger] shown[i]) by {
        assert(ordered.contains(shown[i]));
        assert(ordered.to_multiset().count(shown[i]) > 0);
        assert(reported.to_multiset().count(shown[i]) > 0);
    }
    if exists|i: int| 0 <= i < reported.len() && (#[trigger] reported[i]).active {
        let i = choose|i: int| 0 <= i < reported.len() && (#[trigger] reported[i]).active;
        assert(reported.contains(reported[i]));
        assert(ordered.to_multiset().count(reported[i]) > 0);
        assert(ordered.contains(reported[i]));
        let j = choose|j: int| 0 <= j < ordered.len() && ordered[j] == reported[i];
        if j > 0 {
            assert(!key_before(key(ordered[j]), key(ordered[0])));
        }
        assert(ordered[0].active);
    }
}

// ---------------------------------------------------------------------------
// Asking for wireless networks
// ---------------------------------------------------------------------------

/// How far the question for wireless networks has come.
#[derive(Debug, Clone, Copy, PartialEq, Eq, Structural)]
pub enum WifiLoad {
    /// Is the radio on?
    Radio,
    /// A list after a new scan.
    Rescan { enabled: bool },
    /// The list of the last scan.
    Known { enabled: bool },
}

/// What follows an answer.
#[derive(Debug)]
pub enum WifiNext {
    Ask { load: WifiLoad },
    Snapshot { snapshot: WifiSnapshot },
}

/// The value of a [`WifiNext`].
pub ghost enum WifiNextView {
    Ask { load: WifiLoad },
    Snapshot { snapshot: WifiSnapshotView },
}

impl View for WifiNext {
    type V = WifiNextView;

    open spec fn view(&self) -> WifiNextView {
        match *self {
            WifiNext::Ask { load } => WifiNextView::Ask { load },
            WifiNext::Snapshot { snapshot } => WifiNextView::Snapshot { snapshot: snapshot@ },
        }
    }
}

/// The first line, or nothing.
pub open spec fn first_line(output: Seq<char>) -> Seq<char> {
    if lines_of(output).len() > 0 {
        lines_of(output)[0]
    } else {
        Seq::empty()
    }
}

/// What is asked next, and for how many seconds an answer is awaited.
pub open spec fn wifi_question(load: WifiLoad) -> (CommandView, u64) {
    match load {
        WifiLoad::Radio => (command_of("nmcli"@, seq!["-t"@, "-f"@, "WIFI"@, "radio"@]), 2),
        WifiLoad::Rescan { .. } => (
            command_of(
                "nmcli"@,
                seq![
                    "-t"@,
                    "-f"@,
                    "IN-USE,SSID,SECURITY,SIGNAL"@,
                    "device"@,
                    "wifi"@,
                    "list"@,
                    "--rescan"@,
                    "yes"@,
                ],
            ),
            15,
        ),
        WifiLoad::Known { .. } => (
            command_of(
                "nmcli"@,
                seq![
                    "-t"@,
                    "-f"@,
                    "IN-USE,SSID,SECURITY,SIGNAL"@,
                    "device"@,
                    "wifi"@,
                    "list"@,
                    "--rescan"@,
                    "no"@,
                ],
            ),
            5,
        ),
    }
}

/// What follows an answer: where a new scan fails, the last one counts.
pub open spec fn wifi_answer(load: WifiLoad, answer: Result<Seq<char>, Seq<char>>) -> WifiNextView {
    match (load, answer) {
        (WifiLoad::Radio, Ok(output)) => WifiNextView::Ask {
            load: WifiLoad::Rescan { enabled: trimmed(first_line(output)) == "enabled"@ },
        },
        (WifiLoad::Radio, Err(error)) => WifiNextView::Snapshot {
            snapshot: WifiSnapshotView {
                enabled: false,
                networks: Seq::empty(),
                error: Some(error),
            },
        },
        (WifiLoad::Rescan { enabled }, Err(_)) => WifiNextView::Ask {
            load: WifiLoad::Known { enabled },
        },
        (WifiLoad::Rescan { enabled }, Ok(output)) => WifiNextView::Snapshot {
            snapshot: WifiSnapshotView { enabled, networks: wifi_networks(output), error: None },
        },
        (WifiLoad::Known { enabled }, Ok(output)) => WifiNextView::Snapshot {
            snapshot: WifiSnapshotView { enabled, networks: wifi_networks(output), error: None },
        },
        (WifiLoad::Known { enabled }, Err(error)) => WifiNextView::Snapshot {
            snapshot: WifiSnapshotView { enabled, networks: Seq::empty(), error: Some(error) },
        },
    }
}

fn no_wifi(enabled: bool, error: String) -> (r: WifiNext)
    ensures
        r@ == (WifiNextView::Snapshot {
            snapshot: WifiSnapshotView { enabled, networks: Seq::empty(), error: Some(error@) },
        }),
{
    let networks: Vec<WifiNetwork> = Vec::new();
    assert(wifi_views(networks@) =~= Seq::<WifiView>::empty());
    WifiNext::Snapshot { snapshot: WifiSnapshot { enabled, networks, error: Some(error) } }
}

impl WifiLoad {
    /// What to ask next, and for how many seconds to await the answer.
    pub fn question(self) -> (r: (ControlCommand, u64))
        ensures
            (r.0@, r.1) == wifi_question(self),
    {
        match self {
            WifiLoad::Radio => {
                let c = command("nmcli").arg("-t").arg("-f").arg("WIFI").arg("radio");
                assert(c@.args =~= wifi_question(self).0.args);
                (c, 2)
            },
            WifiLoad::Rescan { .. } => {
                let c = command("nmcli").arg("-t").arg("-f").arg("IN-USE,SSID,SECURITY,SIGNAL").arg(
                    "device",
                ).arg("wifi").arg("list").arg("--rescan").arg("yes");
                assert(c@.args =~= wifi_question(self).0.args);
                (c, 15)
            },
            WifiLoad::Known { .. } => {
                let c = command("nmcli").arg("-t").arg("-f").arg("IN-USE,SSID,SECURITY,SIGNAL").arg(
                    "device",
                ).arg("wifi").arg("list").arg("--rescan").arg("no");
                assert(c@.args =~= wifi_question(self).0.args);
                (c, 5)
            },
        }
    }

    /// Takes the answer.
    pub fn answer(self, answer: Result<String, String>) -> (r: WifiNext)
        ensures
            r@ == wifi_answer(self, result_view(answer)),
    {
        match self {
            WifiLoad::Radio => match answer {
                Ok(output) => {
                    let all = lines(output.as_str());
                    assert(views(all@).len() == all.len());
                    let first = if all.len() > 0 {
                        assert(views(all@)[0] == all@[0]@);
                        all[0].clone()
                    } else {
                        String::new()
                    };
                    assert(first@ =~= first_line(output@));
                    let enabled = same(trim(first.as_str()).as_str(), "enabled");
                    WifiNext::Ask { load: WifiLoad::Rescan { enabled } }
                },
                Err(error) => no_wifi(false, error),
            },
            WifiLoad::Rescan { enabled } => match answer {
                Ok(output) => WifiNext::Snapshot {
                    snapshot: WifiSnapshot {
                        enabled,
                        networks: parse_wifi_networks(output.as_str()),
                        error: None,
                    },
                },
                Err(_) => WifiNext::Ask { load: WifiLoad::Known { enabled } },
            },
            WifiLoad::Known { enabled } => match answer {
                Ok(output) => WifiNext::Snapshot {
                    snapshot: WifiSnapshot {
                        enabled,
                        networks: parse_wifi_networks(output.as_str()),
                        error: None,
                    },
                },
                Err(error) => no_wifi(enabled, error),
            },
        }
    }
}

/// The questions start with the radio.
pub fn load_wifi_snapshot() -> (r: WifiLoad)
    ensures
        r == WifiLoad::Radio,
{
    WifiLoad::Radio
}

// ---------------------------------------------------------------------------
// The list of wireless networks
// ---------------------------------------------------------------------------

/// A network that asks for no password.
pub open spec fn is_open(security: Seq<char>) -> bool {
    trimmed(security).len() == 0 || security == "--"@
}

/// Whether a network is secured, in words.
pub fn wifi_security_label(security: &str) -> (r: &'static str)
    ensures
        r@ == if is_open(security@) {
            "Open network"@
        } else {
            "Secured network"@
        },
{
    if trim(security).as_str().is_empty() || same(security, "--") {
        "Open network"
    } else {
        "Secured network"
    }
}

/// The line above the networks.
pub open spec fn wifi_status_of(s: WifiSnapshotView) -> StatusView {
    match s.error {
        Some(error) => StatusView {
            unavailable: true,
            text: "Wi-Fi service unavailable"@,
            details: Some(error),
        },
        None => StatusView {
            unavailable: false,
            text: if s.enabled {
                "Wi-Fi is enabled"@
            } else {
                "Wi-Fi is disabled"@
            },
            details: None,
        },
    }
}

/// The line above the networks.
pub fn wifi_status(snapshot: &WifiSnapshot) -> (r: StatusLine)
    ensures
        r@ == wifi_status_of(snapshot@),
{
    match &snapshot.error {
        Some(error) => unavailable("Wi-Fi service unavailable", error),
        None => if snapshot.enabled {
            status("Wi-Fi is enabled")
        } else {
            status("Wi-Fi is disabled")
        },
    }
}

/// What stands in place of an empty list of networks.
pub fn no_networks_title(enabled: bool) -> (r: &'static str)
    ensures
        r@ == if enabled {
            "No Wi-Fi networks found"@
        } else {
            "Turn on Wi-Fi to scan for networks"@
        },
{
    if enabled {
        "No Wi-Fi networks found"
    } else {
        "Turn on Wi-Fi to scan for networks"
    }
}

/// A network in the list.
#[derive(Debug)]
pub struct WifiRow {
    pub title: String,
    pub subtitle: String,
    pub icon: &'static str,
    /// It is connected; else it can be connected to.
    pub connected: bool,
    /// A password can be entered.
    pub asks_password: bool,
}

/// The row of a network: its name, its security and signal, and whether it is
/// connected or can be connected to.
pub open spec fn shows_network(r: WifiRow, network: WifiNetwork) -> bool {
    &&& r.title@ == network@.ssid
    &&& r.subtitle@ == (if is_open(network@.security) {
        "Open network"@
    } else {
        "Secured network"@
    }) + " | Signal "@ + dec(network.signal as nat) + "%"@
    &&& r.icon@ == if network.active {
        "network-wireless-acquiring-symbolic"@
    } else {
        "network-wireless-symbolic"@
    }
    &&& r.connected == network.active
    &&& r.asks_password == (!network.active && !is_open(network@.security))
}

/// A network in the list.
pub fn wifi_row(network: &WifiNetwork) -> (r: WifiRow)
    ensures
        shows_network(r, *network),
{
    let label = wifi_security_label(network.security.as_str());
    let open = trim(network.security.as_str()).as_str().is_empty() || same(
        network.security.as_str(),
        "--",
    );
    WifiRow {
        title: network.ssid.clone(),
        subtitle: label.to_owned().concat(" | Signal ").concat(
            decimal(network.signal as u64).as_str(),
        ).concat("%"),
        icon: if network.active {
            "network-wireless-acquiring-symbolic"
        } else {
            "network-wireless-symbolic"
        },
        connected: network.active,
        asks_password: !network.active && !open,
    }
}

/// The networks in the list.
pub fn populate_wifi_list(snapshot: &WifiSnapshot) -> (r: Vec<WifiRow>)
    ensures
        r.len() == snapshot.networks.len(),
        forall|i: int|
            0 <= i < r.len() ==> shows_network(#[trigger] r[i], snapshot.networks@[i]),
{
    let mut out: Vec<WifiRow> = Vec::new();
    let mut i: usize = 0;
    while i < snapshot.networks.len()
        invariant
            i <= snapshot.networks.len(),
            out.len() == i,
            forall|k: int|
                0 <= k < i ==> shows_network(#[trigger] out[k], snapshot.networks@[k]),
        decreases snapshot.networks.len() - i,
    {
        out.push(wifi_row(&snapshot.networks[i]));
        i += 1;
    }
    out
}

/// The command that connects to a network: with a password where one can be
/// entered and was.
pub open spec fn wifi_connect_of(ssid: Seq<char>, asks: bool, password: Seq<char>) -> CommandView {
    if asks && password.len() > 0 {
        command_of("nmcli"@, seq!["device"@, "wifi"@, "connect"@, ssid, "password"@, password])
    } else {
        command_of("nmcli"@, seq!["device"@, "wifi"@, "connect"@, ssid])
    }
}

/// The command that connects to a network.
pub fn wifi_connect(ssid: &str, asks_password: bool, password: &str) -> (r: ControlCommand)
    ensures
        r@ == wifi_connect_of(ssid@, asks_password, password@),
{
    let c = command("nmcli").arg("device").arg("wifi").arg("connect").arg(ssid);
    if asks_password && !password.is_empty() {
        let c = c.arg("password").arg(password);
        assert(c@.args =~= wifi_connect_of(ssid@, asks_password, password@).args);
        c
    } else {
        assert(c@.args =~= wifi_connect_of(ssid@, asks_password, password@).args);
        c
    }
}

/// What is said after an attempt to connect to a network.
pub fn wifi_connect_message(ssid: &str, result: &Result<String, String>) -> (r: String)
    ensures
        r@ == outcome_text(result_view(*result), "Connected to "@ + ssid@),
{
    outcome_message(result, "Connected to ".to_owned().concat(ssid).as_str())
}

/// The command that turns the radio on or off.
pub open spec fn radio_switch(on: bool) -> CommandView {
    command_of(
        "nmcli"@,
        seq![
            "radio"@,
            "wifi"@,
            if on {
                "on"@
            } else {
                "off"@
            },
        ],
    )
}

/// The command that turns the radio on or off.
pub fn wifi_radio_command(on: bool) -> (r: ControlCommand)
    ensures
        r@ == radio_switch(on),
        r@ == command_of(
            "nmcli"@,
            seq![
                "radio"@,
                "wifi"@,
                if on {
                    "on"@
                } else {
                    "off"@
                },
            ],
        ),
{
    let state = if on {
        "on"
    } else {
        "off"
    };
    let r = command("nmcli").arg("radio").arg("wifi").arg(state);
    assert(r@.args =~= seq!["radio"@, "wifi"@, state@]);
    r
}

/// What is said after the radio was turned on or off.
pub fn wifi_radio_message(on: bool, result: &Result<String, String>) -> (r: String)
    ensures
        r@ == match *result {
            Ok(_) => if on {
                "Wi-Fi enabled"@
            } else {
                "Wi-Fi disabled"@
            },
            Err(error) => error@,
        },
{
    match result {
        Ok(_) => if on {
            "Wi-Fi enabled".to_owned()
        } else {
            "Wi-Fi disabled".to_owned()
        },
        Err(error) => error.clone(),
    }
}

// ---------------------------------------------------------------------------
// Wired devices
// ---------------------------------------------------------------------------

#[derive(Debug)]
pub struct EthernetDevice {
    pub device: String,
    pub state: String,
    pub connection: Option<String>,
}

/// The value of an [`EthernetDevice`].
pub ghost struct EthernetView {
    pub device: Seq<char>,
    pub state: Seq<char>,
    pub connection: Option<Seq<char>>,
}

impl View for EthernetDevice {
    type V = EthernetView;

    open spec fn view(&self) -> EthernetView {
        EthernetView {
            device: self.device@,
            state: self.state@,
            connection: opt_view(self.connection),
        }
    }
}

pub open spec fn ethernet_views(list: Seq<EthernetDevice>) -> Seq<EthernetView> {
    Seq::new(list.len(), |i: int| list[i]@)
}

#[derive(Debug)]
pub struct EthernetSnapshot {
    pub devices: Vec<EthernetDevice>,
    pub error: Option<String>,
}

/// The device is connected, or about to be.
pub open spec fn is_connected(d: EthernetView) -> bool {
    d.state == "connected"@ || d.state == "connecting (getting IP configuration)"@
}

/// Whether a device is connected, or about to be.
pub fn ethernet_connected(device: &EthernetDevice) -> (r: bool)
    ensures
        r == is_connected(device@),
{
    same(device.state.as_str(), "connected") || same(
        device.state.as_str(),
        "connecting (getting IP configuration)",
    )
}

/// The connection of a field, where it names one.
pub open spec fn connection_of(field: Seq<char>) -> Option<Seq<char>> {
    let name = trimmed(field);
    if name.len() == 0 || name == "--"@ {
        None
    } else {
        Some(name)
    }
}

/// The wired device of a line: its name, its state and its connection.
pub open spec fn ethernet_of(line: Seq<char>) -> Option<EthernetView> {
    let fields = fields_of(line);
    if field_at(fields, 1) != "ethernet"@ || field_at(fields, 0).len() == 0 {
        None
    } else {
        Some(
            EthernetView {
                device: field_at(fields, 0),
                state: if fields.len() > 2 {
                    fields[2]
                } else {
                    "unknown"@
                },
                connection: connection_of(field_at(fields, 3)),
            },
        )
    }
}

fn parse_ethernet_line(line: &str) -> (r: Option<EthernetDevice>)
    ensures
        match r {
            Some(device) => ethernet_of(line@) == Some(device@),
            None => ethernet_of(line@) is None,
        },
{
    let fields = split_nmcli_line(line);
    assert(views(fields@).len() == fields.len());
    if !same(field(&fields, 1).as_str(), "ethernet") {
        return None;
    }
    let device = field(&fields, 0);
    if device.as_str().is_empty() {
        return None;
    }
    let state = if fields.len() > 2 {
        field(&fields, 2)
    } else {
        "unknown".to_owned()
    };
    let name = trim(field(&fields, 3).as_str());
    let connection = if name.as_str().is_empty() || same(name.as_str(), "--") {
        None
    } else {
        Some(name)
    };
    Some(EthernetDevice { device, state, connection })
}

/// The wired devices of a list of lines.
pub open spec fn ethernet_lines(lines: Seq<Seq<char>>) -> Seq<EthernetView>
    decreases lines.len(),
{
    if lines.len() == 0 {
        Seq::empty()
    } else {
        let before = ethernet_lines(lines.drop_last());
        match ethernet_of(lines.last()) {
            Some(device) => before.push(device),
            None => before,
        }
    }
}

/// Connected devices come first, and then their names count.
pub open spec fn ethernet_key(d: EthernetView) -> KeyView {
    KeyView {
        rank: if is_connected(d) {
            0
        } else {
            1
        },
        text: d.device,
    }
}

/// The wired devices of the output of `nmcli`.
pub open spec fn ethernet_devices(output: Seq<char>) -> Seq<EthernetView> {
    sorted_by(ethernet_lines(lines_of(output)), |d: EthernetView| ethernet_key(d))
}

/// The wired devices that `nmcli` lists, connected ones first, then by name.
pub fn parse_ethernet_devices(output: &str) -> (r: Vec<EthernetDevice>)
    ensures
        ethernet_views(r@) == ethernet_devices(output@),
{
    let all = lines(output);
    let ghost text = views(all@);
    let mut devices: Vec<EthernetDevice> = Vec::new();
    let mut keys: Vec<Key> = Vec::new();
    let mut i: usize = 0;
    assert(ethernet_views(devices@) =~= ethernet_lines(text.take(0)));
    while i < all.len()
        invariant
            i <= all.len(),
            text == views(all@),
            ethernet_views(devices@) == ethernet_lines(text.take(i as int)),
            keys.len() == devices.len(),
            forall|k: int|
                0 <= k < keys.len() ==> (#[trigger] keys[k])@ == ethernet_key(devices[k]@),
        decreases all.len() - i,
    {
        proof {
            assert(text.take(i + 1).drop_last() =~= text.take(i as int));
            assert(text.take(i + 1).last() == all@[i as int]@);
        }
        if let Some(device) = parse_ethernet_line(all[i].as_str()) {
            let rank: u64 = if ethernet_connected(&device) {
                0
            } else {
                1
            };
            let ghost before = devices@;
            keys.push(Key { rank, text: device.device.clone() });
            assert(ethernet_views(before.push(device)) =~= ethernet_views(before).push(device@));
            devices.push(device);
        }
        i += 1;
    }
    proof {
        let found = ethernet_views(devices@);
        assert(text.take(i as int) =~= text);
        let f = |d: EthernetDevice| d@;
        let key = |d: EthernetView| ethernet_key(d);
        let a = paired(keys@, devices@);
        lemma_sorted_mapped(a, f);
        assert(mapped(a, f) =~= keyed(found, key));
        assert(ethernet_views(items(sorted(a))) =~= items(mapped(sorted(a), f)));
    }
    stable_sort(devices, keys)
}

/// Connected devices come before all others.
pub proof fn law_ethernet_devices(output: Seq<char>, i: int, j: int)
    requires
        0 <= i < j < ethernet_devices(output).len(),
    ensures
        ethernet_devices(output).len() == ethernet_lines(lines_of(output)).len(),
        is_connected(ethernet_devices(output)[j]) ==> is_connected(ethernet_devices(output)[i]),
{
    let key = |d: EthernetView| ethernet_key(d);
    let reported = ethernet_lines(lines_of(output));
    lemma_sorted_by(reported, key);
    let shown = ethernet_devices(output);
    assert(!key_before(key(shown[j]), key(shown[i])));
}

/// The command that lists the wired devices.
pub fn load_ethernet_snapshot() -> (r: ControlCommand)
    ensures
        r@ == command_of(
            "nmcli"@,
            seq!["-t"@, "-f"@, "DEVICE,TYPE,STATE,CONNECTION"@, "device"@, "status"@],
        ),
{
    let r = command("nmcli").arg("-t").arg("-f").arg("DEVICE,TYPE,STATE,CONNECTION").arg(
        "device",
    ).arg("status");
    assert(r@.args =~= seq!["-t"@, "-f"@, "DEVICE,TYPE,STATE,CONNECTION"@, "device"@, "status"@]);
    r
}

/// The wired devices of its answer.
pub fn ethernet_snapshot(answer: Result<String, String>) -> (r: EthernetSnapshot)
    ensures
        match answer {
            Ok(output) => ethernet_views(r.devices@) == ethernet_devices(output@)
                && r.error is None,
            Err(error) => r.devices@.len() == 0 && opt_view(r.error) == Some(error@),
        },
{
    match answer {
        Ok(output) => EthernetSnapshot {
            devices: parse_ethernet_devices(output.as_str()),
            error: None,
        },
        Err(error) => EthernetSnapshot { devices: Vec::new(), error: Some(error) },
    }
}

/// The state of a device and its connection.
pub open spec fn ethernet_label(d: EthernetView) -> Seq<char> {
    d.state + " | "@ + (match d.connection {
        Some(name) => if name.len() > 0 {
            name
        } else {
            "No active connection"@
        },
        None => "No active connection"@,
    })
}

/// The state of a device and its connection.
pub fn ethernet_state_label(device: &EthernetDevice) -> (r: String)
    ensures
        r@ == ethernet_label(device@),
{
    let start = device.state.clone().concat(" | ");
    match &device.connection {
        Some(name) => if name.as_str().is_empty() {
            start.concat("No active connection")
        } else {
            start.concat(name.as_str())
        },
        None => start.concat("No active connection"),
    }
}

/// The line above the wired devices.
pub fn ethernet_status(snapshot: &EthernetSnapshot) -> (r: StatusLine)
    ensures
        r@ == match snapshot.error {
            Some(error) => StatusView {
                unavailable: true,
                text: "Network service unavailable"@,
                details: Some(error@),
            },
            None => StatusView {
                unavailable: false,
                text: if snapshot.devices@.len() == 0 {
                    "No Ethernet devices found"@
                } else {
                    "Ethernet devices are managed by NetworkManager"@
                },
                details: None,
            },
        },
{
    match &snapshot.error {
        Some(error) => unavailable("Network service unavailable", error),
        None => if snapshot.devices.len() == 0 {
            status("No Ethernet devices found")
        } else {
            status("Ethernet devices are managed by NetworkManager")
        },
    }
}

/// A wired device in the list.
#[derive(Debug)]
pub struct EthernetRow {
    pub title: String,
    pub subtitle: String,
    /// It is connected and can be disconnected; else it can be connected.
    pub connected: bool,
}

/// The row of a wired device.
pub open spec fn shows_device(r: EthernetRow, d: EthernetView) -> bool {
    &&& r.title@ == d.device
    &&& r.subtitle@ == ethernet_label(d)
    &&& r.connected == is_connected(d)
}

/// The rows of the wired devices; where there is none, a row that says how to
/// get one.
pub fn populate_ethernet_list(snapshot: &EthernetSnapshot) -> (r: Vec<EthernetRow>)
    ensures
        if snapshot.devices@.len() == 0 {
            &&& r.len() == 1
            &&& r[0].title@ == "No Ethernet devices found"@
            &&& r[0].subtitle@ == "Plug in a wired adapter or enable one in NetworkManager"@
            &&& !r[0].connected
        } else {
            &&& r.len() == snapshot.devices.len()
            &&& forall|i: int|
                0 <= i < r.len() ==> shows_device(#[trigger] r[i], snapshot.devices@[i]@)
        },
{
    let mut out: Vec<EthernetRow> = Vec::new();
    if snapshot.devices.len() == 0 {
        out.push(
            EthernetRow {
                title: "No Ethernet devices found".to_owned(),
                subtitle: "Plug in a wired adapter or enable one in NetworkManager".to_owned(),
                connected: false,
            },
        );
        return out;
    }
    let mut i: usize = 0;
    while i < snapshot.devices.len()
        invariant
            i <= snapshot.devices.len(),
            out.len() == i,
            forall|k: int|
                0 <= k < i ==> shows_device(#[trigger] out[k], snapshot.devices@[k]@),
        decreases snapshot.devices.len() - i,
    {
        let device = &snapshot.devices[i];
        out.push(
            EthernetRow {
                title: device.device.clone(),
                subtitle: ethernet_state_label(device),
                connected: ethernet_connected(device),
            },
        );
        i += 1;
    }
    out
}

/// What the button of a wired device does.
pub open spec fn ethernet_switch(d: EthernetView) -> CommandView {
    command_of(
        "nmcli"@,
        seq![
            "device"@,
            if is_connected(d) {
                "disconnect"@
            } else {
                "connect"@
            },
            d.device,
        ],
    )
}

/// The command of the button of a device: connected devices are disconnected,
/// others connected.
pub fn ethernet_command(device: &EthernetDevice) -> (r: ControlCommand)
    ensures
        r@ == ethernet_switch(device@),
        r@ == command_of(
            "nmcli"@,
            seq![
                "device"@,
                if is_connected(device@) {
                    "disconnect"@
                } else {
                    "connect"@
                },
                device@.device,
            ],
        ),
{
    let verb = if ethernet_connected(device) {
        "disconnect"
    } else {
        "connect"
    };
    let r = command("nmcli").arg("device").arg(verb).arg(device.device.as_str());
    assert(r@.args =~= seq!["device"@, verb@, device@.device]);
    r
}

/// What is said after that command.
pub fn ethernet_message(device: &EthernetDevice, result: &Result<String, String>) -> (r: String)
    ensures
        r@ == outcome_text(
            result_view(*result),
            (if is_connected(device@) {
                "Disconnected "@
            } else {
                "Connected "@
            }) + device@.device,
        ),
{
    let done = if ethernet_connected(device) {
        "Disconnected "
    } else {
        "Connected "
    };
    outcome_message(result, done.to_owned().concat(device.device.as_str()).as_str())
}

// ---------------------------------------------------------------------------
// What the panel asks of NetworkManager, and what it shows of the answers
// ---------------------------------------------------------------------------

/// The command that connects to a network names it right behind the word
/// `connect`, whatever the password; a password, where one is asked for and
/// given, is the last word, behind the word `password`; else there is none.
pub proof fn law_wifi_connect_command(
    ssid: Seq<char>,
    asks: bool,
    password: Seq<char>,
    other: Seq<char>,
)
    ensures
        ({
            let c = wifi_connect_of(ssid, asks, password);
            let d = wifi_connect_of(ssid, asks, other);
            let n = c.args.len();
            &&& c.program == "nmcli"@
            &&& n >= 4 && c.args[n - 1 - (if asks && password.len() > 0 {
                2int
            } else {
                0
            })] == ssid
            &&& c.args[2] == "connect"@ && c.args[3] == ssid
            &&& c.args[0] == "device"@ && c.args[1] == "wifi"@
            &&& c.args.take(4) == d.args.take(4)
            &&& asks && password.len() > 0 ==> n == 6 && c.args[n - 2] == "password"@
                && c.args.last() == password
            &&& !asks || password.len() == 0 ==> n == 4
        }),
{
    let c = wifi_connect_of(ssid, asks, password);
    let d = wifi_connect_of(ssid, asks, other);
    assert(c.args.take(4) =~= d.args.take(4));
}

/// One line of `nmcli` on a network.
pub open spec fn wifi_line(n: WifiView) -> Seq<char> {
    line_of(
        seq![
            if n.active {
                "*"@
            } else {
                " "@
            },
            n.ssid,
            n.security,
            dec(n.signal as nat),
        ],
    )
}

/// A network is read as `nmcli` wrote it, whatever its name holds; one without a
/// name is left out.
pub proof fn law_wifi_line_round_trip(n: WifiView)
    requires
        is_bare(n.security) || n.security.len() == 0,
    ensures
        is_bare(n.ssid) ==> wifi_of(wifi_line(n)) == Some(n),
        n.ssid.len() == 0 ==> wifi_of(wifi_line(n)) is None,
{
    reveal_strlit("*");
    reveal_strlit(" ");
    let mark = if n.active {
        "*"@
    } else {
        " "@
    };
    let fields = seq![mark, n.ssid, n.security, dec(n.signal as nat)];
    law_fields_round_trip(fields);
    assert(" "@[0] != "*"@[0]);
    law_decimal_round_trip(n.signal as nat);
    assert(dec(n.signal as nat)[0] != '+') by {
        assert(crate::text::is_digit(dec(n.signal as nat)[0]));
    }
    assert(number(dec(n.signal as nat), 255) == Some(n.signal as int));
    if is_bare(n.ssid) {
        lemma_bare(n.ssid);
    }
    if is_bare(n.security) {
        lemma_bare(n.security);
    }
    assert(trimmed(Seq::<char>::empty()) =~= Seq::<char>::empty());
    if n.ssid.len() == 0 {
        assert(n.ssid =~= Seq::<char>::empty());
    }
    if n.security.len() == 0 {
        assert(n.security =~= Seq::<char>::empty());
    }
    assert(fields_of(wifi_line(n)) == fields);
}

proof fn lemma_repeats_keep_names(list: Seq<WifiView>, i: int)
    requires
        0 <= i < list.len(),
    ensures
        exists|k: int|
            0 <= k < without_repeats(list).len() && (#[trigger] without_repeats(list)[k]).ssid
                == list[i].ssid,
    decreases list.len(),
{
    let front = list.drop_last();
    let before = without_repeats(front);
    let out = without_repeats(list);
    if i < list.len() - 1 {
        lemma_repeats_keep_names(front, i);
        let k = choose|k: int|
            0 <= k < before.len() && (#[trigger] before[k]).ssid == front[i].ssid;
        assert(out[k].ssid == list[i].ssid);
    } else if before.len() > 0 && before.last().ssid == list.last().ssid {
        assert(out[before.len() - 1].ssid == list[i].ssid);
    } else {
        assert(out[before.len() as int].ssid == list[i].ssid);
    }
}

proof fn lemma_repeats_keep_order(list: Seq<WifiView>) -> (at: Seq<int>)
    ensures
        at.len() == without_repeats(list).len(),
        forall|k: int|
            0 <= k < at.len() ==> 0 <= #[trigger] at[k] < list.len() && without_repeats(list)[k]
                == list[at[k]],
        forall|j: int, k: int| 0 <= j < k < at.len() ==> #[trigger] at[j] < #[trigger] at[k],
    decreases list.len(),
{
    if list.len() == 0 {
        Seq::empty()
    } else {
        let front = list.drop_last();
        let before = without_repeats(front);
        let at = lemma_repeats_keep_order(front);
        if before.len() > 0 && before.last().ssid == list.last().ssid {
            at
        } else {
            at.push(list.len() - 1)
        }
    }
}

/// Every network that was reported is shown under its name; connected ones come
/// first, and among the others (and among those) stronger ones come before
/// weaker ones.
pub proof fn law_wifi_networks_are_shown(output: Seq<char>, i: int, j: int)
    ensures
        ({
            let reported = wifi_lines(lines_of(output));
            let shown = wifi_networks(output);
            &&& 0 <= i < reported.len() ==> exists|k: int|
                0 <= k < shown.len() && (#[trigger] shown[k]).ssid == reported[i].ssid
            &&& 0 <= i < j < shown.len() && shown[j].active ==> shown[i].active
            &&& 0 <= i < j < shown.len() && shown[i].active == shown[j].active
                ==> shown[i].signal >= shown[j].signal
        }),
{
    broadcast use vstd::seq_lib::group_to_multiset_ensures;

    let reported = wifi_lines(lines_of(output));
    let key = |n: WifiView| wifi_key(n);
    let all = sorted_by(reported, key);
    let shown = wifi_networks(output);
    lemma_sorted_by(reported, key);
    if 0 <= i < reported.len() {
        assert(reported.contains(reported[i]));
        assert(reported.to_multiset().count(reported[i]) > 0);
        assert(all.contains(reported[i]));
        let m = choose|m: int| 0 <= m < all.len() && all[m] == reported[i];
        lemma_repeats_keep_names(all, m);
    }
    if 0 <= i < j < shown.len() {
        let at = lemma_repeats_keep_order(all);
        assert(at[i] < at[j]);
        assert(!key_before(key(all[at[j]]), key(all[at[i]])));
    }
}

/// The search ends with what was reported, or with why nothing was: a scan that
/// fails falls back to what is known already, and gives the same list where the
/// answer is the same.
pub proof fn law_wifi_search(
    radio: Seq<char>,
    list: Seq<char>,
    first: Seq<char>,
    second: Seq<char>,
)
    ensures
        ({
            let asked = wifi_answer(WifiLoad::Radio, Ok(radio));
            let scanned = wifi_answer(asked->load, Ok(list));
            let again = wifi_answer(asked->load, Err(first));
            let known = wifi_answer(again->load, Ok(list));
            let nothing = wifi_answer(again->load, Err(second));
            &&& asked is Ask && again is Ask
            &&& scanned is Snapshot && scanned->snapshot.error is None
            &&& scanned->snapshot.networks == wifi_networks(list)
            &&& scanned->snapshot.enabled <==> trimmed(first_line(radio)) == "enabled"@
            &&& known == scanned
            &&& nothing is Snapshot && nothing->snapshot.error == Some(second)
            &&& nothing->snapshot.networks.len() == 0
            &&& nothing->snapshot.enabled == scanned->snapshot.enabled
            &&& wifi_question(asked->load).0.args.last() == "yes"@
            &&& wifi_question(again->load).0.args.last() == "no"@
            &&& wifi_question(asked->load).0.args.drop_last() == wifi_question(
                again->load,
            ).0.args.drop_last()
        }),
        ({
            let failed = wifi_answer(WifiLoad::Radio, Err(first));
            &&& failed is Snapshot && failed->snapshot.error == Some(first)
            &&& !failed->snapshot.enabled && failed->snapshot.networks.len() == 0
        }),
{
    let asked = wifi_answer(WifiLoad::Radio, Ok(radio));
    let again = wifi_answer(asked->load, Err(first));
    assert(wifi_question(asked->load).0.args.drop_last() =~= wifi_question(
        again->load,
    ).0.args.drop_last());
}

/// A row carries the name of its network; a password can be entered exactly for
/// a network that has one and is not connected yet, and connecting to an open
/// network or to a connected one never takes one.
pub proof fn law_wifi_row(r: WifiRow, n: WifiNetwork, password: Seq<char>)
    requires
        shows_network(r, n),
    ensures
        r.title@ == n.ssid@,
        r.connected == n.active,
        r.asks_password <==> !r.connected && trimmed(n.security@).len() > 0 && n.security@
            != "--"@,
        trimmed(n.security@).len() == 0 || n.security@ == "--"@ ==> has_prefix(
            r.subtitle@,
            "Open network"@,
        ),
        trimmed(n.security@).len() > 0 && n.security@ != "--"@ ==> has_prefix(
            r.subtitle@,
            "Secured network"@,
        ),
        has_suffix(r.subtitle@, dec(n.signal as nat) + "%"@),
        !r.asks_password ==> wifi_connect_of(r.title@, r.asks_password, password)
            == wifi_connect_of(r.title@, false, Seq::empty()),
{
    let word = if is_open(n@.security) {
        "Open network"@
    } else {
        "Secured network"@
    };
    let tail = dec(n.signal as nat) + "%"@;
    lemma_after_prefix(word, " | Signal "@ + dec(n.signal as nat) + "%"@);
    assert(r.subtitle@ =~= word + (" | Signal "@ + dec(n.signal as nat) + "%"@));
    lemma_after_prefix(word + " | Signal "@, tail);
    assert(r.subtitle@ =~= (word + " | Signal "@) + tail);
}

/// The fields that `nmcli` writes of a device of some type.
pub open spec fn device_fields(d: EthernetView, kind: Seq<char>) -> Seq<Seq<char>> {
    seq![
        d.device,
        kind,
        d.state,
        match d.connection {
            Some(name) => name,
            None => "--"@,
        },
    ]
}

/// One line of `nmcli` on a device of some type.
pub open spec fn device_line(d: EthernetView, kind: Seq<char>) -> Seq<char> {
    line_of(device_fields(d, kind))
}

/// A wired device is read as `nmcli` wrote it; devices of other types are left
/// out.
pub proof fn law_ethernet_line_round_trip(d: EthernetView, kind: Seq<char>)
    requires
        d.device.len() > 0,
        d.connection is Some ==> is_bare(d.connection->Some_0) && d.connection->Some_0 != "--"@,
    ensures
        ethernet_of(device_line(d, "ethernet"@)) == Some(d),
        kind != "ethernet"@ ==> ethernet_of(device_line(d, kind)) is None,
{
    reveal_strlit("--");
    let wired = device_fields(d, "ethernet"@);
    let other = device_fields(d, kind);
    law_fields_round_trip(wired);
    law_fields_round_trip(other);
    lemma_bare(wired[3]);
}

/// Every wired device that was reported is shown, and no other; connected ones
/// come first, then each kind by name.
pub proof fn law_ethernet_devices_are_shown(output: Seq<char>, d: EthernetView, i: int, j: int)
    ensures
        ethernet_devices(output).contains(d) <==> ethernet_lines(lines_of(output)).contains(d),
        0 <= i < j < ethernet_devices(output).len() ==> {
            let a = ethernet_devices(output)[i];
            let b = ethernet_devices(output)[j];
            &&& is_connected(b) ==> is_connected(a)
            &&& is_connected(a) == is_connected(b) ==> !text_before(b.device, a.device)
        },
{
    broadcast use vstd::seq_lib::group_to_multiset_ensures;

    let reported = ethernet_lines(lines_of(output));
    let key = |d: EthernetView| ethernet_key(d);
    let shown = ethernet_devices(output);
    lemma_sorted_by(reported, key);
    assert(shown.contains(d) <==> shown.to_multiset().count(d) > 0);
    assert(reported.contains(d) <==> reported.to_multiset().count(d) > 0);
    if 0 <= i < j < shown.len() {
        assert(!key_before(key(shown[j]), key(shown[i])));
    }
}

/// A device counts as connected in just two of its states; its row says what
/// state it is in and over which connection.
pub proof fn law_ethernet_row(r: EthernetRow, d: EthernetView)
    requires
        shows_device(r, d),
    ensures
        r.title@ == d.device,
        r.connected <==> d.state == "connected"@ || d.state
            == "connecting (getting IP configuration)"@,
        has_prefix(r.subtitle@, d.state),
        d.connection is Some && d.connection->Some_0.len() > 0 ==> has_suffix(
            r.subtitle@,
            d.connection->Some_0,
        ),
        d.connection is None ==> has_suffix(r.subtitle@, "No active connection"@),
{
    let tail = match d.connection {
        Some(name) => if name.len() > 0 {
            name
        } else {
            "No active connection"@
        },
        None => "No active connection"@,
    };
    lemma_after_prefix(d.state, " | "@ + tail);
    assert(r.subtitle@ =~= d.state + (" | "@ + tail));
    lemma_after_prefix(d.state + " | "@, tail);
}

/// The button of a wired device acts on that device, and turns its connection
/// around: it ends one that stands and starts one where there is none.
pub proof fn law_ethernet_button(a: EthernetView, b: EthernetView)
    requires
        a.device == b.device,
        is_connected(a),
        !is_connected(b),
    ensures
        ethernet_switch(a).program == "nmcli"@,
        ethernet_switch(a).args.last() == a.device,
        ethernet_switch(b).args.last() == a.device,
        ethernet_switch(a).args[1] == "disconnect"@,
        ethernet_switch(b).args[1] == "connect"@,
        ethernet_switch(a).args.len() == 3 && ethernet_switch(a).args[0] == "device"@,
        ethernet_switch(b) == (CommandView {
            args: ethernet_switch(a).args.update(1, "connect"@),
            ..ethernet_switch(a)
        }),
{
    assert(ethernet_switch(b).args =~= ethernet_switch(a).args.update(1, "connect"@));
}

/// The radio is turned to what was asked for: the last word says it.
pub proof fn law_radio_switch(on: bool)
    ensures
        radio_switch(on).program == "nmcli"@,
        radio_switch(on).args.len() == 3,
        radio_switch(on).args[0] == "radio"@ && radio_switch(on).args[1] == "wifi"@,
        on ==> radio_switch(on).args.last() == "on"@,
        !on ==> radio_switch(on).args.last() == "off"@,
{
}

} // verus!
