//! The printers panel: queues and devices as CUPS' own tools list them.

use crate::assoc::{get, law_with_pair, lookup, pair_views, set_pair, with_pair};
use crate::order::{
    items, key_before, keyed, lemma_sorted_by, lemma_sorted_mapped, mapped, paired, sorted, sorted_by,
    stable_sort, Key, KeyView,
};
use crate::settings::control::{
    command, command_of, outcome_message, outcome_text, result_view, CommandView, ControlCommand,
};
use crate::text::{
    after_prefix, alnum, any_of, contains, cut, cut_at, cut_last, has_prefix, head_of, is_alnum,
    is_bare, is_space, law_cut, lemma_after_prefix, lemma_bare, lines, lines_of, occurs, opt_view,
    replace, replaced, rsplit_once, space, split_head, split_once, split_once_at,
    split_whitespace, starts_with, strip_prefix, trim, trim_back, trim_front, trim_matches,
    trimmed, trimmed_of, views, words_of,
};
use vstd::prelude::*;

verus! {

// ---------------------------------------------------------------------------
// Names
// ---------------------------------------------------------------------------

/// A character that parts words in a name.
pub open spec fn is_separator(c: char) -> bool {
    c == '_' || c == '-' || c == '.'
}

/// A character that a name may hold.
pub open spec fn is_name_char(c: char) -> bool {
    is_alnum(c) || is_separator(c)
}

/// A character that becomes an underscore.
pub open spec fn is_replaced(c: char) -> bool {
    is_space(c) || c == ':' || c == '/' || c == '%' || c == '?' || c == '&' || c == '='
}

/// What a character becomes in a name; None where it is left out.
pub open spec fn name_char(c: char) -> Option<char> {
    if is_name_char(c) {
        Some(c)
    } else if is_replaced(c) {
        Some('_')
    } else {
        None
    }
}

/// The name with one more character: of separators in a row the first stays.
pub open spec fn with_name_char(name: Seq<char>, c: char) -> Seq<char> {
    match name_char(c) {
        None => name,
        Some(d) => if is_separator(d) && name.len() > 0 && is_separator(name.last()) {
            name
        } else {
            name.push(d)
        },
    }
}

/// The characters of a text that a name can hold.
pub open spec fn name_chars(text: Seq<char>) -> Seq<char>
    decreases text.len(),
{
    if text.len() == 0 {
        Seq::empty()
    } else {
        with_name_char(name_chars(text.drop_last()), text.last())
    }
}

/// A text as a name: without separators around it, or `Printer`.
pub open spec fn sanitized(text: Seq<char>) -> Seq<char> {
    let name = trimmed_of(name_chars(text), "_-."@);
    if name.len() == 0 {
        "Printer"@
    } else {
        name
    }
}

fn separator(c: char) -> (r: bool)
    ensures
        r == is_separator(c),
{
    c == '_' || c == '-' || c == '.'
}

fn to_name_char(c: char) -> (r: Option<char>)
    ensures
        r == name_char(c),
{
    if alnum(c) || separator(c) {
        Some(c)
    } else if space(c) || c == ':' || c == '/' || c == '%' || c == '?' || c == '&' || c == '=' {
        Some('_')
    } else {
        None
    }
}

/// A text as the name of a printer.
pub fn sanitize_printer_name(name: &str) -> (r: String)
    ensures
        r@ == sanitized(name@),
{
    let mut out = String::new();
    let mut last_was_separator = false;
    assert(name@.take(0) =~= Seq::<char>::empty());
    for c in it: name.chars()
        invariant
            it.seq() == name@,
            out@ == name_chars(name@.take(it.index() as int)),
            last_was_separator == (out@.len() > 0 && is_separator(out@.last())),
    {
        proof {
            let i = it.index() as int;
            assert(name@.take(i + 1).drop_last() =~= name@.take(i));
            assert(name@.take(i + 1).last() == c);
        }
        if let Some(d) = to_name_char(c) {
            let is_sep = separator(d);
            if !(is_sep && last_was_separator) {
                out.push(d);
                last_was_separator = is_sep;
            }
        }
    }
    assert(name@.take(name@.len() as int) =~= name@);
    let trimmed_name = trim_matches(out.as_str(), "_-.");
    if trimmed_name.as_str().is_empty() {
        "Printer".to_owned()
    } else {
        trimmed_name
    }
}

/// A name that CUPS takes: letters, digits, underscores, hyphens and dots, and
/// at least one of them.
pub open spec fn is_valid_name(name: Seq<char>) -> bool {
    name.len() > 0 && forall|i: int| 0 <= i < name.len() ==> is_name_char(#[trigger] name[i])
}

/// Whether CUPS takes a name.
pub fn valid_printer_name(name: &str) -> (r: bool)
    ensures
        r == is_valid_name(name@),
{
    if name.is_empty() {
        return false;
    }
    for c in it: name.chars()
        invariant
            it.seq() == name@,
            forall|k: int| 0 <= k < it.index() ==> is_name_char(#[trigger] name@[k]),
    {
        if !(alnum(c) || separator(c)) {
            assert(!is_name_char(name@[it.index() as int]));
            return false;
        }
    }
    true
}

proof fn lemma_name_chars(text: Seq<char>)
    ensures
        forall|i: int|
            0 <= i < name_chars(text).len() ==> is_name_char(#[trigger] name_chars(text)[i]),
        forall|i: int|
            0 < i < name_chars(text).len() && is_separator(#[trigger] name_chars(text)[i])
                ==> !is_separator(name_chars(text)[i - 1]),
    decreases text.len(),
{
    if text.len() > 0 {
        let before = name_chars(text.drop_last());
        let out = name_chars(text);
        lemma_name_chars(text.drop_last());
        assert forall|i: int| 0 <= i < out.len() implies is_name_char(#[trigger] out[i]) by {
            if i < before.len() {
                assert(out[i] == before[i]);
                assert(is_name_char(before[i]));
            }
        }
        assert forall|i: int| 0 < i < out.len() && is_separator(
            #[trigger] out[i],
        ) implies !is_separator(out[i - 1]) by {
            assert(out[i - 1] == before[i - 1]);
            if i < before.len() {
                assert(out[i] == before[i]);
                assert(is_separator(before[i]));
            } else {
                assert(before.last() == before[i - 1]);
            }
        }
    }
}

proof fn lemma_trim_front_keeps(s: Seq<char>, p: spec_fn(char) -> bool)
    ensures
        ({
            let t = trim_front(s, p);
            &&& t.len() <= s.len()
            &&& t == s.skip(s.len() - t.len())
            &&& t.len() > 0 ==> !p(t[0])
        }),
    decreases s.len(),
{
    let t = trim_front(s, p);
    if s.len() > 0 && p(s[0]) {
        lemma_trim_front_keeps(s.drop_first(), p);
        assert(t =~= s.skip(s.len() - t.len()));
    } else {
        assert(t =~= s.skip(0));
    }
}

proof fn lemma_trim_back_keeps(s: Seq<char>, p: spec_fn(char) -> bool)
    ensures
        ({
            let t = trim_back(s, p);
            &&& t.len() <= s.len()
            &&& t == s.take(t.len() as int)
            &&& t.len() > 0 ==> !p(t.last())
        }),
    decreases s.len(),
{
    let t = trim_back(s, p);
    if s.len() > 0 && p(s.last()) {
        lemma_trim_back_keeps(s.drop_last(), p);
        assert(t =~= s.take(t.len() as int));
    } else {
        assert(t =~= s.take(s.len() as int));
    }
}

/// Whatever text it is made of, a sanitized name is one that CUPS takes, it
/// starts and ends with a letter or a digit, and it has no two separators in a
/// row.
pub proof fn law_sanitized_is_valid(text: Seq<char>)
    ensures
        is_valid_name(sanitized(text)),
        is_alnum(sanitized(text)[0]),
        is_alnum(sanitized(text).last()),
        forall|i: int|
            0 < i < sanitized(text).len() && is_separator(#[trigger] sanitized(text)[i])
                ==> !is_separator(sanitized(text)[i - 1]),
{
    reveal_strlit("Printer");
    reveal_strlit("_-.");
    let all = name_chars(text);
    let set = any_of("_-."@);
    let front = trim_front(all, set);
    let name = trim_back(front, set);
    lemma_name_chars(text);
    lemma_trim_front_keeps(all, set);
    lemma_trim_back_keeps(front, set);
    assert forall|c: char| #[trigger] set(c) == is_separator(c) by {
        let s = "_-."@;
        assert(s[0] == '_' && s[1] == '-' && s[2] == '.');
        if s.contains(c) {
            let i = choose|i: int| 0 <= i < s.len() && s[i] == c;
        }
        if is_separator(c) {
            if c == '_' {
                assert(s[0] == c);
            } else if c == '-' {
                assert(s[1] == c);
            } else {
                assert(s[2] == c);
            }
        }
    }
    if name.len() > 0 {
        let skipped = all.len() - front.len();
        assert forall|i: int| 0 <= i < name.len() implies #[trigger] name[i] == all[i + skipped] by {
            assert(name[i] == front[i]);
        }
        assert forall|i: int| 0 <= i < name.len() implies is_name_char(#[trigger] name[i]) by {
            assert(is_name_char(all[i + skipped]));
        }
        assert forall|i: int| 0 < i < name.len() && is_separator(
            #[trigger] name[i],
        ) implies !is_separator(name[i - 1]) by {
            assert(is_separator(all[i + skipped]));
            assert(name[i - 1] == all[i - 1 + skipped]);
        }
        assert(name[0] == front[0]);
        assert(!set(front[0]));
        assert(!set(name.last()));
        assert(name.last() == name[name.len() - 1]);
    } else {
        let p = "Printer"@;
        assert(p.len() == 7);
        assert(p[0] == 'P' && p[1] == 'r' && p[2] == 'i' && p[3] == 'n' && p[4] == 't' && p[5]
            == 'e' && p[6] == 'r');
    }
}

/// The part of a device's address that names it best: what follows the last
/// slash, or else the host.
pub open spec fn name_candidate(uri: Seq<char>) -> Seq<char> {
    let plain = head_of(replaced(uri, "%20"@, " "@), "?"@);
    let host = match cut_at(plain, "://"@) {
        Some((_, rest)) => head_of(rest, "/"@),
        None => "Printer"@,
    };
    match cut_last(plain, '/') {
        Some((_, tail)) => if tail.len() > 0 {
            tail
        } else {
            host
        },
        None => host,
    }
}

/// A name for the printer at an address.
pub fn suggested_printer_name(uri: &str) -> (r: String)
    ensures
        r@ == sanitized(name_candidate(uri@)),
{
    proof {
        reveal_strlit("%20");
    }
    let decoded = replace(uri, "%20", " ");
    let plain = split_head(decoded.as_str(), "?");
    if let Some((_, tail)) = rsplit_once(plain.as_str(), '/') {
        if !tail.as_str().is_empty() {
            return sanitize_printer_name(tail.as_str());
        }
    }
    match split_once_at(plain.as_str(), "://") {
        Some((_, rest)) => sanitize_printer_name(split_head(rest.as_str(), "/").as_str()),
        None => sanitize_printer_name("Printer"),
    }
}

// ---------------------------------------------------------------------------
// Queues
// ---------------------------------------------------------------------------

#[derive(Debug)]
pub struct Printer {
    pub name: String,
    pub enabled: bool,
    pub accepting_jobs: bool,
    pub is_default: bool,
    pub state: String,
    pub device_uri: Option<String>,
}

/// The value of a [`Printer`].
pub ghost struct PrinterView {
    pub name: Seq<char>,
    pub enabled: bool,
    pub accepting_jobs: bool,
    pub is_default: bool,
    pub state: Seq<char>,
    pub device_uri: Option<Seq<char>>,
}

impl View for Printer {
    type V = PrinterView;

    open spec fn view(&self) -> PrinterView {
        PrinterView {
            name: self.name@,
            enabled: self.enabled,
            accepting_jobs: self.accepting_jobs,
            is_default: self.is_default,
            state: self.state@,
            device_uri: opt_view(self.device_uri),
        }
    }
}

pub open spec fn printer_views(list: Seq<Printer>) -> Seq<PrinterView> {
    Seq::new(list.len(), |i: int| list[i]@)
}

/// The default printer that `lpstat -d` names.
pub open spec fn default_printer(output: Seq<char>) -> Option<Seq<char>> {
    match after_prefix(output, "system default destination:"@) {
        Some(rest) => if trimmed(rest).len() > 0 {
            Some(trimmed(rest))
        } else {
            None
        },
        None => None,
    }
}

/// The default printer that `lpstat -d` names.
pub fn parse_default_printer(output: &str) -> (r: Option<String>)
    ensures
        opt_view(r) == default_printer(output@),
{
    match strip_prefix(output, "system default destination:") {
        Some(rest) => {
            let name = trim(rest.as_str());
            if name.as_str().is_empty() {
                None
            } else {
                Some(name)
            }
        },
        None => None,
    }
}

/// The addresses of the queues with the one of a line.
pub open spec fn with_device_line(devices: Seq<(Seq<char>, Seq<char>)>, line: Seq<char>) -> Seq<
    (Seq<char>, Seq<char>),
> {
    match after_prefix(line, "device for "@) {
        None => devices,
        Some(rest) => match cut(rest, ':') {
            None => devices,
            Some((name, uri)) => with_pair(devices, trimmed(name), trimmed(uri)),
        },
    }
}

/// The addresses of the queues of a list of lines.
pub open spec fn device_lines(lines: Seq<Seq<char>>) -> Seq<(Seq<char>, Seq<char>)>
    decreases lines.len(),
{
    if lines.len() == 0 {
        Seq::empty()
    } else {
        with_device_line(device_lines(lines.drop_last()), lines.last())
    }
}

/// The addresses of the queues that `lpstat -v` names.
pub fn parse_printer_devices(output: &str) -> (r: Vec<(String, String)>)
    ensures
        pair_views(r@) == device_lines(lines_of(output@)),
{
    let all = lines(output);
    let ghost text = views(all@);
    let mut devices: Vec<(String, String)> = Vec::new();
    let mut i: usize = 0;
    assert(pair_views(devices@) =~= device_lines(text.take(0)));
    while i < all.len()
        invariant
            i <= all.len(),
            text == views(all@),
            pair_views(devices@) == device_lines(text.take(i as int)),
        decreases all.len() - i,
    {
        proof {
            assert(text.take(i + 1).drop_last() =~= text.take(i as int));
            assert(text.take(i + 1).last() == all@[i as int]@);
        }
        if let Some(rest) = strip_prefix(all[i].as_str(), "device for ") {
            if let Some((name, uri)) = split_once(rest.as_str(), ':') {
                set_pair(&mut devices, trim(name.as_str()), trim(uri.as_str()));
            }
        }
        i += 1;
    }
    assert(text.take(i as int) =~= text);
    devices
}

/// The name in a line on a printer.
pub open spec fn printer_named(line: Seq<char>) -> Option<Seq<char>> {
    let t = trimmed(line);
    let words = words_of(t);
    if has_prefix(t, "printer "@) && words.len() > 1 {
        Some(words[1])
    } else {
        None
    }
}

fn name_in_line(t: &str) -> (r: Option<String>)
    requires
        t@ == trimmed(t@),
    ensures
        opt_view(r) == printer_named(t@),
{
    if !starts_with(t, "printer ") {
        return None;
    }
    let words = split_whitespace(t);
    assert(views(words@).len() == words.len());
    if words.len() > 1 {
        assert(views(words@)[1] == words@[1]@);
        Some(words[1].clone())
    } else {
        None
    }
}

/// The state in a line on a printer: what follows ` is ` up to a dot.
pub open spec fn state_in(t: Seq<char>) -> Seq<char> {
    match cut_at(t, " is "@) {
        Some((_, rest)) => trimmed(head_of(rest, "."@)),
        None => "unknown"@,
    }
}

/// The printer of a line.
pub open spec fn printer_of(line: Seq<char>, devices: Seq<(Seq<char>, Seq<char>)>) -> Option<
    PrinterView,
> {
    let t = trimmed(line);
    match printer_named(line) {
        None => None,
        Some(name) => Some(
            PrinterView {
                name,
                enabled: !occurs(t, " disabled "@),
                accepting_jobs: true,
                is_default: false,
                state: state_in(t),
                device_uri: lookup(devices, name),
            },
        ),
    }
}

proof fn lemma_trimmed_twice(s: Seq<char>)
    ensures
        trimmed(trimmed(s)) == trimmed(s),
{
    let sp = crate::text::spaces();
    let front = trim_front(s, sp);
    let t = trim_back(front, sp);
    lemma_trim_front_keeps(s, sp);
    lemma_trim_back_keeps(front, sp);
    if t.len() > 0 {
        assert(t[0] == front[0]);
        crate::text::lemma_trim_front(t, sp, 0);
        assert(t.subrange(0, t.len() as int) =~= t);
        crate::text::lemma_trim_back(t, sp, t.len() as int);
    }
}

fn parse_printer_line(line: &str, devices: &Vec<(String, String)>) -> (r: Option<Printer>)
    ensures
        match r {
            Some(printer) => printer_of(line@, pair_views(devices@)) == Some(printer@),
            None => printer_of(line@, pair_views(devices@)) is None,
        },
{
    let t = trim(line);
    proof {
        lemma_trimmed_twice(line@);
    }
    match name_in_line(t.as_str()) {
        None => None,
        Some(name) => {
            let state = match split_once_at(t.as_str(), " is ") {
                Some((_, rest)) => trim(split_head(rest.as_str(), ".").as_str()),
                None => "unknown".to_owned(),
            };
            let device_uri = get(devices, &name);
            Some(
                Printer {
                    enabled: !contains(t.as_str(), " disabled "),
                    accepting_jobs: true,
                    is_default: false,
                    state,
                    device_uri,
                    name,
                },
            )
        },
    }
}

/// The printers of a list of lines.
pub open spec fn printer_lines(lines: Seq<Seq<char>>, devices: Seq<(Seq<char>, Seq<char>)>) -> Seq<
    PrinterView,
>
    decreases lines.len(),
{
    if lines.len() == 0 {
        Seq::empty()
    } else {
        let before = printer_lines(lines.drop_last(), devices);
        match printer_of(lines.last(), devices) {
            Some(printer) => before.push(printer),
            None => before,
        }
    }
}

/// The printers that `lpstat -p` names.
pub fn parse_printer_states(output: &str, devices: &Vec<(String, String)>) -> (r: Vec<Printer>)
    ensures
        printer_views(r@) == printer_lines(lines_of(output@), pair_views(devices@)),
{
    let all = lines(output);
    let ghost text = views(all@);
    let ghost known = pair_views(devices@);
    let mut printers: Vec<Printer> = Vec::new();
    let mut i: usize = 0;
    assert(printer_views(printers@) =~= printer_lines(text.take(0), known));
    while i < all.len()
        invariant
            i <= all.len(),
            text == views(all@),
            known == pair_views(devices@),
            printer_views(printers@) == printer_lines(text.take(i as int), known),
        decreases all.len() - i,
    {
        proof {
            assert(text.take(i + 1).drop_last() =~= text.take(i as int));
            assert(text.take(i + 1).last() == all@[i as int]@);
        }
        if let Some(printer) = parse_printer_line(all[i].as_str(), devices) {
            let ghost before = printers@;
            assert(printer_views(before.push(printer)) =~= printer_views(before).push(printer@));
            printers.push(printer);
        }
        i += 1;
    }
    assert(text.take(i as int) =~= text);
    printers
}

/// The position of the first printer of a name, or the number of printers.
pub open spec fn printer_slot(printers: Seq<PrinterView>, name: Seq<char>) -> int
    decreases printers.len(),
{
    if printers.len() == 0 || printers[0].name == name {
        0
    } else {
        1 + printer_slot(printers.drop_first(), name)
    }
}

/// The printers after a line on whether one of them takes jobs.
pub open spec fn with_accepting_line(printers: Seq<PrinterView>, line: Seq<char>) -> Seq<
    PrinterView,
> {
    match printer_named(line) {
        None => printers,
        Some(name) => {
            let at = printer_slot(printers, name);
            if at < printers.len() {
                printers.update(
                    at,
                    PrinterView {
                        accepting_jobs: occurs(trimmed(line), " accepting requests "@),
                        ..printers[at]
                    },
                )
            } else {
                printers
            }
        },
    }
}

/// The printers after a list of such lines.
pub open spec fn accepting_lines(printers: Seq<PrinterView>, lines: Seq<Seq<char>>) -> Seq<
    PrinterView,
>
    decreases lines.len(),
{
    if lines.len() == 0 {
        printers
    } else {
        with_accepting_line(accepting_lines(printers, lines.drop_last()), lines.last())
    }
}

proof fn lemma_printer_slot(printers: Seq<PrinterView>, name: Seq<char>, n: int)
    requires
        0 <= n <= printers.len(),
        forall|i: int| 0 <= i < n ==> (#[trigger] printers[i]).name != name,
        n < printers.len() ==> printers[n].name == name,
    ensures
        printer_slot(printers, name) == n,
    decreases n,
{
    if n > 0 {
        let rest = printers.drop_first();
        assert forall|i: int| 0 <= i < n - 1 implies (#[trigger] rest[i]).name != name by {
            assert(rest[i] == printers[i + 1]);
        }
        lemma_printer_slot(rest, name, n - 1);
    }
}

fn apply_accepting_line(printers: &mut Vec<Printer>, line: &str)
    ensures
        printer_views(final(printers)@) == with_accepting_line(printer_views(old(printers)@), line@),
{
    let ghost before = printer_views(printers@);
    let t = trim(line);
    proof {
        lemma_trimmed_twice(line@);
    }
    if let Some(name) = name_in_line(t.as_str()) {
        let mut i: usize = 0;
        while i < printers.len() && printers[i].name != name
            invariant
                i <= printers.len(),
                printers@ == old(printers)@,
                before == printer_views(printers@),
                forall|k: int| 0 <= k < i ==> (#[trigger] before[k]).name != name@,
            decreases printers.len() - i,
        {
            assert(before[i as int].name == printers@[i as int].name@);
            i += 1;
        }
        proof {
            if i < printers.len() {
                assert(before[i as int].name == name@);
            }
            lemma_printer_slot(before, name@, i as int);
        }
        if i < printers.len() {
            let accepting = contains(t.as_str(), " accepting requests ");
            printers[i].accepting_jobs = accepting;
            assert(printer_views(printers@) =~= before.update(
                i as int,
                PrinterView { accepting_jobs: accepting, ..before[i as int] },
            ));
        }
    }
}

/// Notes which printers take jobs, as `lpstat -a` says.
pub fn apply_accepting_jobs(printers: &mut Vec<Printer>, output: &str)
    ensures
        printer_views(final(printers)@) == accepting_lines(
            printer_views(old(printers)@),
            lines_of(output@),
        ),
{
    let all = lines(output);
    let ghost text = views(all@);
    let ghost before = printer_views(printers@);
    let mut i: usize = 0;
    assert(text.take(0) =~= Seq::<Seq<char>>::empty());
    while i < all.len()
        invariant
            i <= all.len(),
            text == views(all@),
            printer_views(printers@) == accepting_lines(before, text.take(i as int)),
        decreases all.len() - i,
    {
        proof {
            assert(text.take(i + 1).drop_last() =~= text.take(i as int));
            assert(text.take(i + 1).last() == all@[i as int]@);
        }
        apply_accepting_line(printers, all[i].as_str());
        i += 1;
    }
    assert(text.take(i as int) =~= text);
}

/// The printers, of which those of a name are the default.
pub open spec fn with_default(printers: Seq<PrinterView>, name: Seq<char>) -> Seq<PrinterView> {
    Seq::new(
        printers.len(),
        |i: int| PrinterView { is_default: printers[i].name == name, ..printers[i] },
    )
}

fn mark_default(printers: &mut Vec<Printer>, name: &String)
    ensures
        printer_views(final(printers)@) == with_default(printer_views(old(printers)@), name@),
{
    let ghost before = printer_views(printers@);
    let mut i: usize = 0;
    while i < printers.len()
        invariant
            i <= printers.len(),
            printers.len() == before.len(),
            forall|k: int|
                0 <= k < i ==> (#[trigger] printers@[k])@ == with_default(before, name@)[k],
            forall|k: int| i <= k < before.len() ==> (#[trigger] printers@[k])@ == before[k],
        decreases printers.len() - i,
    {
        assert(printers@[i as int]@ == before[i as int]);
        let is_default = printers[i].name == *name;
        printers[i].is_default = is_default;
        i += 1;
    }
    assert(printer_views(printers@) =~= with_default(before, name@));
}

/// The default printer comes first, then those that are enabled, and then their
/// names count.
pub open spec fn printer_key(p: PrinterView) -> KeyView {
    KeyView {
        rank: ((if p.is_default {
            0int
        } else {
            2
        }) + (if p.enabled {
            0int
        } else {
            1
        })) as u64,
        text: p.name,
    }
}

/// The printers in the order of the list.
pub open spec fn ordered_printers(printers: Seq<PrinterView>) -> Seq<PrinterView> {
    sorted_by(printers, |p: PrinterView| printer_key(p))
}

fn sort_printers(printers: Vec<Printer>) -> (r: Vec<Printer>)
    ensures
        printer_views(r@) == ordered_printers(printer_views(printers@)),
{
    let mut keys: Vec<Key> = Vec::new();
    let mut i: usize = 0;
    while i < printers.len()
        invariant
            i <= printers.len(),
            keys.len() == i,
            forall|k: int|
                0 <= k < i ==> (#[trigger] keys[k])@ == printer_key(printers[k]@),
        decreases printers.len() - i,
    {
        let p = &printers[i];
        let rank: u64 = (if p.is_default {
            0u64
        } else {
            2u64
        }) + (if p.enabled {
            0u64
        } else {
            1u64
        });
        keys.push(Key { rank, text: p.name.clone() });
        i += 1;
    }
    proof {
        let f = |p: Printer| p@;
        let key = |p: PrinterView| printer_key(p);
        let a = paired(keys@, printers@);
        lemma_sorted_mapped(a, f);
        assert(mapped(a, f) =~= keyed(printer_views(printers@), key));
        assert(printer_views(items(sorted(a))) =~= items(mapped(sorted(a), f)));
    }
    stable_sort(printers, keys)
}

/// The list has every printer; a default printer comes before all others, and
/// an enabled one before disabled ones.
pub proof fn law_printers_are_ordered(printers: Seq<PrinterView>, i: int, j: int)
    requires
        0 <= i < j < printers.len(),
    ensures
        ordered_printers(printers).len() == printers.len(),
        ordered_printers(printers).to_multiset() == printers.to_multiset(),
        ordered_printers(printers)[j].is_default ==> ordered_printers(printers)[i].is_default,
        ordered_printers(printers)[i].is_default == ordered_printers(printers)[j].is_default
            && ordered_printers(printers)[j].enabled ==> ordered_printers(printers)[i].enabled,
{
    let key = |p: PrinterView| printer_key(p);
    lemma_sorted_by(printers, key);
    let out = ordered_printers(printers);
    assert(!key_before(key(out[j]), key(out[i])));
}

// ---------------------------------------------------------------------------
// Devices without a queue
// ---------------------------------------------------------------------------

#[derive(Debug)]
pub struct InstallablePrinter {
    pub kind: String,
    pub uri: String,
    pub suggested_name: String,
}

/// The value of an [`InstallablePrinter`].
pub ghost struct InstallableView {
    pub kind: Seq<char>,
    pub uri: Seq<char>,
    pub suggested_name: Seq<char>,
}

impl View for InstallablePrinter {
    type V = InstallableView;

    open spec fn view(&self) -> InstallableView {
        InstallableView {
            kind: self.kind@,
            uri: self.uri@,
            suggested_name: self.suggested_name@,
        }
    }
}

pub open spec fn installable_views(list: Seq<InstallablePrinter>) -> Seq<InstallableView> {
    Seq::new(list.len(), |i: int| list[i]@)
}

/// A queue has the address.
pub open spec fn is_configured(devices: Seq<(Seq<char>, Seq<char>)>, uri: Seq<char>) -> bool {
    exists|i: int| 0 <= i < devices.len() && (#[trigger] devices[i]).1 == uri
}

/// The device of a line: its kind and its address, unless a queue has it.
pub open spec fn installable_of(
    line: Seq<char>,
    devices: Seq<(Seq<char>, Seq<char>)>,
) -> Option<InstallableView> {
    match cut(trimmed(line), ' ') {
        None => None,
        Some((kind, uri)) => {
            let kind = trimmed(kind);
            let uri = trimmed(uri);
            if kind.len() == 0 || uri.len() == 0 || is_configured(devices, uri) {
                None
            } else {
                Some(
                    InstallableView {
                        kind,
                        uri,
                        suggested_name: sanitized(name_candidate(uri)),
                    },
                )
            }
        },
    }
}

/// The devices of a list of lines.
pub open spec fn installable_lines(
    lines: Seq<Seq<char>>,
    devices: Seq<(Seq<char>, Seq<char>)>,
) -> Seq<InstallableView>
    decreases lines.len(),
{
    if lines.len() == 0 {
        Seq::empty()
    } else {
        let before = installable_lines(lines.drop_last(), devices);
        match installable_of(lines.last(), devices) {
            Some(printer) => before.push(printer),
            None => before,
        }
    }
}

pub open spec fn text_key(text: Seq<char>) -> KeyView {
    KeyView { rank: 0, text }
}

/// By kind, then by name, then by address.
pub open spec fn ordered_installable(list: Seq<InstallableView>) -> Seq<InstallableView> {
    let by_uri = sorted_by(list, |p: InstallableView| text_key(p.uri));
    let by_name = sorted_by(by_uri, |p: InstallableView| text_key(p.suggested_name));
    sorted_by(by_name, |p: InstallableView| text_key(p.kind))
}

/// A list without the devices that have the address of the one kept before
/// them.
pub open spec fn without_repeated_uris(list: Seq<InstallableView>) -> Seq<InstallableView>
    decreases list.len(),
{
    if list.len() == 0 {
        list
    } else {
        let before = without_repeated_uris(list.drop_last());
        if before.len() > 0 && before.last().uri == list.last().uri {
            before
        } else {
            before.push(list.last())
        }
    }
}

/// The devices of the output of `lpinfo -v` that no queue has.
pub open spec fn installable_printers(
    output: Seq<char>,
    devices: Seq<(Seq<char>, Seq<char>)>,
) -> Seq<InstallableView> {
    without_repeated_uris(ordered_installable(installable_lines(lines_of(output), devices)))
}

fn configured(devices: &Vec<(String, String)>, uri: &String) -> (r: bool)
    ensures
        r == is_configured(pair_views(devices@), uri@),
{
    let ghost all = pair_views(devices@);
    let mut i: usize = 0;
    while i < devices.len()
        invariant
            i <= devices.len(),
            all == pair_views(devices@),
            forall|k: int| 0 <= k < i ==> (#[trigger] all[k]).1 != uri@,
        decreases devices.len() - i,
    {
        assert(all[i as int].1 == devices@[i as int].1@);
        if devices[i].1 == *uri {
            return true;
        }
        i += 1;
    }
    false
}

fn parse_installable_line(line: &str, devices: &Vec<(String, String)>) -> (r: Option<
    InstallablePrinter,
>)
    ensures
        match r {
            Some(printer) => installable_of(line@, pair_views(devices@)) == Some(printer@),
            None => installable_of(line@, pair_views(devices@)) is None,
        },
{
    match split_once(trim(line).as_str(), ' ') {
        None => None,
        Some((kind, uri)) => {
            let kind = trim(kind.as_str());
            let uri = trim(uri.as_str());
            if kind.as_str().is_empty() || uri.as_str().is_empty() || configured(devices, &uri) {
                None
            } else {
                let suggested_name = suggested_printer_name(uri.as_str());
                Some(InstallablePrinter { kind, uri, suggested_name })
            }
        },
    }
}

/// Which text a list of devices is sorted by.
#[derive(Debug, Clone, Copy, PartialEq, Eq, Structural)]
enum InstallableField {
    Kind,
    Name,
    Uri,
}

spec fn field_text(p: InstallableView, field: InstallableField) -> Seq<char> {
    match field {
        InstallableField::Kind => p.kind,
        InstallableField::Name => p.suggested_name,
        InstallableField::Uri => p.uri,
    }
}

fn sort_installable(list: Vec<InstallablePrinter>, field: InstallableField) -> (r: Vec<
    InstallablePrinter,
>)
    ensures
        installable_views(r@) == sorted_by(
            installable_views(list@),
            |p: InstallableView| text_key(field_text(p, field)),
        ),
{
    let mut keys: Vec<Key> = Vec::new();
    let mut i: usize = 0;
    while i < list.len()
        invariant
            i <= list.len(),
            keys.len() == i,
            forall|k: int|
                0 <= k < i ==> (#[trigger] keys[k])@ == text_key(field_text(list[k]@, field)),
        decreases list.len() - i,
    {
        let text = match field {
            InstallableField::Kind => list[i].kind.clone(),
            InstallableField::Name => list[i].suggested_name.clone(),
            InstallableField::Uri => list[i].uri.clone(),
        };
        keys.push(Key { rank: 0, text });
        i += 1;
    }
    proof {
        let f = |p: InstallablePrinter| p@;
        let key = |p: InstallableView| text_key(field_text(p, field));
        let a = paired(keys@, list@);
        lemma_sorted_mapped(a, f);
        assert(mapped(a, f) =~= keyed(installable_views(list@), key));
        assert(installable_views(items(sorted(a))) =~= items(mapped(sorted(a), f)));
    }
    stable_sort(list, keys)
}

proof fn lemma_same_sort(
    list: Seq<InstallableView>,
    a: spec_fn(InstallableView) -> KeyView,
    b: spec_fn(InstallableView) -> KeyView,
)
    requires
        forall|p: InstallableView| #[trigger] a(p) == b(p),
    ensures
        sorted_by(list, a) == sorted_by(list, b),
{
    assert(keyed(list, a) =~= keyed(list, b));
}

fn order_installable(list: Vec<InstallablePrinter>) -> (r: Vec<InstallablePrinter>)
    ensures
        installable_views(r@) == ordered_installable(installable_views(list@)),
{
    let ghost all = installable_views(list@);
    let by_uri = sort_installable(list, InstallableField::Uri);
    proof {
        lemma_same_sort(
            all,
            |p: InstallableView| text_key(field_text(p, InstallableField::Uri)),
            |p: InstallableView| text_key(p.uri),
        );
        lemma_same_sort(
            installable_views(by_uri@),
            |p: InstallableView| text_key(field_text(p, InstallableField::Name)),
            |p: InstallableView| text_key(p.suggested_name),
        );
    }
    let by_name = sort_installable(by_uri, InstallableField::Name);
    proof {
        lemma_same_sort(
            installable_views(by_name@),
            |p: InstallableView| text_key(field_text(p, InstallableField::Kind)),
            |p: InstallableView| text_key(p.kind),
        );
    }
    sort_installable(by_name, InstallableField::Kind)
}

/// The devices that `lpinfo -v` names and no queue has, by kind, name and
/// address.
pub fn parse_installable_printers(output: &str, configured_devices: &Vec<(String, String)>) -> (r:
    Vec<InstallablePrinter>)
    ensures
        installable_views(r@) == installable_printers(output@, pair_views(configured_devices@)),
{
    let all = lines(output);
    let ghost text = views(all@);
    let ghost known = pair_views(configured_devices@);
    let mut found: Vec<InstallablePrinter> = Vec::new();
    let mut i: usize = 0;
    assert(installable_views(found@) =~= installable_lines(text.take(0), known));
    while i < all.len()
        invariant
            i <= all.len(),
            text == views(all@),
            known == pair_views(configured_devices@),
            installable_views(found@) == installable_lines(text.take(i as int), known),
        decreases all.len() - i,
    {
        proof {
            assert(text.take(i + 1).drop_last() =~= text.take(i as int));
            assert(text.take(i + 1).last() == all@[i as int]@);
        }
        if let Some(printer) = parse_installable_line(all[i].as_str(), configured_devices) {
            let ghost before = found@;
            assert(installable_views(before.push(printer)) =~= installable_views(before).push(
                printer@,
            ));
            found.push(printer);
        }
        i += 1;
    }
    assert(text.take(i as int) =~= text);
    let mut ordered = order_installable(found);
    let ghost wanted = installable_views(ordered@);
    let mut out: Vec<InstallablePrinter> = Vec::new();
    let ghost mut n: int = 0;
    assert(installable_views(out@) =~= without_repeated_uris(wanted.take(0)));
    assert(wanted.skip(0) =~= wanted);
    while ordered.len() > 0
        invariant
            0 <= n,
            n + ordered.len() == wanted.len(),
            installable_views(ordered@) == wanted.skip(n),
            installable_views(out@) == without_repeated_uris(wanted.take(n)),
        decreases ordered.len(),
    {
        let ghost left = ordered@;
        let printer = ordered.remove(0);
        proof {
            assert(installable_views(left)[0] == printer@);
            assert(wanted[n] == printer@);
            assert(wanted.take(n + 1).drop_last() =~= wanted.take(n));
            assert(wanted.take(n + 1).last() == printer@);
            assert(installable_views(ordered@) =~= installable_views(left).drop_first());
            assert(wanted.skip(n).drop_first() =~= wanted.skip(n + 1));
            n = n + 1;
        }
        let last: usize = out.len();
        let ghost before = out@;
        assert(installable_views(before).len() == before.len());
        if last > 0 && out[last - 1].uri == printer.uri {
            assert(installable_views(before).last() == before.last()@);
        } else {
            if last > 0 {
                assert(installable_views(before).last() == before.last()@);
            }
            assert(installable_views(before.push(printer)) =~= installable_views(before).push(
                printer@,
            ));
            out.push(printer);
        }
    }
    assert(wanted.take(n) =~= wanted);
    out
}

/// Every device in the list comes from a line, has an address that no queue
/// has, and a name that CUPS takes.
pub proof fn law_installable_printers(
    output: Seq<char>,
    devices: Seq<(Seq<char>, Seq<char>)>,
    i: int,
)
    requires
        0 <= i < installable_printers(output, devices).len(),
    ensures
        !is_configured(devices, installable_printers(output, devices)[i].uri),
        is_valid_name(installable_printers(output, devices)[i].suggested_name),
        installable_lines(lines_of(output), devices).contains(
            installable_printers(output, devices)[i],
        ),
{
    broadcast use vstd::seq_lib::group_to_multiset_ensures;

    let found = installable_lines(lines_of(output), devices);
    let by_uri = sorted_by(found, |p: InstallableView| text_key(p.uri));
    let by_name = sorted_by(by_uri, |p: InstallableView| text_key(p.suggested_name));
    let ordered = ordered_installable(found);
    lemma_sorted_by(found, |p: InstallableView| text_key(p.uri));
    lemma_sorted_by(by_uri, |p: InstallableView| text_key(p.suggested_name));
    lemma_sorted_by(by_name, |p: InstallableView| text_key(p.kind));
    let shown = installable_printers(output, devices);
    lemma_repeats_kept(ordered, i);
    assert(ordered.to_multiset().count(shown[i]) > 0);
    assert(found.to_multiset().count(shown[i]) > 0);
    assert(found.contains(shown[i]));
    lemma_installable_lines(lines_of(output), devices, shown[i]);
}

proof fn lemma_repeats_kept(list: Seq<InstallableView>, i: int)
    requires
        0 <= i < without_repeated_uris(list).len(),
    ensures
        list.contains(without_repeated_uris(list)[i]),
    decreases list.len(),
{
    let front = list.drop_last();
    let before = without_repeated_uris(front);
    let out = without_repeated_uris(list);
    if i < before.len() {
        lemma_repeats_kept(front, i);
        let k = choose|k: int| 0 <= k < front.len() && front[k] == before[i];
        assert(list[k] == out[i]);
    } else {
        assert(list[list.len() - 1] == out[i]);
    }
}

proof fn lemma_installable_lines(
    lines: Seq<Seq<char>>,
    devices: Seq<(Seq<char>, Seq<char>)>,
    p: InstallableView,
)
    requires
        installable_lines(lines, devices).contains(p),
    ensures
        !is_configured(devices, p.uri),
        is_valid_name(p.suggested_name),
    decreases lines.len(),
{
    let before = installable_lines(lines.drop_last(), devices);
    let out = installable_lines(lines, devices);
    let i = choose|i: int| 0 <= i < out.len() && out[i] == p;
    if i < before.len() {
        assert(before[i] == p);
        lemma_installable_lines(lines.drop_last(), devices, p);
    } else {
        assert(installable_of(lines.last(), devices) == Some(p));
        law_sanitized_is_valid(name_candidate(p.uri));
    }
}

// ---------------------------------------------------------------------------
// Installing
// ---------------------------------------------------------------------------

/// The command that installs a printer, or what is wrong with what was
/// entered.
pub open spec fn install_command(name: Seq<char>, uri: Seq<char>, model: Seq<char>) -> Result<
    CommandView,
    Seq<char>,
> {
    let driver = if trimmed(model).len() == 0 {
        "everywhere"@
    } else {
        trimmed(model)
    };
    if !is_valid_name(trimmed(name)) {
        Err("Printer name can only contain letters, numbers, dots, hyphens, and underscores"@)
    } else if trimmed(uri).len() == 0 {
        Err("Device URI is required"@)
    } else {
        Ok(
            command_of(
                "lpadmin"@,
                seq!["-p"@, trimmed(name), "-E"@, "-v"@, trimmed(uri), "-m"@, driver],
            ),
        )
    }
}

/// How long an installation may take, in seconds.
pub const INSTALL_TIMEOUT: u64 = 10;

/// The command that installs a printer; without a model it is set up as IPP
/// Everywhere.
pub fn install_printer(name: &str, uri: &str, model: &str) -> (r: Result<ControlCommand, String>)
    ensures
        match install_command(name@, uri@, model@) {
            Ok(c) => r is Ok && r->Ok_0@ == c,
            Err(message) => r is Err && r->Err_0@ == message,
        },
{
    let name = trim(name);
    let uri = trim(uri);
    let model = trim(model);
    let driver = if model.as_str().is_empty() {
        "everywhere".to_owned()
    } else {
        model
    };
    if !valid_printer_name(name.as_str()) {
        return Err(
            "Printer name can only contain letters, numbers, dots, hyphens, and underscores".to_owned(),
        );
    }
    if uri.as_str().is_empty() {
        return Err("Device URI is required".to_owned());
    }
    let r = command("lpadmin").arg("-p").arg(name.as_str()).arg("-E").arg("-v").arg(
        uri.as_str(),
    ).arg("-m").arg(driver.as_str());
    assert(r@.args =~= seq!["-p"@, name@, "-E"@, "-v"@, uri@, "-m"@, driver@]);
    Ok(r)
}

/// A listed device can be installed under the name that is suggested for it.
pub proof fn law_suggestions_install(uri: Seq<char>)
    requires
        trimmed(uri) == uri,
        uri.len() > 0,
    ensures
        install_command(sanitized(name_candidate(uri)), uri, "everywhere"@) is Ok,
{
    let name = sanitized(name_candidate(uri));
    law_sanitized_is_valid(name_candidate(uri));
    let sp = crate::text::spaces();
    assert(!is_space(name[0]));
    assert(!is_space(name.last()));
    crate::text::lemma_trim_front(name, sp, 0);
    assert(name.subrange(0, name.len() as int) =~= name);
    crate::text::lemma_trim_back(name, sp, name.len() as int);
}

// ---------------------------------------------------------------------------
// Asking CUPS
// ---------------------------------------------------------------------------

#[derive(Debug)]
pub struct PrinterSnapshot {
    pub scheduler_running: bool,
    pub printers: Vec<Printer>,
    pub installable_printers: Vec<InstallablePrinter>,
    pub error: Option<String>,
}

/// The value of a [`PrinterSnapshot`].
pub ghost struct PrinterSnapshotView {
    pub scheduler_running: bool,
    pub printers: Seq<PrinterView>,
    pub installable: Seq<InstallableView>,
    pub error: Option<Seq<char>>,
}

impl View for PrinterSnapshot {
    type V = PrinterSnapshotView;

    open spec fn view(&self) -> PrinterSnapshotView {
        PrinterSnapshotView {
            scheduler_running: self.scheduler_running,
            printers: printer_views(self.printers@),
            installable: installable_views(self.installable_printers@),
            error: opt_view(self.error),
        }
    }
}

/// What CUPS is asked, in this order.
#[derive(Debug, Clone, Copy, PartialEq, Eq, Structural)]
pub enum PrinterStep {
    Scheduler,
    Devices,
    Installable,
    Queues,
    Accepting,
    DefaultQueue,
}

/// What is known after the questions so far.
#[derive(Debug)]
pub struct PrinterLoad {
    pub step: PrinterStep,
    pub scheduler_running: bool,
    pub devices: Vec<(String, String)>,
    pub installable: Vec<InstallablePrinter>,
    pub printers: Vec<Printer>,
}

/// The value of a [`PrinterLoad`].
pub ghost struct PrinterLoadView {
    pub step: PrinterStep,
    pub scheduler_running: bool,
    pub devices: Seq<(Seq<char>, Seq<char>)>,
    pub installable: Seq<InstallableView>,
    pub printers: Seq<PrinterView>,
}

impl View for PrinterLoad {
    type V = PrinterLoadView;

    open spec fn view(&self) -> PrinterLoadView {
        PrinterLoadView {
            step: self.step,
            scheduler_running: self.scheduler_running,
            devices: pair_views(self.devices@),
            installable: installable_views(self.installable@),
            printers: printer_views(self.printers@),
        }
    }
}

/// What follows an answer.
#[derive(Debug)]
pub enum PrinterNext {
    Ask { load: PrinterLoad },
    Snapshot { snapshot: PrinterSnapshot },
}

/// The value of a [`PrinterNext`].
pub ghost enum PrinterNextView {
    Ask { load: PrinterLoadView },
    Snapshot { snapshot: PrinterSnapshotView },
}

impl View for PrinterNext {
    type V = PrinterNextView;

    open spec fn view(&self) -> PrinterNextView {
        match *self {
            PrinterNext::Ask { load } => PrinterNextView::Ask { load: load@ },
            PrinterNext::Snapshot { snapshot } => PrinterNextView::Snapshot {
                snapshot: snapshot@,
            },
        }
    }
}

/// What CUPS is asked next, and for how many seconds an answer is awaited.
pub open spec fn printer_question(step: PrinterStep) -> (CommandView, u64) {
    match step {
        PrinterStep::Scheduler => (command_of("lpstat"@, seq!["-r"@]), 2),
        PrinterStep::Devices => (command_of("lpstat"@, seq!["-v"@]), 2),
        PrinterStep::Installable => (command_of("lpinfo"@, seq!["-v"@]), 8),
        PrinterStep::Queues => (command_of("lpstat"@, seq!["-p"@]), 2),
        PrinterStep::Accepting => (command_of("lpstat"@, seq!["-a"@]), 2),
        PrinterStep::DefaultQueue => (command_of("lpstat"@, seq!["-d"@]), 2),
    }
}

/// The output of an answer, or nothing.
pub open spec fn output_or_nothing(answer: Result<Seq<char>, Seq<char>>) -> Seq<char> {
    match answer {
        Ok(output) => output,
        Err(_) => Seq::empty(),
    }
}

/// The snapshot of what is known, with an error.
pub open spec fn snapshot_of(l: PrinterLoadView, error: Option<Seq<char>>) -> PrinterSnapshotView {
    PrinterSnapshotView {
        scheduler_running: l.scheduler_running,
        printers: l.printers,
        installable: l.installable,
        error,
    }
}

/// What follows an answer. Without the scheduler or the queues there is an
/// error; the other answers only add to what is known.
pub open spec fn printer_answer(
    l: PrinterLoadView,
    answer: Result<Seq<char>, Seq<char>>,
) -> PrinterNextView {
    match l.step {
        PrinterStep::Scheduler => match answer {
            Ok(output) => PrinterNextView::Ask {
                load: PrinterLoadView {
                    step: PrinterStep::Devices,
                    scheduler_running: occurs(output, "scheduler is running"@),
                    ..l
                },
            },
            Err(error) => PrinterNextView::Snapshot {
                snapshot: PrinterSnapshotView {
                    scheduler_running: false,
                    printers: Seq::empty(),
                    installable: Seq::empty(),
                    error: Some(error),
                },
            },
        },
        PrinterStep::Devices => PrinterNextView::Ask {
            load: PrinterLoadView {
                step: PrinterStep::Installable,
                devices: device_lines(lines_of(output_or_nothing(answer))),
                ..l
            },
        },
        PrinterStep::Installable => PrinterNextView::Ask {
            load: PrinterLoadView {
                step: PrinterStep::Queues,
                installable: match answer {
                    Ok(output) => installable_printers(output, l.devices),
                    Err(_) => Seq::empty(),
                },
                ..l
            },
        },
        PrinterStep::Queues => match answer {
            Ok(output) => PrinterNextView::Ask {
                load: PrinterLoadView {
                    step: PrinterStep::Accepting,
                    printers: printer_lines(lines_of(output), l.devices),
                    ..l
                },
            },
            Err(error) => PrinterNextView::Snapshot {
                snapshot: PrinterSnapshotView {
                    printers: Seq::empty(),
                    ..snapshot_of(l, Some(error))
                },
            },
        },
        PrinterStep::Accepting => PrinterNextView::Ask {
            load: PrinterLoadView {
                step: PrinterStep::DefaultQueue,
                printers: match answer {
                    Ok(output) => accepting_lines(l.printers, lines_of(output)),
                    Err(_) => l.printers,
                },
                ..l
            },
        },
        PrinterStep::DefaultQueue => {
            let marked = match answer {
                Ok(output) => match default_printer(output) {
                    Some(name) => with_default(l.printers, name),
                    None => l.printers,
                },
                Err(_) => l.printers,
            };
            PrinterNextView::Snapshot {
                snapshot: PrinterSnapshotView {
                    printers: ordered_printers(marked),
                    ..snapshot_of(l, None)
                },
            }
        },
    }
}

/// The questions start with the scheduler.
pub fn load_printer_snapshot() -> (r: PrinterLoad)
    ensures
        r@ == (PrinterLoadView {
            step: PrinterStep::Scheduler,
            scheduler_running: false,
            devices: Seq::empty(),
            installable: Seq::empty(),
            printers: Seq::empty(),
        }),
{
    let r = PrinterLoad {
        step: PrinterStep::Scheduler,
        scheduler_running: false,
        devices: Vec::new(),
        installable: Vec::new(),
        printers: Vec::new(),
    };
    assert(r@.devices =~= Seq::<(Seq<char>, Seq<char>)>::empty());
    assert(r@.installable =~= Seq::<InstallableView>::empty());
    assert(r@.printers =~= Seq::<PrinterView>::empty());
    r
}

impl PrinterLoad {
    /// What to ask next, and for how many seconds to await the answer.
    pub fn question(&self) -> (r: (ControlCommand, u64))
        ensures
            (r.0@, r.1) == printer_question(self.step),
    {
        let (program, flag, seconds) = match self.step {
            PrinterStep::Scheduler => ("lpstat", "-r", 2u64),
            PrinterStep::Devices => ("lpstat", "-v", 2u64),
            PrinterStep::Installable => ("lpinfo", "-v", 8u64),
            PrinterStep::Queues => ("lpstat", "-p", 2u64),
            PrinterStep::Accepting => ("lpstat", "-a", 2u64),
            PrinterStep::DefaultQueue => ("lpstat", "-d", 2u64),
        };
        let c = command(program).arg(flag);
        assert(c@.args =~= seq![flag@]);
        (c, seconds)
    }

    /// Takes the answer.
    pub fn answer(self, answer: Result<String, String>) -> (r: PrinterNext)
        ensures
            r@ == printer_answer(self@, result_view(answer)),
    {
        match self.step {
            PrinterStep::Scheduler => self.scheduler_answer(answer),
            PrinterStep::Devices => {
                let output = match answer {
                    Ok(output) => output,
                    Err(_) => String::new(),
                };
                let devices = parse_printer_devices(output.as_str());
                PrinterNext::Ask {
                    load: PrinterLoad { step: PrinterStep::Installable, devices, ..self },
                }
            },
            PrinterStep::Installable => {
                let installable = match answer {
                    Ok(output) => parse_installable_printers(output.as_str(), &self.devices),
                    Err(_) => no_installable(),
                };
                PrinterNext::Ask {
                    load: PrinterLoad { step: PrinterStep::Queues, installable, ..self },
                }
            },
            PrinterStep::Queues => self.queues_answer(answer),
            PrinterStep::Accepting => {
                let mut printers = self.printers;
                if let Ok(output) = answer {
                    apply_accepting_jobs(&mut printers, output.as_str());
                }
                PrinterNext::Ask {
                    load: PrinterLoad { step: PrinterStep::DefaultQueue, printers, ..self },
                }
            },
            PrinterStep::DefaultQueue => {
                let mut printers = self.printers;
                if let Ok(output) = answer {
                    if let Some(name) = parse_default_printer(output.as_str()) {
                        mark_default(&mut printers, &name);
                    }
                }
                PrinterNext::Snapshot {
                    snapshot: PrinterSnapshot {
                        scheduler_running: self.scheduler_running,
                        printers: sort_printers(printers),
                        installable_printers: self.installable,
                        error: None,
                    },
                }
            },
        }
    }

    fn scheduler_answer(self, answer: Result<String, String>) -> (r: PrinterNext)
        requires
            self.step == PrinterStep::Scheduler,
        ensures
            r@ == printer_answer(self@, result_view(answer)),
    {
        match answer {
            Ok(output) => {
                let scheduler_running = contains(output.as_str(), "scheduler is running");
                PrinterNext::Ask {
                    load: PrinterLoad { step: PrinterStep::Devices, scheduler_running, ..self },
                }
            },
            Err(error) => PrinterNext::Snapshot {
                snapshot: PrinterSnapshot {
                    scheduler_running: false,
                    printers: no_printers(),
                    installable_printers: no_installable(),
                    error: Some(error),
                },
            },
        }
    }

    fn queues_answer(self, answer: Result<String, String>) -> (r: PrinterNext)
        requires
            self.step == PrinterStep::Queues,
        ensures
            r@ == printer_answer(self@, result_view(answer)),
    {
        match answer {
            Ok(output) => {
                let printers = parse_printer_states(output.as_str(), &self.devices);
                PrinterNext::Ask {
                    load: PrinterLoad { step: PrinterStep::Accepting, printers, ..self },
                }
            },
            Err(error) => PrinterNext::Snapshot {
                snapshot: PrinterSnapshot {
                    scheduler_running: self.scheduler_running,
                    printers: no_printers(),
                    installable_printers: self.installable,
                    error: Some(error),
                },
            },
        }
    }
}

fn no_printers() -> (r: Vec<Printer>)
    ensures
        printer_views(r@) == Seq::<PrinterView>::empty(),
{
    let r: Vec<Printer> = Vec::new();
    assert(printer_views(r@) =~= Seq::<PrinterView>::empty());
    r
}

fn no_installable() -> (r: Vec<InstallablePrinter>)
    ensures
        installable_views(r@) == Seq::<InstallableView>::empty(),
{
    let r: Vec<InstallablePrinter> = Vec::new();
    assert(installable_views(r@) =~= Seq::<InstallableView>::empty());
    r
}

// ---------------------------------------------------------------------------
// The lists
// ---------------------------------------------------------------------------

/// A queue in words.
pub open spec fn printer_text(p: PrinterView) -> Seq<char> {
    (if p.enabled {
        "Enabled"@
    } else {
        "Disabled"@
    }) + " | "@ + (if p.accepting_jobs {
        "Accepting jobs"@
    } else {
        "Rejecting jobs"@
    }) + " | "@ + p.state + (match p.device_uri {
        Some(uri) => if uri.len() > 0 {
            " | "@ + uri
        } else {
            Seq::empty()
        },
        None => Seq::empty(),
    }) + (if p.is_default {
        " | Default"@
    } else {
        ""@
    })
}

/// A queue in words.
pub fn printer_status_text(printer: &Printer) -> (r: String)
    ensures
        r@ == printer_text(printer@),
{
    let mut out = if printer.enabled {
        "Enabled".to_owned()
    } else {
        "Disabled".to_owned()
    };
    out.append(" | ");
    out.append(
        if printer.accepting_jobs {
            "Accepting jobs"
        } else {
            "Rejecting jobs"
        },
    );
    out.append(" | ");
    out.append(printer.state.as_str());
    let ghost start = out@;
    if let Some(uri) = &printer.device_uri {
        if !uri.as_str().is_empty() {
            out.append(" | ");
            out.append(uri.as_str());
            assert(out@ =~= start + (" | "@ + uri@));
        } else {
            assert(out@ =~= start + Seq::<char>::empty());
        }
    } else {
        assert(out@ =~= start + Seq::<char>::empty());
    }
    out.append(
        if printer.is_default {
            " | Default"
        } else {
            ""
        },
    );
    out
}

/// The line above the queues.
pub fn printers_status(snapshot: &PrinterSnapshot) -> (r: String)
    ensures
        r@ == match snapshot@.error {
            Some(error) => error,
            None => if !snapshot.scheduler_running {
                "CUPS scheduler is not running"@
            } else if snapshot@.printers.len() == 0 {
                "CUPS is running, but no printers are configured"@
            } else {
                "Printers are managed by CUPS"@
            },
        },
{
    assert(snapshot@.printers.len() == snapshot.printers.len());
    match &snapshot.error {
        Some(error) => error.clone(),
        None => if !snapshot.scheduler_running {
            "CUPS scheduler is not running".to_owned()
        } else if snapshot.printers.len() == 0 {
            "CUPS is running, but no printers are configured".to_owned()
        } else {
            "Printers are managed by CUPS".to_owned()
        },
    }
}

/// What the buttons of a queue do.
#[derive(Debug, Clone, Copy, PartialEq, Eq, Structural)]
pub enum PrinterButton {
    SetDefault,
    /// Enables a disabled queue and disables an enabled one.
    Toggle,
    /// Accepts jobs, or rejects them.
    Queue,
}

/// The program that a button of a queue calls.
pub open spec fn button_program(p: PrinterView, button: PrinterButton) -> Seq<char> {
    match button {
        PrinterButton::SetDefault => "lpadmin"@,
        PrinterButton::Toggle => if p.enabled {
            "cupsdisable"@
        } else {
            "cupsenable"@
        },
        PrinterButton::Queue => if p.accepting_jobs {
            "cupsreject"@
        } else {
            "cupsaccept"@
        },
    }
}

/// The command of a button of a queue.
pub open spec fn button_command(p: PrinterView, button: PrinterButton) -> CommandView {
    command_of(
        button_program(p, button),
        match button {
            PrinterButton::SetDefault => seq!["-d"@, p.name],
            _ => seq![p.name],
        },
    )
}

fn program_of(printer: &Printer, button: PrinterButton) -> (r: &'static str)
    ensures
        r@ == button_program(printer@, button),
{
    match button {
        PrinterButton::SetDefault => "lpadmin",
        PrinterButton::Toggle => if printer.enabled {
            "cupsdisable"
        } else {
            "cupsenable"
        },
        PrinterButton::Queue => if printer.accepting_jobs {
            "cupsreject"
        } else {
            "cupsaccept"
        },
    }
}

/// The command of a button of a queue.
pub fn printer_command(printer: &Printer, button: PrinterButton) -> (r: ControlCommand)
    ensures
        r@ == button_command(printer@, button),
{
    let c = command(program_of(printer, button));
    let r = match button {
        PrinterButton::SetDefault => c.arg("-d").arg(printer.name.as_str()),
        _ => c.arg(printer.name.as_str()),
    };
    assert(r@.args =~= button_command(printer@, button).args);
    r
}

/// What is said after that command.
pub fn printer_message(
    printer: &Printer,
    button: PrinterButton,
    result: &Result<String, String>,
) -> (r: String)
    ensures
        r@ == outcome_text(
            result_view(*result),
            match button {
                PrinterButton::SetDefault => printer@.name + " set as default printer"@,
                _ => button_program(printer@, button) + " sent to "@ + printer@.name,
            },
        ),
{
    let done = match button {
        PrinterButton::SetDefault => printer.name.clone().concat(" set as default printer"),
        _ => program_of(printer, button).to_owned().concat(" sent to ").concat(
            printer.name.as_str(),
        ),
    };
    outcome_message(result, done.as_str())
}

/// What is said after a printer was installed under a name that was entered.
pub fn entered_install_message(name: &str, result: &Result<String, String>) -> (r: String)
    ensures
        r@ == outcome_text(result_view(*result), trimmed(name@) + " installed"@),
{
    outcome_message(result, trim(name).concat(" installed").as_str())
}

/// What is said after a listed device was installed.
pub fn install_message(name: &str, result: &Result<String, String>) -> (r: String)
    ensures
        r@ == outcome_text(result_view(*result), name@ + " installed with IPP Everywhere"@),
{
    outcome_message(result, name.to_owned().concat(" installed with IPP Everywhere").as_str())
}

/// A row of the list of printers.
#[derive(Debug)]
pub struct PrinterRow {
    pub title: String,
    pub subtitle: String,
    /// The words on its buttons; a row without them only says something.
    pub set_default: Option<&'static str>,
    pub toggle: Option<&'static str>,
    pub queue: Option<&'static str>,
}

pub open spec fn word_is(word: Option<&'static str>, text: Seq<char>) -> bool {
    word is Some && word->Some_0@ == text
}

/// The row of a printer: the default printer cannot be made the default, and
/// the other two buttons say what they would change.
pub open spec fn shows_printer(r: PrinterRow, p: Printer) -> bool {
    &&& r.title@ == p@.name
    &&& r.subtitle@ == printer_text(p@)
    &&& if p.is_default {
        r.set_default is None
    } else {
        word_is(r.set_default, "Set Default"@)
    }
    &&& word_is(
        r.toggle,
        if p.enabled {
            "Disable"@
        } else {
            "Enable"@
        },
    )
    &&& word_is(
        r.queue,
        if p.accepting_jobs {
            "Reject Jobs"@
        } else {
            "Accept Jobs"@
        },
    )
}

/// A row that only says something.
pub open spec fn is_remark(r: PrinterRow, title: Seq<char>, subtitle: Seq<char>) -> bool {
    &&& r.title@ == title
    &&& r.subtitle@ == subtitle
    &&& r.set_default is None
    &&& r.toggle is None
    &&& r.queue is None
}

fn remark(title: &str, subtitle: &str) -> (r: PrinterRow)
    ensures
        is_remark(r, title@, subtitle@),
{
    PrinterRow {
        title: title.to_owned(),
        subtitle: subtitle.to_owned(),
        set_default: None,
        toggle: None,
        queue: None,
    }
}

/// The rows of the printers, or one that says that there are none.
pub fn refresh_printer_list(snapshot: &PrinterSnapshot) -> (r: Vec<PrinterRow>)
    ensures
        if snapshot.printers@.len() == 0 {
            r.len() == 1 && is_remark(
                r[0],
                "No Printers Found"@,
                "No CUPS printer queues are configured"@,
            )
        } else {
            &&& r.len() == snapshot.printers.len()
            &&& forall|i: int|
                0 <= i < r.len() ==> shows_printer(#[trigger] r[i], snapshot.printers@[i])
        },
{
    let mut out: Vec<PrinterRow> = Vec::new();
    if snapshot.printers.len() == 0 {
        out.push(remark("No Printers Found", "No CUPS printer queues are configured"));
        return out;
    }
    let mut i: usize = 0;
    while i < snapshot.printers.len()
        invariant
            i <= snapshot.printers.len(),
            out.len() == i,
            forall|k: int|
                0 <= k < i ==> shows_printer(#[trigger] out[k], snapshot.printers@[k]),
        decreases snapshot.printers.len() - i,
    {
        let printer = &snapshot.printers[i];
        out.push(
            PrinterRow {
                title: printer.name.clone(),
                subtitle: printer_status_text(printer),
                set_default: if printer.is_default {
                    None
                } else {
                    Some("Set Default")
                },
                toggle: Some(
                    if printer.enabled {
                        "Disable"
                    } else {
                        "Enable"
                    },
                ),
                queue: Some(
                    if printer.accepting_jobs {
                        "Reject Jobs"
                    } else {
                        "Accept Jobs"
                    },
                ),
            },
        );
        i += 1;
    }
    out
}

/// The rows of the printers that can be installed: name, and kind with
/// address; or one that says that there are none.
pub fn refresh_installable_printer_list(snapshot: &PrinterSnapshot) -> (r: Vec<(String, String)>)
    ensures
        if snapshot.installable_printers@.len() == 0 {
            &&& r.len() == 1
            &&& r[0].0@ == "No Installable Printers Found"@
            &&& r[0].1@ == "CUPS did not report any available printer devices"@
        } else {
            &&& r.len() == snapshot.installable_printers.len()
            &&& forall|i: int|
                0 <= i < r.len() ==> {
                    let p = snapshot.installable_printers@[i];
                    (#[trigger] r[i]).0@ == p.suggested_name@ && r[i].1@ == p.kind@ + " | "@
                        + p.uri@
                }
        },
{
    let mut out: Vec<(String, String)> = Vec::new();
    let list = &snapshot.installable_printers;
    if list.len() == 0 {
        out.push(
            (
                "No Installable Printers Found".to_owned(),
                "CUPS did not report any available printer devices".to_owned(),
            ),
        );
        return out;
    }
    let mut i: usize = 0;
    while i < list.len()
        invariant
            i <= list.len(),
            out.len() == i,
            forall|k: int|
                0 <= k < i ==> {
                    let p = list@[k];
                    (#[trigger] out[k]).0@ == p.suggested_name@ && out[k].1@ == p.kind@ + " | "@
                        + p.uri@
                },
        decreases list.len() - i,
    {
        let p = &list[i];
        out.push(
            (p.suggested_name.clone(), p.kind.clone().concat(" | ").concat(p.uri.as_str())),
        );
        i += 1;
    }
    out
}

/// What is installed is what was entered: behind `-p` stands the name, behind
/// `-v` the address, and behind `-m` the model, or IPP Everywhere where none was
/// entered, each whatever the others are. It is refused exactly where the name or
/// the address cannot be used.
pub proof fn law_install_command(name: Seq<char>, uri: Seq<char>, model: Seq<char>)
    ensures
        install_command(name, uri, model) is Ok <==> is_valid_name(trimmed(name)) && trimmed(
            uri,
        ).len() > 0,
        install_command(name, uri, model) is Ok ==> {
            let c = install_command(name, uri, model)->Ok_0;
            &&& c.program == "lpadmin"@ && c.args.len() == 7
            &&& c.args[0] == "-p"@ && c.args[1] == trimmed(name)
            &&& c.args[2] == "-E"@
            &&& c.args[3] == "-v"@ && c.args[4] == trimmed(uri)
            &&& c.args[5] == "-m"@ && (trimmed(model).len() > 0 ==> c.args[6] == trimmed(model))
            &&& trimmed(model).len() == 0 ==> c.args[6] == "everywhere"@
        },
{
}

/// A button acts on the printer of its row, and does what that printer is not:
/// it stops one that runs and starts one that does not, and so with its jobs.
pub proof fn law_printer_buttons(p: PrinterView, button: PrinterButton)
    ensures
        button_command(p, button).args.last() == p.name,
        button_command(p, button).args.len() == if button == PrinterButton::SetDefault {
            2nat
        } else {
            1
        },
        button_command(p, PrinterButton::SetDefault).program == "lpadmin"@,
        button_command(p, PrinterButton::SetDefault).args[0] == "-d"@,
        p.enabled ==> button_command(p, PrinterButton::Toggle).program == "cupsdisable"@,
        !p.enabled ==> button_command(p, PrinterButton::Toggle).program == "cupsenable"@,
        p.accepting_jobs ==> button_command(p, PrinterButton::Queue).program == "cupsreject"@,
        !p.accepting_jobs ==> button_command(p, PrinterButton::Queue).program == "cupsaccept"@,
{
}

/// The default queue that `lpstat` names is read back, and marks the printers of
/// that name and no others.
pub proof fn law_default_printer(name: Seq<char>, printers: Seq<PrinterView>, i: int)
    requires
        is_bare(name),
        0 <= i < printers.len(),
    ensures
        default_printer("system default destination:"@ + (" "@ + name)) == Some(name),
        with_default(printers, name).len() == printers.len(),
        with_default(printers, name)[i].is_default <==> printers[i].name == name,
        with_default(printers, name)[i].name == printers[i].name,
        with_default(printers, name)[i].enabled == printers[i].enabled,
        with_default(printers, name)[i].accepting_jobs == printers[i].accepting_jobs,
{
    lemma_after_prefix("system default destination:"@, " "@ + name);
    lemma_bare(name);
}

/// Whether printers are shown first as the default one is: the default printer
/// leads the list.
pub proof fn law_default_leads(printers: Seq<PrinterView>, i: int)
    requires
        0 <= i < printers.len(),
        printers[i].is_default,
    ensures
        ordered_printers(printers).len() == printers.len(),
        ordered_printers(printers)[0].is_default,
{
    broadcast use vstd::seq_lib::group_to_multiset_ensures;

    let list = ordered_printers(printers);
    lemma_sorted_by(printers, |p: PrinterView| printer_key(p));
    assert(printers.to_multiset().contains(printers[i]));
    assert(list.contains(printers[i]));
    let k = choose|k: int| 0 <= k < list.len() && list[k] == printers[i];
    if k > 0 {
        law_printers_are_ordered(printers, 0, k);
    }
}

proof fn lemma_cut_first(a: Seq<char>, d: char, b: Seq<char>)
    requires
        !a.contains(d),
    ensures
        cut(a.push(d) + b, d) == Some((a, b)),
{
    let s = a.push(d) + b;
    assert(s[a.len() as int] == d);
    law_cut(s, d);
    let (x, y) = cut(s, d)->Some_0;
    let t = x.push(d) + y;
    assert(t == s);
    if x.len() < a.len() {
        assert(t[x.len() as int] == d);
        assert(a[x.len() as int] == d);
    } else if x.len() > a.len() {
        assert(t[a.len() as int] == x[a.len() as int]);
        assert(x[a.len() as int] == d);
    }
    assert(x =~= a) by {
        assert forall|k: int| 0 <= k < a.len() implies x[k] == a[k] by {
            assert(t[k] == x[k]);
            assert(s[k] == a[k]);
        }
    }
    assert(y =~= b) by {
        assert forall|k: int| 0 <= k < b.len() implies y[k] == b[k] by {
            assert(t[a.len() + 1 + k] == y[k]);
            assert(s[a.len() + 1 + k] == b[k]);
        }
    }
}

/// The address that `lpstat` gives of a queue is read back under its name, and
/// the addresses of other queues stay as they were.
pub proof fn law_device_line(
    lines: Seq<Seq<char>>,
    name: Seq<char>,
    uri: Seq<char>,
    other: Seq<char>,
)
    requires
        is_bare(name),
        is_bare(uri),
        !name.contains(':'),
    ensures
        ({
            let line = "device for "@ + (name.push(':') + (" "@ + uri));
            let after = device_lines(lines.push(line));
            &&& lookup(after, name) == Some(uri)
            &&& other != name ==> lookup(after, other) == lookup(device_lines(lines), other)
        }),
{
    let rest = name.push(':') + (" "@ + uri);
    let line = "device for "@ + rest;
    lemma_after_prefix("device for "@, rest);
    lemma_cut_first(name, ':', " "@ + uri);
    lemma_bare(name);
    lemma_bare(uri);
    assert(lines.push(line).drop_last() =~= lines);
    law_with_pair(device_lines(lines), name, uri, other);
    law_with_pair(device_lines(lines), name, uri, name);
}

/// A line about a queue is about that queue: it sets whether its printer takes
/// jobs, and leaves the other printers, and everything else, alone.
pub proof fn law_accepting_line(printers: Seq<PrinterView>, line: Seq<char>, i: int)
    requires
        0 <= i < printers.len(),
        forall|j: int| 0 <= j < i ==> (#[trigger] printers[j]).name != printers[i].name,
    ensures
        ({
            let after = with_accepting_line(printers, line);
            &&& after.len() == printers.len()
            &&& printer_named(line) == Some(printers[i].name) ==> after[i].accepting_jobs
                == occurs(trimmed(line), " accepting requests "@)
            &&& printer_named(line) != Some(printers[i].name) ==> after[i] == printers[i]
            &&& after[i].name == printers[i].name && after[i].enabled == printers[i].enabled
                && after[i].is_default == printers[i].is_default && after[i].device_uri
                == printers[i].device_uri && after[i].state == printers[i].state
        }),
{
    if printer_named(line) is Some {
        let name = printer_named(line)->Some_0;
        lemma_printer_slot_bounds(printers, name);
        if name == printers[i].name {
            lemma_printer_slot_at(printers, name, i);
        }
    }
}

proof fn lemma_printer_slot_bounds(printers: Seq<PrinterView>, name: Seq<char>)
    ensures
        0 <= printer_slot(printers, name) <= printers.len(),
        printer_slot(printers, name) < printers.len() ==> printers[printer_slot(
            printers,
            name,
        )].name == name,
    decreases printers.len(),
{
    if printers.len() > 0 && printers[0].name != name {
        lemma_printer_slot_bounds(printers.drop_first(), name);
    }
}

proof fn lemma_printer_slot_at(printers: Seq<PrinterView>, name: Seq<char>, i: int)
    requires
        0 <= i < printers.len(),
        printers[i].name == name,
        forall|j: int| 0 <= j < i ==> (#[trigger] printers[j]).name != name,
    ensures
        printer_slot(printers, name) == i,
    decreases i,
{
    if i > 0 {
        assert(printers[0].name != name);
        let rest = printers.drop_first();
        assert forall|j: int| 0 <= j < i - 1 implies (#[trigger] rest[j]).name != name by {
            assert(rest[j] == printers[j + 1]);
        }
        lemma_printer_slot_at(rest, name, i - 1);
    }
}

/// Each line that names a printer adds it, behind those before it and with the
/// address of its own queue; a line that names none adds nothing.
pub proof fn law_printer_lines(
    lines: Seq<Seq<char>>,
    line: Seq<char>,
    devices: Seq<(Seq<char>, Seq<char>)>,
)
    ensures
        ({
            let before = printer_lines(lines, devices);
            let after = printer_lines(lines.push(line), devices);
            &&& printer_named(line) is None ==> after == before
            &&& printer_named(line) is Some ==> {
                let p = after.last();
                &&& after.len() == before.len() + 1 && after.drop_last() == before
                &&& p.name == printer_named(line)->Some_0
                &&& p.device_uri == lookup(devices, p.name)
                &&& p.enabled <==> !occurs(trimmed(line), " disabled "@)
                &&& p.accepting_jobs && !p.is_default
            }
        }),
{
    assert(lines.push(line).drop_last() =~= lines);
    let before = printer_lines(lines, devices);
    if printer_of(line, devices) is Some {
        let p = printer_of(line, devices)->Some_0;
        assert(before.push(p).drop_last() =~= before);
    }
}

/// The search for printers asks one question after the other and ends: where
/// the spooler answers and lists its queues it has no error, and shows every
/// queue that was listed; where the spooler does not answer, it shows its error.
pub proof fn law_printer_search(
    l: PrinterLoadView,
    scheduler: Seq<char>,
    devices: Result<Seq<char>, Seq<char>>,
    found: Result<Seq<char>, Seq<char>>,
    queues: Seq<char>,
    accepting: Result<Seq<char>, Seq<char>>,
    default_queue: Result<Seq<char>, Seq<char>>,
    error: Seq<char>,
)
    requires
        l.step == PrinterStep::Scheduler,
    ensures
        ({
            let a = printer_answer(l, Ok(scheduler))->load;
            let b = printer_answer(a, devices)->load;
            let c = printer_answer(b, found)->load;
            let d = printer_answer(c, Ok(queues))->load;
            let e = printer_answer(d, accepting)->load;
            let end = printer_answer(e, default_queue);
            &&& a.step == PrinterStep::Devices && b.step == PrinterStep::Installable && c.step
                == PrinterStep::Queues && d.step == PrinterStep::Accepting && e.step
                == PrinterStep::DefaultQueue
            &&& end is Snapshot && end->snapshot.error is None
            &&& end->snapshot.scheduler_running == occurs(scheduler, "scheduler is running"@)
            &&& end->snapshot.printers.len() == printer_lines(lines_of(queues), b.devices).len()
            &&& devices is Ok ==> b.devices == device_lines(lines_of(devices->Ok_0))
            &&& found is Ok ==> end->snapshot.installable == installable_printers(
                found->Ok_0,
                b.devices,
            )
            &&& printer_answer(c, Err(error)) is Snapshot && printer_answer(
                c,
                Err(error),
            )->snapshot.error == Some(error) && printer_answer(c, Err(error))->snapshot.installable
                == c.installable
        }),
        printer_answer(l, Err(error)) is Snapshot,
        printer_answer(l, Err(error))->snapshot.error == Some(error),
        !printer_answer(l, Err(error))->snapshot.scheduler_running,
{
    let a = printer_answer(l, Ok(scheduler))->load;
    let b = printer_answer(a, devices)->load;
    let c = printer_answer(b, found)->load;
    let d = printer_answer(c, Ok(queues))->load;
    let e = printer_answer(d, accepting)->load;
    if accepting is Ok {
        lemma_accepting_len(d.printers, lines_of(accepting->Ok_0));
    }
    lemma_sorted_by(e.printers, |p: PrinterView| printer_key(p));
    if default_queue is Ok && default_printer(default_queue->Ok_0) is Some {
        let marked = with_default(e.printers, default_printer(default_queue->Ok_0)->Some_0);
        lemma_sorted_by(marked, |p: PrinterView| printer_key(p));
    }
}

proof fn lemma_accepting_len(printers: Seq<PrinterView>, lines: Seq<Seq<char>>)
    ensures
        accepting_lines(printers, lines).len() == printers.len(),
    decreases lines.len(),
{
    if lines.len() > 0 {
        let before = accepting_lines(printers, lines.drop_last());
        lemma_accepting_len(printers, lines.drop_last());
        if printer_named(lines.last()) is Some {
            lemma_printer_slot_bounds(before, printer_named(lines.last())->Some_0);
        }
    }
}

/// Each question of the search has a command of its own.
pub proof fn law_printer_questions(step: PrinterStep)
    ensures
        ({
            let (c, seconds) = printer_question(step);
            &&& c.args.len() == 1
            &&& c.program == if step == PrinterStep::Installable {
                "lpinfo"@
            } else {
                "lpstat"@
            }
            &&& c.args[0] == match step {
                PrinterStep::Scheduler => "-r"@,
                PrinterStep::Devices => "-v"@,
                PrinterStep::Installable => "-v"@,
                PrinterStep::Queues => "-p"@,
                PrinterStep::Accepting => "-a"@,
                PrinterStep::DefaultQueue => "-d"@,
            }
            &&& 2 <= seconds <= 8
        }),
{
}

/// Every device that is not set up yet is offered: some entry has its address.
pub proof fn law_devices_are_offered(
    output: Seq<char>,
    devices: Seq<(Seq<char>, Seq<char>)>,
    i: int,
) -> (k: int)
    requires
        0 <= i < installable_lines(lines_of(output), devices).len(),
    ensures
        0 <= k < installable_printers(output, devices).len(),
        installable_printers(output, devices)[k].uri == installable_lines(
            lines_of(output),
            devices,
        )[i].uri,
{
    broadcast use vstd::seq_lib::group_to_multiset_ensures;

    let list = installable_lines(lines_of(output), devices);
    let by_uri = sorted_by(list, |p: InstallableView| text_key(p.uri));
    let by_name = sorted_by(by_uri, |p: InstallableView| text_key(p.suggested_name));
    let all = ordered_installable(list);
    lemma_sorted_by(list, |p: InstallableView| text_key(p.uri));
    lemma_sorted_by(by_uri, |p: InstallableView| text_key(p.suggested_name));
    lemma_sorted_by(by_name, |p: InstallableView| text_key(p.kind));
    assert(list.to_multiset().contains(list[i]));
    assert(all.to_multiset().contains(list[i]));
    assert(all.contains(list[i]));
    let j = choose|j: int| 0 <= j < all.len() && all[j] == list[i];
    lemma_uris_stay(all, j)
}

proof fn lemma_uris_stay(list: Seq<InstallableView>, j: int) -> (k: int)
    requires
        0 <= j < list.len(),
    ensures
        0 <= k < without_repeated_uris(list).len(),
        without_repeated_uris(list)[k].uri == list[j].uri,
    decreases list.len(),
{
    let front = list.drop_last();
    let before = without_repeated_uris(front);
    if j < front.len() {
        lemma_uris_stay(front, j)
    } else if before.len() > 0 && before.last().uri == list.last().uri {
        before.len() - 1
    } else {
        before.len() as int
    }
}

/// A line of `lpinfo` is offered as it stands, its kind and its address, unless
/// a queue has that address already.
pub proof fn law_installable_line(
    kind: Seq<char>,
    uri: Seq<char>,
    devices: Seq<(Seq<char>, Seq<char>)>,
)
    requires
        is_bare(kind),
        is_bare(uri),
        !kind.contains(' '),
    ensures
        ({
            let p = installable_of(kind.push(' ') + uri, devices);
            &&& p is None <==> is_configured(devices, uri)
            &&& p is Some ==> p->Some_0.kind == kind && p->Some_0.uri == uri
        }),
{
    let line = kind.push(' ') + uri;
    assert(line[0] == kind[0]);
    assert(line.last() == uri.last());
    lemma_bare(line);
    lemma_bare(kind);
    lemma_bare(uri);
    lemma_cut_first(kind, ' ', uri);
}

/// A name that holds only letters and digits is kept as it is.
pub proof fn law_plain_names_stay(name: Seq<char>)
    requires
        name.len() > 0,
        forall|i: int| 0 <= i < name.len() ==> is_alnum(#[trigger] name[i]),
    ensures
        sanitized(name) == name,
{
    lemma_plain_chars(name);
    let set = any_of("_-."@);
    reveal_strlit("_-.");
    assert(is_alnum(name[0]) && is_alnum(name[name.len() - 1]));
    crate::text::lemma_trim_front(name, set, 0);
    assert(name.subrange(0, name.len() as int) =~= name);
    crate::text::lemma_trim_back(name, set, name.len() as int);
}

proof fn lemma_plain_chars(name: Seq<char>)
    requires
        forall|i: int| 0 <= i < name.len() ==> is_alnum(#[trigger] name[i]),
    ensures
        name_chars(name) == name,
    decreases name.len(),
{
    if name.len() > 0 {
        let front = name.drop_last();
        assert forall|i: int| 0 <= i < front.len() implies is_alnum(#[trigger] front[i]) by {
            assert(front[i] == name[i]);
        }
        lemma_plain_chars(front);
        assert(is_alnum(name[name.len() - 1]));
        assert(!is_separator(name.last()));
        assert(front.push(name.last()) =~= name);
    } else {
        assert(name_chars(name) =~= name);
    }
}

} // verus!
