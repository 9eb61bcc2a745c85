//! Saved decisions on which application may learn the location.

use crate::order::{
    items, key_before, lemma_sorted, lemma_sorted_keeps_keys, lemma_sorted_mapped,
    lemma_sorted_of_any_order, mapped, paired, sorted, stable_sort, text_before, Key, KeyView,
};
use crate::text::{same, views};
use vstd::prelude::*;

verus! {

/// The decision for one application.
#[derive(Debug, Clone, PartialEq, Eq)]
pub struct LocationPermissionRecord {
    pub app_id: String,
    pub accuracy: LocationAccuracy,
}

#[derive(Debug, Clone, PartialEq, Eq)]
pub enum LocationAccuracy {
    /// Saved as `NONE`: the application was denied.
    NoAccess,
    Country,
    City,
    Neighborhood,
    Street,
    Exact,
    Unknown(String),
}

/// The value of a [`LocationAccuracy`].
pub ghost enum AccuracyView {
    NoAccess,
    Country,
    City,
    Neighborhood,
    Street,
    Exact,
    Unknown(Seq<char>),
}

impl View for LocationAccuracy {
    type V = AccuracyView;

    open spec fn view(&self) -> AccuracyView {
        match *self {
            LocationAccuracy::NoAccess => AccuracyView::NoAccess,
            LocationAccuracy::Country => AccuracyView::Country,
            LocationAccuracy::City => AccuracyView::City,
            LocationAccuracy::Neighborhood => AccuracyView::Neighborhood,
            LocationAccuracy::Street => AccuracyView::Street,
            LocationAccuracy::Exact => AccuracyView::Exact,
            LocationAccuracy::Unknown(text) => AccuracyView::Unknown(text@),
        }
    }
}

/// The value of a [`LocationPermissionRecord`].
pub ghost struct RecordView {
    pub app_id: Seq<char>,
    pub accuracy: AccuracyView,
}

impl View for LocationPermissionRecord {
    type V = RecordView;

    open spec fn view(&self) -> RecordView {
        RecordView { app_id: self.app_id@, accuracy: self.accuracy@ }
    }
}

pub open spec fn record_views(list: Seq<LocationPermissionRecord>) -> Seq<RecordView> {
    list.map_values(|r: LocationPermissionRecord| r@)
}

impl LocationPermissionRecord {
    /// The decision in a word.
    pub fn decision_label(&self) -> (r: &'static str)
        ensures
            r@ == match self@.accuracy {
                AccuracyView::NoAccess => "Denied"@,
                AccuracyView::Unknown(_) => "Unknown"@,
                _ => "Allowed"@,
            },
    {
        match &self.accuracy {
            LocationAccuracy::NoAccess => "Denied",
            LocationAccuracy::Unknown(_) => "Unknown",
            _ => "Allowed",
        }
    }

    /// The accuracy in words.
    pub fn accuracy_label(&self) -> (r: String)
        ensures
            r@ == match self@.accuracy {
                AccuracyView::NoAccess => "No location access"@,
                AccuracyView::Country => "Country-level accuracy"@,
                AccuracyView::City => "City-level accuracy"@,
                AccuracyView::Neighborhood => "Neighborhood-level accuracy"@,
                AccuracyView::Street => "Street-level accuracy"@,
                AccuracyView::Exact => "Exact location"@,
                AccuracyView::Unknown(value) => "Unknown accuracy ("@ + value + ")"@,
            },
    {
        match &self.accuracy {
            LocationAccuracy::NoAccess => "No location access".to_owned(),
            LocationAccuracy::Country => "Country-level accuracy".to_owned(),
            LocationAccuracy::City => "City-level accuracy".to_owned(),
            LocationAccuracy::Neighborhood => "Neighborhood-level accuracy".to_owned(),
            LocationAccuracy::Street => "Street-level accuracy".to_owned(),
            LocationAccuracy::Exact => "Exact location".to_owned(),
            LocationAccuracy::Unknown(value) => "Unknown accuracy (".to_owned().concat(
                value.as_str(),
            ).concat(")"),
        }
    }
}

/// The accuracy that a saved word stands for.
pub open spec fn accuracy_of(value: Option<Seq<char>>) -> AccuracyView {
    match value {
        Some(word) => if word == "NONE"@ {
            AccuracyView::NoAccess
        } else if word == "COUNTRY"@ {
            AccuracyView::Country
        } else if word == "CITY"@ {
            AccuracyView::City
        } else if word == "NEIGHBORHOOD"@ {
            AccuracyView::Neighborhood
        } else if word == "STREET"@ {
            AccuracyView::Street
        } else if word == "EXACT"@ {
            AccuracyView::Exact
        } else {
            AccuracyView::Unknown(word)
        },
        None => AccuracyView::Unknown("missing"@),
    }
}

/// The accuracy that a saved word stands for.
pub fn parse_accuracy(value: Option<&str>) -> (r: LocationAccuracy)
    ensures
        r@ == accuracy_of(
            match value {
                Some(word) => Some(word@),
                None => None,
            },
        ),
{
    match value {
        Some(word) => if same(word, "NONE") {
            LocationAccuracy::NoAccess
        } else if same(word, "COUNTRY") {
            LocationAccuracy::Country
        } else if same(word, "CITY") {
            LocationAccuracy::City
        } else if same(word, "NEIGHBORHOOD") {
            LocationAccuracy::Neighborhood
        } else if same(word, "STREET") {
            LocationAccuracy::Street
        } else if same(word, "EXACT") {
            LocationAccuracy::Exact
        } else {
            LocationAccuracy::Unknown(word.to_owned())
        },
        None => LocationAccuracy::Unknown("missing".to_owned()),
    }
}

/// The saved words of the applications.
pub open spec fn entry_views(list: Seq<(String, Vec<String>)>) -> Seq<
    (Seq<char>, Seq<Seq<char>>),
> {
    Seq::new(list.len(), |i: int| (list[i].0@, views(list[i].1@)))
}

/// The record of an entry: the first word counts.
pub open spec fn record_of(entry: (Seq<char>, Seq<Seq<char>>)) -> RecordView {
    RecordView {
        app_id: entry.0,
        accuracy: accuracy_of(
            if entry.1.len() > 0 {
                Some(entry.1[0])
            } else {
                None
            },
        ),
    }
}

/// Records are sorted by application.
pub open spec fn record_key(r: RecordView) -> KeyView {
    KeyView { rank: 0, text: r.app_id }
}

/// The record of each entry with its key.
pub open spec fn keyed_records(entries: Seq<(Seq<char>, Seq<Seq<char>>)>) -> Seq<
    (KeyView, RecordView),
> {
    entries.map_values(|e: (Seq<char>, Seq<Seq<char>>)| (record_key(record_of(e)), record_of(e)))
}

/// The records of the saved entries, sorted by application.
pub open spec fn records_of(entries: Seq<(Seq<char>, Seq<Seq<char>>)>) -> Seq<RecordView> {
    items(sorted(keyed_records(entries)))
}

/// The records of the saved entries, which hold each application at most once
/// and in any order, sorted by application.
pub fn parse_location_permissions(permissions: Vec<(String, Vec<String>)>) -> (r: Vec<
    LocationPermissionRecord,
>)
    ensures
        record_views(r@) == records_of(entry_views(permissions@)),
{
    let ghost all = entry_views(permissions@);
    let mut records: Vec<LocationPermissionRecord> = Vec::new();
    let mut keys: Vec<Key> = Vec::new();
    let mut i: usize = 0;
    while i < permissions.len()
        invariant
            i <= permissions.len(),
            all == entry_views(permissions@),
            records.len() == i,
            keys.len() == i,
            forall|k: int|
                0 <= k < i ==> (#[trigger] records[k])@ == record_of(all[k]) && keys[k]@
                    == record_key(record_of(all[k])),
        decreases permissions.len() - i,
    {
        let words = &permissions[i].1;
        assert(all[i as int].1.len() == words.len());
        let first = if words.len() > 0 {
            assert(all[i as int].1[0] == words@[0]@);
            Some(words[0].as_str())
        } else {
            None
        };
        let accuracy = parse_accuracy(first);
        let app_id = permissions[i].0.clone();
        keys.push(Key { rank: 0, text: app_id.clone() });
        records.push(LocationPermissionRecord { app_id, accuracy });
        i += 1;
    }
    proof {
        let f = |r: LocationPermissionRecord| r@;
        let a = paired(keys@, records@);
        lemma_sorted_mapped(a, f);
        assert(mapped(a, f) =~= keyed_records(all));
        assert(record_views(items(sorted(a))) =~= items(mapped(sorted(a), f)));
    }
    stable_sort(records, keys)
}

/// No two entries are for one application.
pub open spec fn one_entry_each(entries: Seq<(Seq<char>, Seq<Seq<char>>)>) -> bool {
    forall|i: int, j: int|
        0 <= i < entries.len() && 0 <= j < entries.len() && i != j ==> (#[trigger] entries[i]).0
            != (#[trigger] entries[j]).0
}

/// The records come in the order of their applications, one for each entry.
pub proof fn law_records_are_sorted(entries: Seq<(Seq<char>, Seq<Seq<char>>)>, i: int, j: int)
    requires
        0 <= i < j < records_of(entries).len(),
    ensures
        records_of(entries).len() == entries.len(),
        !text_before(records_of(entries)[j].app_id, records_of(entries)[i].app_id),
        exists|k: int| 0 <= k < entries.len() && record_of(entries[k]) == records_of(entries)[i],
{
    let pairs = keyed_records(entries);
    lemma_sorted(pairs);
    lemma_sorted_keeps_keys(pairs, |r: RecordView| record_key(r));
    let out = sorted(pairs);
    assert(!key_before(out[j].0, out[i].0));
    assert(out[j].0 == record_key(out[j].1));
    assert(out[i].0 == record_key(out[i].1));
    assert(pairs.contains(out[i]));
    let k = choose|k: int| 0 <= k < pairs.len() && pairs[k] == out[i];
    assert(record_of(entries[k]) == records_of(entries)[i]);
}

/// It does not matter in which order the entries come.
pub proof fn law_records_of_any_order(
    a: Seq<(Seq<char>, Seq<Seq<char>>)>,
    b: Seq<(Seq<char>, Seq<Seq<char>>)>,
)
    requires
        a.to_multiset() == b.to_multiset(),
        one_entry_each(a),
    ensures
        records_of(a) == records_of(b),
{
    let x = keyed_records(a);
    let y = keyed_records(b);
    lemma_keyed_multiset(a, b);
    assert forall|i: int, j: int| 0 <= i < x.len() && 0 <= j < x.len() && i != j implies (
    #[trigger] x[i]).0 != (#[trigger] x[j]).0 by {
        assert(a[i].0 != a[j].0);
    }
    lemma_sorted_of_any_order(x, y);
}

proof fn lemma_keyed_multiset(
    a: Seq<(Seq<char>, Seq<Seq<char>>)>,
    b: Seq<(Seq<char>, Seq<Seq<char>>)>,
)
    requires
        a.to_multiset() == b.to_multiset(),
    ensures
        keyed_records(a).to_multiset() == keyed_records(b).to_multiset(),
    decreases a.len(),
{
    broadcast use vstd::seq_lib::group_to_multiset_ensures;

    assert(a.len() == a.to_multiset().len());
    assert(b.len() == b.to_multiset().len());
    if a.len() == 0 {
        assert(a =~= b);
    } else {
        let x = a.last();
        assert(a.contains(x));
        assert(b.to_multiset().count(x) > 0);
        assert(b.contains(x));
        let j = choose|j: int| 0 <= j < b.len() && b[j] == x;
        let front = a.drop_last();
        let rest = b.remove(j);
        assert(front.push(x) =~= a);
        assert(front.to_multiset() =~= a.to_multiset().remove(x));
        assert(rest.to_multiset() =~= b.to_multiset().remove(x));
        lemma_keyed_multiset(front, rest);
        let p = (record_key(record_of(x)), record_of(x));
        let ka = keyed_records(a);
        let kb = keyed_records(b);
        assert(ka =~= keyed_records(front).push(p));
        assert(kb[j] == p);
        assert(kb.remove(j) =~= keyed_records(rest));
        assert(kb.remove(j).to_multiset() =~= kb.to_multiset().remove(p));
        assert(kb.contains(p));
        assert(kb.to_multiset().count(p) > 0);
        assert(ka.to_multiset() =~= kb.to_multiset());
    }
}

// ---------------------------------------------------------------------------
// The permission store
// ---------------------------------------------------------------------------

/// Whether the name of an error of the store says that nothing is saved.
pub fn is_not_found(name: &str) -> (r: bool)
    ensures
        r == (name@ == "org.freedesktop.portal.Error.NotFound"@),
{
    same(name, "org.freedesktop.portal.Error.NotFound")
}

/// How a look-up in the store ended.
#[derive(Debug)]
pub enum Lookup {
    Found { permissions: Vec<(String, Vec<String>)> },
    /// The store answered with an error of this name, and this text.
    Refused { name: String, text: String },
    /// The call failed with this text.
    Failed { text: String },
}

/// The records of a look-up: none where nothing is saved.
pub fn records_of_lookup(lookup: Lookup) -> (r: Result<Vec<LocationPermissionRecord>, String>)
    ensures
        match lookup {
            Lookup::Found { permissions } => r is Ok && record_views(r->Ok_0@) == records_of(
                entry_views(permissions@),
            ),
            Lookup::Refused { name, text } => if name@
                == "org.freedesktop.portal.Error.NotFound"@ {
                r is Ok && r->Ok_0@.len() == 0
            } else {
                r is Err && r->Err_0@ == "look up saved location permissions: "@ + text@
            },
            Lookup::Failed { text } => r is Err && r->Err_0@
                == "look up saved location permissions: "@ + text@,
        },
{
    match lookup {
        Lookup::Found { permissions } => Ok(parse_location_permissions(permissions)),
        Lookup::Refused { name, text } => if is_not_found(name.as_str()) {
            Ok(Vec::new())
        } else {
            Err("look up saved location permissions: ".to_owned().concat(text.as_str()))
        },
        Lookup::Failed { text } => Err(
            "look up saved location permissions: ".to_owned().concat(text.as_str()),
        ),
    }
}

/// The error of a revocation that failed.
pub fn revoke_error(record: &LocationPermissionRecord, text: &str) -> (r: String)
    ensures
        r@ == "revoke location permission for "@ + record@.app_id + ": "@ + text@,
{
    "revoke location permission for ".to_owned().concat(record.app_id.as_str()).concat(
        ": ",
    ).concat(text)
}

/// The word that an accuracy is saved as.
pub open spec fn saved_word(accuracy: AccuracyView) -> Seq<char> {
    match accuracy {
        AccuracyView::NoAccess => "NONE"@,
        AccuracyView::Country => "COUNTRY"@,
        AccuracyView::City => "CITY"@,
        AccuracyView::Neighborhood => "NEIGHBORHOOD"@,
        AccuracyView::Street => "STREET"@,
        AccuracyView::Exact => "EXACT"@,
        AccuracyView::Unknown(word) => word,
    }
}

/// An accuracy is read back from the word that it is saved as, and a word that
/// stands for none is kept.
pub proof fn law_accuracy_round_trip(accuracy: AccuracyView, word: Seq<char>)
    ensures
        !(accuracy is Unknown) ==> accuracy_of(Some(saved_word(accuracy))) == accuracy,
        saved_word(accuracy_of(Some(word))) == word,
        accuracy_of(None) is Unknown,
{
    reveal_strlit("NONE");
    reveal_strlit("COUNTRY");
    reveal_strlit("CITY");
    reveal_strlit("NEIGHBORHOOD");
    reveal_strlit("STREET");
    reveal_strlit("EXACT");
    assert("NONE"@.len() == 4 && "COUNTRY"@.len() == 7 && "CITY"@.len() == 4 && "STREET"@.len()
        == 6 && "EXACT"@.len() == 5 && "NEIGHBORHOOD"@.len() == 12);
    assert("NONE"@[0] != "CITY"@[0]);
}

/// Every saved entry has its record: under its application, with the accuracy of
/// its first word.
pub proof fn law_every_entry_is_listed(entries: Seq<(Seq<char>, Seq<Seq<char>>)>, k: int)
    requires
        0 <= k < entries.len(),
        entries[k].1.len() > 0,
    ensures
        records_of(entries).len() == entries.len(),
        exists|i: int|
            0 <= i < records_of(entries).len() && (#[trigger] records_of(entries)[i]).app_id
                == entries[k].0 && records_of(entries)[i].accuracy == accuracy_of(
                Some(entries[k].1[0]),
            ),
{
    broadcast use vstd::seq_lib::group_to_multiset_ensures;

    let pairs = keyed_records(entries);
    let out = sorted(pairs);
    lemma_sorted(pairs);
    assert(pairs.to_multiset().contains(pairs[k]));
    assert(out.contains(pairs[k]));
    let i = choose|i: int| 0 <= i < out.len() && out[i] == pairs[k];
    assert(records_of(entries)[i] == record_of(entries[k]));
}

} // verus!
