//! History of calculations made in a session: typed entries, filtering,
//! and a stable text export with a version header.
//!
//! An entry's inputs and outputs are JSON documents; the library holds each
//! as a `Payload`: its compact JSON text and, for an object, its fields as
//! they are shown to a user.
use vstd::prelude::*;

use crate::calendar::{civil_date, clock_text, date_text, day_count, format_timestamp};
use crate::text::{
    chars_of, contains_text, decimal_text, has_infix, lowercase_of, push_chars, push_text,
    same_chars, string_of, to_lowercase, trim, trimmed_chars,
};
use crate::APP_VERSION;

verus! {

broadcast use vstd::string::group_string_axioms;

// ---------------------------------------------------------------------------
// Entry types
// ---------------------------------------------------------------------------

/// The kind of calculation an entry records.
#[derive(Clone, Copy, Debug, PartialEq, Eq, Structural)]
pub enum HistoryEntryType {
    Sheet,
    Coil,
    Scrap,
    Pricing,
}

/// The name shown for an entry type.
pub open spec fn type_label(t: HistoryEntryType) -> Seq<char> {
    match t {
        HistoryEntryType::Sheet => "Sheet"@,
        HistoryEntryType::Coil => "Coil"@,
        HistoryEntryType::Scrap => "Scrap"@,
        HistoryEntryType::Pricing => "Pricing"@,
    }
}

impl HistoryEntryType {
    /// The name shown for this type.
    pub fn label(&self) -> (r: &'static str)
        ensures
            r@ == type_label(*self),
    {
        match self {
            HistoryEntryType::Sheet => "Sheet",
            HistoryEntryType::Coil => "Coil",
            HistoryEntryType::Scrap => "Scrap",
            HistoryEntryType::Pricing => "Pricing",
        }
    }

    /// The name shown for this type, as an owned string.
    pub fn to_string(&self) -> (r: String)
        ensures
            r@ == type_label(*self),
    {
        String::from_str(self.label())
    }
}

// ---------------------------------------------------------------------------
// Payloads
// ---------------------------------------------------------------------------

/// A field value of a JSON object, as it is shown.
#[derive(Clone, Debug)]
pub enum FieldValue {
    /// JSON `null`.
    Null,
    /// A JSON string, unquoted.
    Text(String),
    /// Any other value, in compact JSON.
    Other(String),
}

/// How a field value reads in a preview: strings unquoted, others as JSON.
pub open spec fn shown_value(v: FieldValue) -> Seq<char> {
    match v {
        FieldValue::Null => "null"@,
        FieldValue::Text(s) => s@,
        FieldValue::Other(s) => s@,
    }
}

/// How a field value reads when recalled into an input box: as shown, but
/// empty for `null`.
pub open spec fn recalled_value(v: FieldValue) -> Seq<char> {
    match v {
        FieldValue::Null => Seq::empty(),
        FieldValue::Text(s) => s@,
        FieldValue::Other(s) => s@,
    }
}

/// A JSON document: its compact text and, when it is an object, its fields
/// in key order.
#[derive(Clone, Debug)]
pub struct Payload {
    pub json: String,
    pub fields: Option<Vec<(String, FieldValue)>>,
}

/// The value of the first field named `key`, if the payload is an object
/// that has one.
pub open spec fn field_named(fields: Seq<(String, FieldValue)>, key: Seq<char>) -> Option<FieldValue>
    decreases fields.len(),
{
    if fields.len() == 0 {
        None
    } else if fields[0].0@ == key {
        Some(fields[0].1)
    } else {
        field_named(fields.drop_first(), key)
    }
}

pub open spec fn payload_field(p: Payload, key: Seq<char>) -> Option<FieldValue> {
    match p.fields {
        Some(f) => field_named(f@, key),
        None => None,
    }
}

/// The text a payload field recalls: empty when absent or `null`.
pub open spec fn recalled_field(p: Payload, key: Seq<char>) -> Seq<char> {
    match payload_field(p, key) {
        Some(v) => recalled_value(v),
        None => Seq::empty(),
    }
}

fn field_text(v: &FieldValue, null_text: &str) -> (r: String)
    ensures
        r@ == match v {
            FieldValue::Null => null_text@,
            FieldValue::Text(s) => s@,
            FieldValue::Other(s) => s@,
        },
{
    match v {
        FieldValue::Null => String::from_str(null_text),
        FieldValue::Text(s) => s.clone(),
        FieldValue::Other(s) => s.clone(),
    }
}

/// The text of field `key` for recalling it into an input box: a string's
/// characters, any other value in compact JSON, and nothing for `null`, a
/// missing field or a payload that is not an object.
pub fn json_str(value: &Payload, key: &str) -> (r: String)
    ensures
        r@ == recalled_field(*value, key@),
{
    match &value.fields {
        Some(fields) => {
            let kc = chars_of(key);
            let mut i: usize = 0;
            assert(fields@.skip(0) =~= fields@);
            while i < fields.len()
                invariant
                    i <= fields.len(),
                    kc@ == key@,
                    value.fields == Some(*fields),
                    field_named(fields@, key@) == field_named(fields@.skip(i as int), key@),
                decreases fields.len() - i,
            {
                assert(fields@.skip(i as int).drop_first() =~= fields@.skip(i + 1));
                assert(fields@.skip(i as int)[0] == fields@[i as int]);
                if same_chars(&chars_of(fields[i].0.as_str()), &kc) {
                    let r = field_text(&fields[i].1, "");
                    assert(""@ =~= Seq::<char>::empty()) by {
                        reveal_strlit("");
                    }
                    return r;
                }
                i = i + 1;
            }
            String::new()
        },
        None => String::new(),
    }
}

// ---------------------------------------------------------------------------
// Entries
// ---------------------------------------------------------------------------

/// One calculation: when it was made, its kind, its inputs and outputs.
#[derive(Clone, Debug)]
pub struct HistoryEntry {
    /// Seconds since the Unix epoch.
    pub timestamp: u64,
    pub entry_type: HistoryEntryType,
    pub inputs: Payload,
    pub outputs: Payload,
}

impl HistoryEntry {
    /// An entry made at `timestamp`.
    pub fn with_timestamp(
        timestamp: u64,
        entry_type: HistoryEntryType,
        inputs: Payload,
        outputs: Payload,
    ) -> (r: HistoryEntry)
        ensures
            r == (HistoryEntry { timestamp, entry_type, inputs, outputs }),
    {
        HistoryEntry { timestamp, entry_type, inputs, outputs }
    }
}

/// The date and time of a timestamp, as `format_timestamp` renders them.
pub open spec fn stamp_date(ts: u64) -> Seq<char> {
    let (y, m, d) = civil_date(day_count(ts as nat));
    date_text(y, m, d)
}

pub open spec fn stamp_time(ts: u64) -> Seq<char> {
    clock_text((ts % 86400) as int)
}

// ---------------------------------------------------------------------------
// Session history
// ---------------------------------------------------------------------------

/// The entries of the current session, oldest first.
#[derive(Clone, Debug)]
pub struct SessionHistory {
    entries: Vec<HistoryEntry>,
}

impl View for SessionHistory {
    type V = Seq<HistoryEntry>;

    closed spec fn view(&self) -> Seq<HistoryEntry> {
        self.entries@
    }
}

/// The entries of type `t`, in order.
pub open spec fn entries_of_type(entries: Seq<HistoryEntry>, t: HistoryEntryType) -> Seq<HistoryEntry>
    decreases entries.len(),
{
    if entries.len() == 0 {
        Seq::empty()
    } else if entries.last().entry_type == t {
        entries_of_type(entries.drop_last(), t).push(entries.last())
    } else {
        entries_of_type(entries.drop_last(), t)
    }
}

impl SessionHistory {
    /// An empty history.
    pub fn new() -> (r: SessionHistory)
        ensures
            r@ == Seq::<HistoryEntry>::empty(),
    {
        SessionHistory { entries: Vec::new() }
    }

    /// Appends `entry`.
    pub fn add_entry(&mut self, entry: HistoryEntry)
        ensures
            final(self)@ == old(self)@.push(entry),
    {
        self.entries.push(entry);
    }

    /// All entries, oldest first.
    pub fn get_entries(&self) -> (r: &[HistoryEntry])
        ensures
            r@ == self@,
    {
        self.entries.as_slice()
    }

    /// The entries of type `entry_type`, oldest first.
    pub fn filter_by_type(&self, entry_type: HistoryEntryType) -> (r: Vec<&HistoryEntry>)
        ensures
            r@.len() == entries_of_type(self@, entry_type).len(),
            forall|i: int| 0 <= i < r@.len() ==> *r@[i] == entries_of_type(self@, entry_type)[i],
    {
        let mut out: Vec<&HistoryEntry> = Vec::new();
        let mut i: usize = 0;
        while i < self.entries.len()
            invariant
                i <= self.entries.len(),
                out@.len() == entries_of_type(self.entries@.take(i as int), entry_type).len(),
                forall|k: int|
                    0 <= k < out@.len() ==> *out@[k] == entries_of_type(
                        self.entries@.take(i as int),
                        entry_type,
                    )[k],
            decreases self.entries.len() - i,
        {
            let e = &self.entries[i];
            assert(self.entries@.take(i + 1).drop_last() =~= self.entries@.take(i as int));
            if e.entry_type == entry_type {
                out.push(e);
            }
            i = i + 1;
        }
        assert(self.entries@.take(self.entries.len() as int) =~= self.entries@);
        out
    }

    /// Removes every entry.
    pub fn clear(&mut self)
        ensures
            final(self)@ == Seq::<HistoryEntry>::empty(),
    {
        self.entries.clear();
    }
}

/// What an entry of type `t` added to a history does to the entries of each
/// type: the type's list grows by that entry, every other list is unchanged.
pub proof fn lemma_add_then_filter(entries: Seq<HistoryEntry>, e: HistoryEntry, t: HistoryEntryType)
    ensures
        entries_of_type(entries.push(e), t) == if e.entry_type == t {
            entries_of_type(entries, t).push(e)
        } else {
            entries_of_type(entries, t)
        },
{
    assert(entries.push(e).drop_last() =~= entries);
}

/// Every entry kept by the type filter has that type, and the filter keeps
/// no more entries than the history holds.
pub proof fn lemma_filter_keeps_type(entries: Seq<HistoryEntry>, t: HistoryEntryType)
    ensures
        entries_of_type(entries, t).len() <= entries.len(),
        forall|i: int|
            0 <= i < entries_of_type(entries, t).len() ==> (#[trigger] entries_of_type(entries, t)[i]).entry_type
                == t,
    decreases entries.len(),
{
    if entries.len() > 0 {
        lemma_filter_keeps_type(entries.drop_last(), t);
    }
}

// ---------------------------------------------------------------------------
// Text export
// ---------------------------------------------------------------------------

pub open spec fn export_header() -> Seq<char> {
    "SteelCal History Export v"@ + APP_VERSION@ + "\n"@ + "========================================\n"@
}

pub open spec fn entry_separator() -> Seq<char> {
    "----------------------------------------\n"@
}

/// The block of the entry numbered `number` (from 1).
pub open spec fn entry_block(number: nat, e: HistoryEntry) -> Seq<char> {
    "Entry #"@ + decimal_text(number) + "\n"@ + "Timestamp: "@ + stamp_date(e.timestamp) + " "@
        + stamp_time(e.timestamp) + "\n"@ + "Type:      "@ + type_label(e.entry_type) + "\n"@
        + "Inputs:    "@ + e.inputs.json@ + "\n"@ + "Outputs:   "@ + e.outputs.json@ + "\n"@
}

/// The blocks of `entries`, separated by separator lines.
pub open spec fn entry_blocks(entries: Seq<HistoryEntry>) -> Seq<char>
    decreases entries.len(),
{
    if entries.len() == 0 {
        Seq::empty()
    } else if entries.len() == 1 {
        entry_block(1, entries[0])
    } else {
        entry_blocks(entries.drop_last()) + entry_separator() + entry_block(
            entries.len(),
            entries.last(),
        )
    }
}

/// The export of `entries`: the version header, then either a line saying
/// there are none or the entries' blocks.
pub open spec fn export_text(entries: Seq<HistoryEntry>) -> Seq<char> {
    export_header() + if entries.len() == 0 {
        "(no entries)\n"@
    } else {
        entry_blocks(entries)
    }
}

fn push_entry_block(buf: &mut String, number: u64, e: &HistoryEntry)
    ensures
        final(buf)@ == old(buf)@ + entry_block(number as nat, *e),
{
    let mut digits: Vec<char> = Vec::new();
    crate::text::push_decimal(&mut digits, number);
    let (date, time) = format_timestamp(e.timestamp);
    push_text(buf, "Entry #");
    push_chars(buf, &digits);
    push_text(buf, "\n");
    push_text(buf, "Timestamp: ");
    push_text(buf, date.as_str());
    push_text(buf, " ");
    push_text(buf, time.as_str());
    push_text(buf, "\n");
    push_text(buf, "Type:      ");
    push_text(buf, e.entry_type.label());
    push_text(buf, "\n");
    push_text(buf, "Inputs:    ");
    push_text(buf, e.inputs.json.as_str());
    push_text(buf, "\n");
    push_text(buf, "Outputs:   ");
    push_text(buf, e.outputs.json.as_str());
    push_text(buf, "\n");
    assert(buf@ =~= old(buf)@ + entry_block(number as nat, *e));
}

/// Renders `entries` in the stable export format (see `export_text`).
#[verifier::rlimit(40)]
pub fn export_to_text(entries: &[HistoryEntry]) -> (r: String)
    ensures
        r@ == export_text(entries@),
{
    let mut buf = String::new();
    push_text(&mut buf, "SteelCal History Export v");
    push_text(&mut buf, APP_VERSION);
    push_text(&mut buf, "\n");
    push_text(&mut buf, "========================================\n");
    assert(buf@ =~= export_header());
    if entries.len() == 0 {
        push_text(&mut buf, "(no entries)\n");
        return buf;
    }
    let ghost head = buf@;
    let mut i: usize = 0;
    while i < entries.len()
        invariant
            i <= entries.len(),
            entries.len() > 0,
            buf@ == head + entry_blocks(entries@.take(i as int)),
        decreases entries.len() - i,
    {
        let ghost before = buf@;
        if i > 0 {
            push_text(&mut buf, "----------------------------------------\n");
        }
        push_entry_block(&mut buf, (i + 1) as u64, &entries[i]);
        proof {
            let t = entries@.take(i + 1);
            assert(t.drop_last() =~= entries@.take(i as int));
            assert(t.last() == entries@[i as int]);
            if i == 0 {
                assert(entries@.take(0) =~= Seq::<HistoryEntry>::empty());
                assert(buf@ =~= head + entry_blocks(t));
            } else {
                assert(buf@ =~= head + entry_blocks(t));
            }
        }
        i = i + 1;
    }
    assert(entries@.take(entries.len() as int) =~= entries@);
    buf
}

// ---------------------------------------------------------------------------
// Browsing the history
// ---------------------------------------------------------------------------

/// Whether the history list's type filter (0 all, 1 sheet, 2 coil, 3 scrap;
/// any other index shows all) keeps entries of type `t`.
pub open spec fn type_selected(filter_type_index: i32, t: HistoryEntryType) -> bool {
    if filter_type_index == 1 {
        t == HistoryEntryType::Sheet
    } else if filter_type_index == 2 {
        t == HistoryEntryType::Coil
    } else if filter_type_index == 3 {
        t == HistoryEntryType::Scrap
    } else {
        true
    }
}

/// The line that lists an entry: "date time - Type Calculation".
pub open spec fn entry_label(e: HistoryEntry) -> Seq<char> {
    stamp_date(e.timestamp) + " "@ + stamp_time(e.timestamp) + " - "@ + type_label(e.entry_type)
        + " Calculation"@
}

/// Whether an entry is listed: its type is selected and, unless the
/// (lower-cased) search text is empty, the search text occurs in its
/// lower-cased label, inputs or outputs.
pub open spec fn entry_listed(e: HistoryEntry, filter_type_index: i32, search: Seq<char>) -> bool {
    &&& type_selected(filter_type_index, e.entry_type)
    &&& (search.len() == 0 || contains_text(lowercase_of(entry_label(e)), search) || contains_text(
        lowercase_of(e.inputs.json@),
        search,
    ) || contains_text(lowercase_of(e.outputs.json@), search))
}

/// Positions of the listed entries, in order.
pub open spec fn listed_positions(entries: Seq<HistoryEntry>, filter_type_index: i32, search: Seq<char>) -> Seq<int>
    decreases entries.len(),
{
    if entries.len() == 0 {
        Seq::empty()
    } else {
        let rest = listed_positions(entries.drop_last(), filter_type_index, search);
        if entry_listed(entries.last(), filter_type_index, search) {
            rest.push(entries.len() - 1)
        } else {
            rest
        }
    }
}

/// The history dialog lists entries in history order, each at most once,
/// and lists an entry exactly when its type passes the filter (1 sheet, 2
/// coil, 3 scrap, anything else every type) and the search text is empty
/// or occurs in the entry's lower-cased label, inputs or outputs.
pub proof fn lemma_filtered_history_lists(entries: Seq<HistoryEntry>, filter_type_index: i32, search: Seq<char>)
    ensures
        forall|a: int|
            0 <= a < listed_positions(entries, filter_type_index, search).len() ==> 0 <= #[trigger] listed_positions(
                entries,
                filter_type_index,
                search,
            )[a] < entries.len(),
        forall|a: int, b: int|
            0 <= a < b < listed_positions(entries, filter_type_index, search).len() ==> 0 <= #[trigger] listed_positions(
                entries,
                filter_type_index,
                search,
            )[a] < #[trigger] listed_positions(entries, filter_type_index, search)[b] < entries.len(),
        forall|i: int|
            0 <= i < entries.len() ==> (#[trigger] listed_positions(entries, filter_type_index, search).contains(i) <==> {
                let e = entries[i];
                &&& (filter_type_index == 1 ==> e.entry_type == HistoryEntryType::Sheet)
                &&& (filter_type_index == 2 ==> e.entry_type == HistoryEntryType::Coil)
                &&& (filter_type_index == 3 ==> e.entry_type == HistoryEntryType::Scrap)
                &&& (search.len() == 0 || contains_text(lowercase_of(entry_label(e)), search)
                    || contains_text(lowercase_of(e.inputs.json@), search) || contains_text(
                    lowercase_of(e.outputs.json@),
                    search,
                ))
            }),
    decreases entries.len(),
{
    if entries.len() > 0 {
        let before = entries.drop_last();
        lemma_filtered_history_lists(before, filter_type_index, search);
        let rest = listed_positions(before, filter_type_index, search);
        let pos = listed_positions(entries, filter_type_index, search);
        assert forall|a: int| 0 <= a < pos.len() implies 0 <= #[trigger] pos[a] < entries.len() by {
            if a < rest.len() {
                assert(pos[a] == rest[a]);
            }
        }
        assert forall|a: int, b: int| 0 <= a < b < pos.len() implies 0 <= #[trigger] pos[a] < #[trigger] pos[b]
            < entries.len() by {
            if b < rest.len() {
                assert(pos[a] == rest[a] && pos[b] == rest[b]);
            } else {
                assert(pos[a] == rest[a]);
                assert(rest[a] < before.len());
            }
        }
        assert forall|i: int| 0 <= i < entries.len() implies (#[trigger] pos.contains(i) <==> {
            let e = entries[i];
            &&& (filter_type_index == 1 ==> e.entry_type == HistoryEntryType::Sheet)
            &&& (filter_type_index == 2 ==> e.entry_type == HistoryEntryType::Coil)
            &&& (filter_type_index == 3 ==> e.entry_type == HistoryEntryType::Scrap)
            &&& (search.len() == 0 || contains_text(lowercase_of(entry_label(e)), search)
                || contains_text(lowercase_of(e.inputs.json@), search) || contains_text(
                lowercase_of(e.outputs.json@),
                search,
            ))
        }) by {
            if i < entries.len() - 1 {
                assert(entries[i] == before[i]);
                if pos.contains(i) {
                    let k = choose|k: int| 0 <= k < pos.len() && pos[k] == i;
                    if k < rest.len() {
                        assert(rest[k] == i);
                    } else {
                        assert(pos[k] == entries.len() - 1);
                    }
                }
                if rest.contains(i) {
                    let k = choose|k: int| 0 <= k < rest.len() && rest[k] == i;
                    assert(pos[k] == i);
                }
            } else {
                if pos.contains(i) {
                    let k = choose|k: int| 0 <= k < pos.len() && pos[k] == i;
                    if k < rest.len() {
                        assert(rest[k] < before.len());
                    }
                }
                if entry_listed(entries.last(), filter_type_index, search) {
                    assert(pos[rest.len() as int] == i);
                }
            }
        }
    }
}

fn push_label(buf: &mut String, e: &HistoryEntry)
    ensures
        final(buf)@ == old(buf)@ + entry_label(*e),
{
    let (date, time) = format_timestamp(e.timestamp);
    push_text(buf, date.as_str());
    push_text(buf, " ");
    push_text(buf, time.as_str());
    push_text(buf, " - ");
    push_text(buf, e.entry_type.label());
    push_text(buf, " Calculation");
    assert(buf@ =~= old(buf)@ + entry_label(*e));
}

fn contains_lowered(text: &str, search: &Vec<char>) -> (r: bool)
    ensures
        r == contains_text(lowercase_of(text@), search@),
{
    let lowered = to_lowercase(text);
    has_infix(&chars_of(lowered.as_str()), search)
}

/// The positions and labels of the entries the history dialog lists for a
/// type filter and a search text (see `entry_listed`); the search ignores
/// case and surrounding white space.
pub fn build_filtered_history(history: &SessionHistory, filter_type_index: i32, search_text: &str) -> (r: (
    Vec<usize>,
    Vec<String>,
))
    ensures
        ({
            let search = lowercase_of(trim(search_text@));
            let pos = listed_positions(history@, filter_type_index, search);
            &&& r.0@.len() == pos.len()
            &&& r.1@.len() == pos.len()
            &&& forall|k: int| 0 <= k < pos.len() ==> r.0@[k] as int == pos[k]
            &&& forall|k: int| 0 <= k < pos.len() ==> r.1@[k]@ == entry_label(history@[pos[k]])
        }),
{
    let entries = history.get_entries();
    let trimmed = string_of(&trimmed_chars(search_text));
    let lowered = to_lowercase(trimmed.as_str());
    let search = chars_of(lowered.as_str());
    let ghost sv = search@;
    let mut indices: Vec<usize> = Vec::new();
    let mut labels: Vec<String> = Vec::new();
    let mut i: usize = 0;
    while i < entries.len()
        invariant
            i <= entries.len(),
            entries@ == history@,
            search@ == sv,
            ({
                let pos = listed_positions(entries@.take(i as int), filter_type_index, sv);
                &&& indices@.len() == pos.len()
                &&& labels@.len() == pos.len()
                &&& forall|k: int| 0 <= k < pos.len() ==> indices@[k] as int == pos[k]
                &&& forall|k: int| 0 <= k < pos.len() ==> labels@[k]@ == entry_label(entries@[pos[k]])
                &&& forall|k: int| 0 <= k < pos.len() ==> 0 <= #[trigger] pos[k] < i
            }),
        decreases entries.len() - i,
    {
        let e = &entries[i];
        let selected = match filter_type_index {
            1 => e.entry_type == HistoryEntryType::Sheet,
            2 => e.entry_type == HistoryEntryType::Coil,
            3 => e.entry_type == HistoryEntryType::Scrap,
            _ => true,
        };
        let mut label = String::new();
        push_label(&mut label, e);
        let listed = selected && (search.len() == 0 || contains_lowered(label.as_str(), &search)
            || contains_lowered(e.inputs.json.as_str(), &search) || contains_lowered(
            e.outputs.json.as_str(),
            &search,
        ));
        proof {
            let t = entries@.take(i + 1);
            assert(t.drop_last() =~= entries@.take(i as int));
            assert(t.last() == entries@[i as int]);
            assert(label@ =~= entry_label(*e));
            assert(listed == entry_listed(entries@[i as int], filter_type_index, sv));
        }
        if listed {
            indices.push(i);
            labels.push(label);
        }
        i = i + 1;
    }
    assert(entries@.take(entries.len() as int) =~= entries@);
    (indices, labels)
}

/// The preview lines of a payload: one "  key: value" line per field of an
/// object, else the payload's JSON on one line.
pub open spec fn payload_lines(p: Payload) -> Seq<char> {
    match p.fields {
        Some(f) => field_lines(f@),
        None => "  "@ + p.json@ + "\n"@,
    }
}

pub open spec fn field_lines(fields: Seq<(String, FieldValue)>) -> Seq<char>
    decreases fields.len(),
{
    if fields.len() == 0 {
        Seq::empty()
    } else {
        field_lines(fields.drop_last()) + "  "@ + fields.last().0@ + ": "@ + shown_value(
            fields.last().1,
        ) + "\n"@
    }
}

/// The preview of an entry: its type and time, then its inputs and outputs.
pub open spec fn preview_text(e: HistoryEntry) -> Seq<char> {
    "Type: "@ + type_label(e.entry_type) + "\nTimestamp: "@ + stamp_date(e.timestamp) + " "@
        + stamp_time(e.timestamp) + "\n\n"@ + "--- Inputs ---\n"@ + payload_lines(e.inputs)
        + "\n--- Outputs ---\n"@ + payload_lines(e.outputs)
}

fn push_payload_lines(buf: &mut String, p: &Payload)
    ensures
        final(buf)@ == old(buf)@ + payload_lines(*p),
{
    match &p.fields {
        Some(fields) => {
            let ghost start = buf@;
            let mut i: usize = 0;
            while i < fields.len()
                invariant
                    i <= fields.len(),
                    p.fields == Some(*fields),
                    buf@ == start + field_lines(fields@.take(i as int)),
                decreases fields.len() - i,
            {
                let shown = field_text(&fields[i].1, "null");
                push_text(buf, "  ");
                push_text(buf, fields[i].0.as_str());
                push_text(buf, ": ");
                push_text(buf, shown.as_str());
                push_text(buf, "\n");
                proof {
                    let t = fields@.take(i + 1);
                    assert(t.drop_last() =~= fields@.take(i as int));
                    assert(t.last() == fields@[i as int]);
                    assert(buf@ =~= start + field_lines(t));
                }
                i = i + 1;
            }
            assert(fields@.take(fields.len() as int) =~= fields@);
        },
        None => {
            push_text(buf, "  ");
            push_text(buf, p.json.as_str());
            push_text(buf, "\n");
            assert(buf@ =~= old(buf)@ + payload_lines(*p));
        },
    }
}

/// The detailed preview of a history entry (see `preview_text`).
pub fn build_preview_text(entry: &HistoryEntry) -> (r: String)
    ensures
        r@ == preview_text(*entry),
{
    let (date, time) = format_timestamp(entry.timestamp);
    let mut preview = String::new();
    push_text(&mut preview, "Type: ");
    push_text(&mut preview, entry.entry_type.label());
    push_text(&mut preview, "\nTimestamp: ");
    push_text(&mut preview, date.as_str());
    push_text(&mut preview, " ");
    push_text(&mut preview, time.as_str());
    push_text(&mut preview, "\n\n");
    push_text(&mut preview, "--- Inputs ---\n");
    let ghost head = preview@;
    push_payload_lines(&mut preview, &entry.inputs);
    push_text(&mut preview, "\n--- Outputs ---\n");
    push_payload_lines(&mut preview, &entry.outputs);
    assert(preview@ =~= preview_text(*entry));
    preview
}

// ---------------------------------------------------------------------------
// Copies and selections
// ---------------------------------------------------------------------------

fn copy_field_value(v: &FieldValue) -> (r: FieldValue)
    ensures
        r == *v || match (r, *v) {
            (FieldValue::Text(a), FieldValue::Text(b)) => a@ == b@,
            (FieldValue::Other(a), FieldValue::Other(b)) => a@ == b@,
            _ => false,
        },
{
    match v {
        FieldValue::Null => FieldValue::Null,
        FieldValue::Text(t) => FieldValue::Text(t.clone()),
        FieldValue::Other(t) => FieldValue::Other(t.clone()),
    }
}

/// Two payloads read the same: the same JSON text, and the same fields
/// shown the same way.
pub open spec fn same_payload(a: Payload, b: Payload) -> bool {
    &&& a.json@ == b.json@
    &&& match (a.fields, b.fields) {
        (None, None) => true,
        (Some(x), Some(y)) => x@.len() == y@.len() && forall|i: int|
            0 <= i < x@.len() ==> (#[trigger] x@[i]).0@ == y@[i].0@ && shown_value(x@[i].1) == shown_value(
                y@[i].1,
            ) && recalled_value(x@[i].1) == recalled_value(y@[i].1),
        _ => false,
    }
}

/// Two entries record the same calculation.
pub open spec fn same_entry(a: HistoryEntry, b: HistoryEntry) -> bool {
    a.timestamp == b.timestamp && a.entry_type == b.entry_type && same_payload(a.inputs, b.inputs)
        && same_payload(a.outputs, b.outputs)
}

fn copy_payload(p: &Payload) -> (r: Payload)
    ensures
        same_payload(r, *p),
{
    let fields = match &p.fields {
        Some(f) => {
            let mut out: Vec<(String, FieldValue)> = Vec::new();
            let mut i: usize = 0;
            while i < f.len()
                invariant
                    i <= f.len(),
                    out@.len() == i,
                    forall|k: int|
                        0 <= k < i ==> (#[trigger] out@[k]).0@ == f@[k].0@ && shown_value(out@[k].1)
                            == shown_value(f@[k].1) && recalled_value(out@[k].1) == recalled_value(f@[k].1),
                decreases f.len() - i,
            {
                out.push((f[i].0.clone(), copy_field_value(&f[i].1)));
                i = i + 1;
            }
            Some(out)
        },
        None => None,
    };
    Payload { json: p.json.clone(), fields }
}

/// A copy of an entry.
pub fn copy_entry(e: &HistoryEntry) -> (r: HistoryEntry)
    ensures
        same_entry(r, *e),
{
    HistoryEntry {
        timestamp: e.timestamp,
        entry_type: e.entry_type,
        inputs: copy_payload(&e.inputs),
        outputs: copy_payload(&e.outputs),
    }
}

/// The positions of `positions` that hold an entry, in order.
pub open spec fn present_positions(positions: Seq<usize>, count: int) -> Seq<usize>
    decreases positions.len(),
{
    if positions.len() == 0 {
        Seq::empty()
    } else {
        let before = present_positions(positions.drop_last(), count);
        if positions.last() < count {
            before.push(positions.last())
        } else {
            before
        }
    }
}

/// Copies of the entries at `positions` (positions past the end are
/// skipped), in the order of `positions`: what the history dialog exports.
pub fn entries_at(history: &SessionHistory, positions: &[usize]) -> (r: Vec<HistoryEntry>)
    ensures
        ({
            let kept = present_positions(positions@, history@.len() as int);
            &&& r@.len() == kept.len()
            &&& forall|k: int| 0 <= k < kept.len() ==> same_entry(#[trigger] r@[k], history@[kept[k] as int])
        }),
{
    let entries = history.get_entries();
    let mut out: Vec<HistoryEntry> = Vec::new();
    let mut i: usize = 0;
    while i < positions.len()
        invariant
            i <= positions.len(),
            entries@ == history@,
            ({
                let kept = present_positions(positions@.take(i as int), history@.len() as int);
                &&& out@.len() == kept.len()
                &&& forall|k: int| 0 <= k < kept.len() ==> same_entry(#[trigger] out@[k], history@[kept[k] as int])
            }),
        decreases positions.len() - i,
    {
        assert(positions@.take(i + 1).drop_last() =~= positions@.take(i as int));
        let p = positions[i];
        if p < entries.len() {
            out.push(copy_entry(&entries[p]));
        }
        i = i + 1;
    }
    assert(positions@.take(positions.len() as int) =~= positions@);
    out
}

impl HistoryEntry {
    /// The entry on one line and its inputs and outputs on two more:
    /// "[date time] Type", "  Inputs:  ...", "  Outputs: ...".
    pub fn to_string(&self) -> (r: String)
        ensures
            r@ == "["@ + stamp_date(self.timestamp) + " "@ + stamp_time(self.timestamp) + "] "@
                + type_label(self.entry_type) + "\n  Inputs:  "@ + self.inputs.json@
                + "\n  Outputs: "@ + self.outputs.json@,
    {
        let (date, time) = format_timestamp(self.timestamp);
        let mut r = String::new();
        push_text(&mut r, "[");
        push_text(&mut r, date.as_str());
        push_text(&mut r, " ");
        push_text(&mut r, time.as_str());
        push_text(&mut r, "] ");
        push_text(&mut r, self.entry_type.label());
        push_text(&mut r, "\n  Inputs:  ");
        push_text(&mut r, self.inputs.json.as_str());
        push_text(&mut r, "\n  Outputs: ");
        push_text(&mut r, self.outputs.json.as_str());
        assert(r@ =~= "["@ + stamp_date(self.timestamp) + " "@ + stamp_time(self.timestamp) + "] "@
            + type_label(self.entry_type) + "\n  Inputs:  "@ + self.inputs.json@ + "\n  Outputs: "@
            + self.outputs.json@);
        r
    }
}

/// The status after exporting `count` entries to `path`.
pub fn export_status(count: usize, path: &str) -> (r: String)
    ensures
        r@ == "✓ Exported "@ + decimal_text(count as nat) + " entries to "@ + path@,
{
    let mut digits: Vec<char> = Vec::new();
    crate::text::push_decimal(&mut digits, count as u64);
    let mut r = String::from_str("✓ Exported ");
    push_chars(&mut r, &digits);
    push_text(&mut r, " entries to ");
    push_text(&mut r, path);
    r
}

} // verus!
