//! Gauge tables: named tables of (gauge key, pounds per square foot).
//!
//! A psf value is carried as the bit pattern of the IEEE-754 double the
//! calculator computes with (`f64::to_bits`); tables store, find and merge
//! values without reading them.
use vstd::prelude::*;

use crate::keys::{decimal_value, divides, read_decimal, Decimal};
use crate::order::{
    key_compare, key_order, lemma_key_order_antisymmetric, lemma_key_order_transitive,
    lemma_text_order_antisym, lemma_text_order_trans, lemma_text_order_zero, text_compare,
    text_order,
};
use crate::text::{
    chars_of, signed_decimal, signed_text, string_of, to_uppercase, trim, trim_text, trimmed_chars,
    uppercase_of, upper_text, is_ascii_text, ascii_upper_text, lemma_trim_idempotent,
};

verus! {

broadcast use vstd::string::group_string_axioms;

/// The table used when none is chosen.
pub const DEFAULT_TABLE_NAME: &'static str = "HR/HRPO/CR";

/// The gauge used when none is chosen.
pub const DEFAULT_GAUGE_KEY: &'static str = "16";

/// Names accepted for a table (compared ignoring case) and the table each
/// one stands for: aliases first, then the built-in tables' own names.
pub open spec fn table_name_pairs() -> Seq<(Seq<char>, Seq<char>)> {
    seq![
        ("HR/HRPO/CR/EG"@, "HR/HRPO/CR"@),
        ("HR Floor Plate"@, "HR FLOOR PLATE"@),
        ("HDP (Mill Plate)"@, "HR FLOOR PLATE"@),
        ("HR/HRPO/CR"@, "HR/HRPO/CR"@),
        ("GALV/JK/BOND"@, "GALV/JK/BOND"@),
        ("ALUMINIZED"@, "ALUMINIZED"@),
        ("ALUMINUM"@, "ALUMINUM"@),
        ("HR FLOOR PLATE"@, "HR FLOOR PLATE"@),
        ("HOT ROLLED PLATE"@, "HOT ROLLED PLATE"@),
        ("STAINLESS"@, "STAINLESS"@),
    ]
}

/// The first pair (from position `k` on) whose name equals `upper` once
/// upper-cased.
pub open spec fn name_lookup(upper: Seq<char>, k: int) -> Option<Seq<char>>
    decreases table_name_pairs().len() - k,
{
    if k < 0 || k >= table_name_pairs().len() {
        None
    } else if upper_text(table_name_pairs()[k].0) == upper {
        Some(table_name_pairs()[k].1)
    } else {
        name_lookup(upper, k + 1)
    }
}

/// The canonical name of a table: an alias or built-in name (ignoring case)
/// gives the built-in name; any other name is kept as given, trimmed.
pub open spec fn canonical_table_name(name: Seq<char>) -> Seq<char> {
    let t = trim(name);
    match name_lookup(upper_text(t), 0) {
        Some(target) => target,
        None => t,
    }
}

proof fn lemma_pair_names_ascii()
    ensures
        forall|k: int| 0 <= k < 10 ==> is_ascii_text(#[trigger] table_name_pairs()[k].0),
        forall|k: int| 0 <= k < 10 ==> is_ascii_text(#[trigger] table_name_pairs()[k].1),
{
    reveal_strlit("HR/HRPO/CR/EG");
    reveal_strlit("HR Floor Plate");
    reveal_strlit("HDP (Mill Plate)");
    reveal_strlit("HR/HRPO/CR");
    reveal_strlit("GALV/JK/BOND");
    reveal_strlit("ALUMINIZED");
    reveal_strlit("ALUMINUM");
    reveal_strlit("HR FLOOR PLATE");
    reveal_strlit("HOT ROLLED PLATE");
    reveal_strlit("STAINLESS");
}

proof fn lemma_upper_unchanged(s: Seq<char>)
    requires
        forall|i: int| 0 <= i < s.len() ==> (#[trigger] s[i] as int) < 128 && !('a' <= s[i] && s[i] <= 'z'),
    ensures
        upper_text(s) == s,
{
    assert(ascii_upper_text(s) =~= s);
}

proof fn lemma_trim_unchanged(s: Seq<char>)
    requires
        s.len() > 0,
        !crate::text::is_white_space(s[0]),
        !crate::text::is_white_space(s.last()),
    ensures
        trim(s) == s,
{
}

/// What upper-casing makes of each accepted name.
proof fn lemma_pair_uppers()
    ensures
        upper_text(table_name_pairs()[0].0) == "HR/HRPO/CR/EG"@,
        upper_text(table_name_pairs()[1].0) == "HR FLOOR PLATE"@,
        upper_text(table_name_pairs()[2].0) == "HDP (MILL PLATE)"@,
        forall|k: int| 3 <= k < 10 ==> upper_text(#[trigger] table_name_pairs()[k].0) == table_name_pairs()[k].0,
        forall|k: int| 3 <= k < 10 ==> table_name_pairs()[k].1 == table_name_pairs()[k].0,
{
    lemma_pair_names_ascii();
    reveal_strlit("HR/HRPO/CR/EG");
    reveal_strlit("HR Floor Plate");
    reveal_strlit("HDP (Mill Plate)");
    reveal_strlit("HR/HRPO/CR");
    reveal_strlit("GALV/JK/BOND");
    reveal_strlit("ALUMINIZED");
    reveal_strlit("ALUMINUM");
    reveal_strlit("HR FLOOR PLATE");
    reveal_strlit("HOT ROLLED PLATE");
    reveal_strlit("STAINLESS");
    reveal_strlit("HDP (MILL PLATE)");
    assert(ascii_upper_text("HR Floor Plate"@) =~= "HR FLOOR PLATE"@);
    assert(ascii_upper_text("HDP (Mill Plate)"@) =~= "HDP (MILL PLATE)"@);
    let p = table_name_pairs();
    assert forall|k: int| 3 <= k < 10 implies upper_text(#[trigger] p[k].0) == p[k].0 by {
        lemma_upper_unchanged(p[k].0);
    }
    lemma_upper_unchanged(p[0].0);
}

proof fn lemma_lookup_gives_target(upper: Seq<char>, k: int)
    requires
        name_lookup(upper, k) is Some,
    ensures
        exists|j: int| 0 <= j < 10 && name_lookup(upper, k) == Some(#[trigger] table_name_pairs()[j].1),
    decreases table_name_pairs().len() - k,
{
    if upper_text(table_name_pairs()[k].0) != upper {
        lemma_lookup_gives_target(upper, k + 1);
    }
}

/// Each table name that an accepted name stands for is its own canonical
/// name.
proof fn lemma_targets_canonical()
    ensures
        forall|j: int| 0 <= j < 10 ==> canonical_table_name(#[trigger] table_name_pairs()[j].1) == table_name_pairs()[j].1,
{
    lemma_pair_uppers();
    lemma_pair_names_ascii();
    reveal_strlit("HR/HRPO/CR/EG");
    reveal_strlit("HR/HRPO/CR");
    reveal_strlit("GALV/JK/BOND");
    reveal_strlit("ALUMINIZED");
    reveal_strlit("ALUMINUM");
    reveal_strlit("HR FLOOR PLATE");
    reveal_strlit("HOT ROLLED PLATE");
    reveal_strlit("STAINLESS");
    reveal_strlit("HDP (MILL PLATE)");
    reveal_with_fuel(name_lookup, 11);
    let p = table_name_pairs();
    assert forall|j: int| 0 <= j < 10 implies canonical_table_name(#[trigger] p[j].1) == p[j].1 by {
        let t = p[j].1;
        lemma_trim_unchanged(t);
        lemma_upper_unchanged(t);
        assert("HR/HRPO/CR/EG"@ != t);
        assert("HDP (MILL PLATE)"@ != t);
        assert("HR FLOOR PLATE"@ != "HR/HRPO/CR"@);
        assert("HR/HRPO/CR"@[0] != "ALUMINIZED"@[0]);
        assert("HR/HRPO/CR"@ != "ALUMINIZED"@);
        assert("GALV/JK/BOND"@ != "ALUMINIZED"@);
        assert("ALUMINIZED"@.len() != "ALUMINUM"@.len());
        assert(name_lookup(t, 0) == Some(t));
    }
}

/// Normalizing a table name twice gives what normalizing it once gives.
pub proof fn lemma_canonical_table_name_idempotent(name: Seq<char>)
    ensures
        canonical_table_name(canonical_table_name(name)) == canonical_table_name(name),
{
    let t = trim(name);
    lemma_trim_idempotent(name);
    match name_lookup(upper_text(t), 0) {
        Some(target) => {
            lemma_lookup_gives_target(upper_text(t), 0);
            lemma_targets_canonical();
        },
        None => {},
    }
}

fn pair_at(k: usize) -> (r: (&'static str, &'static str))
    requires
        k < 10,
    ensures
        r.0@ == table_name_pairs()[k as int].0,
        r.1@ == table_name_pairs()[k as int].1,
        is_ascii_text(r.0@),
{
    proof {
        lemma_pair_names_ascii();
        assert(is_ascii_text(table_name_pairs()[k as int].0));
    }
    match k {
        0 => ("HR/HRPO/CR/EG", "HR/HRPO/CR"),
        1 => ("HR Floor Plate", "HR FLOOR PLATE"),
        2 => ("HDP (Mill Plate)", "HR FLOOR PLATE"),
        3 => ("HR/HRPO/CR", "HR/HRPO/CR"),
        4 => ("GALV/JK/BOND", "GALV/JK/BOND"),
        5 => ("ALUMINIZED", "ALUMINIZED"),
        6 => ("ALUMINUM", "ALUMINUM"),
        7 => ("HR FLOOR PLATE", "HR FLOOR PLATE"),
        8 => ("HOT ROLLED PLATE", "HOT ROLLED PLATE"),
        _ => ("STAINLESS", "STAINLESS"),
    }
}

/// Canonical table name (see `canonical_table_name`).
pub fn normalize_table_name(table_name: &str) -> (r: String)
    ensures
        r@ == canonical_table_name(table_name@),
{
    let t = trimmed_chars(table_name);
    let ts = string_of(&t);
    let upper = to_uppercase(ts.as_str());
    let mut k: usize = 0;
    while k < 10
        invariant
            k <= 10,
            upper@ == upper_text(trim(table_name@)),
            name_lookup(upper@, 0) == name_lookup(upper@, k as int),
        decreases 10 - k,
    {
        let (source, target) = pair_at(k);
        let su = to_uppercase(source);
        if su == upper {
            return String::from_str(target);
        }
        k = k + 1;
    }
    ts
}

/// Spreadsheet material codes and the tables they stand for.
pub open spec fn material_code_pairs() -> Seq<(Seq<char>, Seq<char>)> {
    seq![
        ("CRS"@, "HR/HRPO/CR"@),
        ("HRS"@, "HR/HRPO/CR"@),
        ("GALVS"@, "GALV/JK/BOND"@),
        ("ALUM"@, "ALUMINIZED"@),
        ("AL1"@, "ALUMINUM"@),
        ("HDP"@, "HR FLOOR PLATE"@),
        ("HRP"@, "HOT ROLLED PLATE"@),
        ("STAIN"@, "STAINLESS"@),
    ]
}

pub open spec fn material_lookup(code: Seq<char>, k: int) -> Option<Seq<char>>
    decreases material_code_pairs().len() - k,
{
    if k < 0 || k >= material_code_pairs().len() {
        None
    } else if material_code_pairs()[k].0 == code {
        Some(material_code_pairs()[k].1)
    } else {
        material_lookup(code, k + 1)
    }
}

/// Table for a spreadsheet material name: a known code (exact, after
/// trimming) gives its table, any other name is treated as a table name.
pub open spec fn material_table_name(material: Seq<char>) -> Seq<char> {
    let t = trim(material);
    match material_lookup(t, 0) {
        Some(target) => canonical_table_name(target),
        None => canonical_table_name(t),
    }
}

fn material_at(k: usize) -> (r: (&'static str, &'static str))
    requires
        k < 8,
    ensures
        r.0@ == material_code_pairs()[k as int].0,
        r.1@ == material_code_pairs()[k as int].1,
{
    match k {
        0 => ("CRS", "HR/HRPO/CR"),
        1 => ("HRS", "HR/HRPO/CR"),
        2 => ("GALVS", "GALV/JK/BOND"),
        3 => ("ALUM", "ALUMINIZED"),
        4 => ("AL1", "ALUMINUM"),
        5 => ("HDP", "HR FLOOR PLATE"),
        6 => ("HRP", "HOT ROLLED PLATE"),
        _ => ("STAIN", "STAINLESS"),
    }
}

/// Table name for a spreadsheet material name (see `material_table_name`).
pub fn normalize_source_material_name(material_type: &str) -> (r: String)
    ensures
        r@ == material_table_name(material_type@),
{
    let t = trim_owned(material_type);
    let mut k: usize = 0;
    while k < 8
        invariant
            k <= 8,
            t@ == trim(material_type@),
            material_lookup(t@, 0) == material_lookup(t@, k as int),
        decreases 8 - k,
    {
        let (code, target) = material_at(k);
        let c = String::from_str(code);
        if c == t {
            return normalize_table_name(target);
        }
        k = k + 1;
    }
    normalize_table_name(t.as_str())
}

fn trim_owned(s: &str) -> (r: String)
    ensures
        r@ == trim(s@),
{
    let v = trimmed_chars(s);
    string_of(&v)
}

// ---------------------------------------------------------------------------
// Gauge tables
// ---------------------------------------------------------------------------

/// One row of a gauge table.
#[derive(Clone, Debug)]
pub struct GaugeEntry {
    pub key: String,
    /// Pounds per square foot, as the bits of an IEEE-754 double.
    pub psf_bits: u64,
}

impl GaugeEntry {
    pub open spec fn row(&self) -> (Seq<char>, u64) {
        (self.key@, self.psf_bits)
    }
}

/// The rows of a list of entries.
pub open spec fn rows_of(entries: Seq<GaugeEntry>) -> Seq<(Seq<char>, u64)> {
    entries.map_values(|e: GaugeEntry| e.row())
}

/// The value of the first row whose key is `key`.
pub open spec fn first_value(rows: Seq<(Seq<char>, u64)>, key: Seq<char>) -> Option<u64>
    decreases rows.len(),
{
    if rows.len() == 0 {
        None
    } else if rows[0].0 == key {
        Some(rows[0].1)
    } else {
        first_value(rows.drop_first(), key)
    }
}

/// The values of the rows with key `key`, in row order.
pub open spec fn values_of_key(rows: Seq<(Seq<char>, u64)>, key: Seq<char>) -> Seq<u64>
    decreases rows.len(),
{
    if rows.len() == 0 {
        Seq::empty()
    } else if rows.last().0 == key {
        values_of_key(rows.drop_last(), key).push(rows.last().1)
    } else {
        values_of_key(rows.drop_last(), key)
    }
}

proof fn lemma_values_insert(s: Seq<(Seq<char>, u64)>, p: int, x: (Seq<char>, u64), key: Seq<char>)
    requires
        0 <= p <= s.len(),
        x.0 == key ==> forall|j: int| p <= j < s.len() ==> s[j].0 != key,
    ensures
        values_of_key(s.insert(p, x), key) == if x.0 == key {
            values_of_key(s, key).push(x.1)
        } else {
            values_of_key(s, key)
        },
    decreases s.len(),
{
    let t = s.insert(p, x);
    if p == s.len() {
        assert(t.drop_last() =~= s);
    } else {
        assert(t.drop_last() =~= s.drop_last().insert(p, x));
        assert(t.last() == s.last());
        lemma_values_insert(s.drop_last(), p, x, key);
    }
}

/// Rows in key order.
pub open spec fn rows_sorted(rows: Seq<(Seq<char>, u64)>) -> bool {
    forall|a: int, b: int| 0 <= a < b < rows.len() ==> key_order(rows[a].0, rows[b].0) <= 0
}

/// A gauge table: rows of (key, psf).
#[derive(Clone, Debug)]
pub struct GaugeTable {
    pub entries: Vec<GaugeEntry>,
}

impl View for GaugeTable {
    type V = Seq<(Seq<char>, u64)>;

    open spec fn view(&self) -> Seq<(Seq<char>, u64)> {
        rows_of(self.entries@)
    }
}

fn copy_entries(entries: &Vec<GaugeEntry>) -> (r: Vec<GaugeEntry>)
    ensures
        rows_of(r@) == rows_of(entries@),
{
    let mut r: Vec<GaugeEntry> = Vec::new();
    let mut i: usize = 0;
    while i < entries.len()
        invariant
            i <= entries.len(),
            r@.len() == i,
            rows_of(r@) == rows_of(entries@).take(i as int),
        decreases entries.len() - i,
    {
        let e = GaugeEntry { key: entries[i].key.clone(), psf_bits: entries[i].psf_bits };
        assert(e.row() == entries@[i as int].row());
        let ghost prev = r@;
        r.push(e);
        assert forall|j: int| 0 <= j < i + 1 implies rows_of(r@)[j] == rows_of(entries@).take(
            i + 1,
        )[j] by {
            if j < i {
                assert(r@[j] == prev[j]);
                assert(rows_of(prev)[j] == rows_of(entries@).take(i as int)[j]);
            }
        }
        assert(rows_of(r@) =~= rows_of(entries@).take(i + 1));
        i = i + 1;
    }
    assert(rows_of(entries@).take(entries.len() as int) =~= rows_of(entries@));
    r
}

proof fn lemma_first_value_found(rows: Seq<(Seq<char>, u64)>, key: Seq<char>, i: int)
    requires
        0 <= i < rows.len(),
        rows[i].0 == key,
        forall|j: int| 0 <= j < i ==> rows[j].0 != key,
    ensures
        first_value(rows, key) == Some(rows[i].1),
    decreases i,
{
    if i > 0 {
        lemma_first_value_found(rows.drop_first(), key, i - 1);
    }
}

proof fn lemma_first_value_absent(rows: Seq<(Seq<char>, u64)>, key: Seq<char>)
    requires
        forall|j: int| 0 <= j < rows.len() ==> rows[j].0 != key,
    ensures
        first_value(rows, key) is None,
    decreases rows.len(),
{
    if rows.len() > 0 {
        lemma_first_value_absent(rows.drop_first(), key);
    }
}

proof fn lemma_insert_multiset<A>(s: Seq<A>, i: int, a: A)
    requires
        0 <= i <= s.len(),
    ensures
        s.insert(i, a).to_multiset() =~= s.to_multiset().insert(a),
{
    broadcast use vstd::seq_lib::group_to_multiset_ensures;

    let t = s.insert(i, a);
    assert(t.remove(i) =~= s);
    assert(t[i] == a);
    assert(t.contains(a));
    assert(t.to_multiset().count(a) > 0);
}

proof fn lemma_rows_insert(e: Seq<GaugeEntry>, i: int, x: GaugeEntry)
    requires
        0 <= i <= e.len(),
    ensures
        rows_of(e.insert(i, x)) =~= rows_of(e).insert(i, x.row()),
{
}

proof fn lemma_rows_push(e: Seq<GaugeEntry>, x: GaugeEntry)
    ensures
        rows_of(e.push(x)) =~= rows_of(e).push(x.row()),
{
}

/// Sorts entries into key order (see `compare_keys`), keeping entries with
/// the same key in their original order.
pub fn sort_entries(entries: &mut Vec<GaugeEntry>)
    ensures
        rows_sorted(rows_of(final(entries)@)),
        rows_of(final(entries)@).to_multiset() == rows_of(old(entries)@).to_multiset(),
        forall|key: Seq<char>| #[trigger]
            values_of_key(rows_of(final(entries)@), key) == values_of_key(rows_of(old(entries)@), key),
{
    broadcast use vstd::seq_lib::group_to_multiset_ensures;

    let ghost orig = entries@;
    let mut out: Vec<GaugeEntry> = Vec::new();
    let n = entries.len();
    let mut i: usize = 0;
    while i < n
        invariant
            i <= n,
            n == orig.len(),
            entries@ == orig,
            rows_sorted(rows_of(out@)),
            rows_of(out@).to_multiset() == rows_of(orig.take(i as int)).to_multiset(),
            forall|key: Seq<char>| #[trigger]
                values_of_key(rows_of(out@), key) == values_of_key(rows_of(orig.take(i as int)), key),
        decreases n - i,
    {
        let x = GaugeEntry { key: entries[i].key.clone(), psf_bits: entries[i].psf_bits };
        assert(x.row() == orig[i as int].row());
        let mut p: usize = 0;
        while p < out.len() && key_compare(out[p].key.as_str(), x.key.as_str()) <= 0
            invariant
                p <= out.len(),
                forall|a: int| 0 <= a < p ==> key_order(#[trigger] out@[a].key@, x.key@) <= 0,
            decreases out.len() - p,
        {
            p = p + 1;
        }
        proof {
            let o = rows_of(out@);
            if p < out.len() {
                assert(key_order(out@[p as int].key@, x.key@) > 0);
                lemma_key_order_antisymmetric(out@[p as int].key@, x.key@);
            }
            let n2 = o.insert(p as int, x.row());
            assert forall|a: int, b: int| 0 <= a < b < n2.len() implies key_order(
                n2[a].0,
                n2[b].0,
            ) <= 0 by {
                if b < p {
                    assert(n2[a] == o[a] && n2[b] == o[b]);
                } else if b == p {
                    assert(n2[a] == o[a]);
                    assert(n2[b] == x.row());
                    assert(out@[a].key@ == o[a].0);
                } else if a < p {
                    assert(n2[a] == o[a] && n2[b] == o[b - 1]);
                    assert(out@[a].key@ == o[a].0);
                    assert(out@[p as int].key@ == o[p as int].0);
                    lemma_key_order_transitive(o[a].0, x.key@, o[p as int].0);
                    if b - 1 > p {
                        lemma_key_order_transitive(o[a].0, o[p as int].0, o[b - 1].0);
                    }
                } else if a == p {
                    assert(n2[a] == x.row() && n2[b] == o[b - 1]);
                    assert(out@[p as int].key@ == o[p as int].0);
                    if b - 1 > p {
                        lemma_key_order_transitive(x.key@, o[p as int].0, o[b - 1].0);
                    }
                } else {
                    assert(n2[a] == o[a - 1] && n2[b] == o[b - 1]);
                }
            }
            lemma_rows_insert(out@, p as int, x);
            lemma_insert_multiset(o, p as int, x.row());
            assert forall|j: int| p <= j < o.len() implies o[j].0 != x.key@ by {
                if o[j].0 == x.key@ {
                    if j > p {
                        assert(key_order(o[p as int].0, o[j].0) <= 0);
                    }
                    assert(out@[p as int].key@ == o[p as int].0);
                    assert(key_order(o[p as int].0, x.key@) > 0);
                }
            }
            let t_prev = rows_of(orig.take(i as int));
            assert forall|key: Seq<char>| #[trigger]
                values_of_key(n2, key) == values_of_key(rows_of(orig.take(i + 1)), key) by {
                lemma_values_insert(o, p as int, x.row(), key);
                assert(rows_of(orig.take(i + 1)).drop_last() =~= t_prev);
            }
            assert(orig.take(i + 1) =~= orig.take(i as int).push(orig[i as int]));
            lemma_rows_push(orig.take(i as int), orig[i as int]);
        }
        let ghost before = out@;
        out.insert(p, x);
        proof {
            assert(out@ == before.insert(p as int, x));
            let t = rows_of(orig.take(i as int));
            assert(rows_of(orig.take(i + 1)) =~= t.push(orig[i as int].row()));
            t.to_multiset_ensures();
            assert(t.push(orig[i as int].row()).to_multiset() =~= t.to_multiset().insert(
                orig[i as int].row(),
            ));
        }
        i = i + 1;
    }
    assert(orig.take(n as int) =~= orig);
    *entries = out;
}

impl GaugeTable {
    /// A table of the given (key, psf bits) rows, in key order.
    pub fn new(rows: &[(&str, u64)]) -> (r: GaugeTable)
        ensures
            rows_sorted(r@),
            r@.to_multiset() == Seq::new(rows@.len(), |i: int| (rows@[i].0@, rows@[i].1)).to_multiset(),
            forall|key: Seq<char>| #[trigger]
                values_of_key(r@, key) == values_of_key(
                    Seq::new(rows@.len(), |i: int| (rows@[i].0@, rows@[i].1)),
                    key,
                ),
    {
        let mut entries: Vec<GaugeEntry> = Vec::new();
        let mut i: usize = 0;
        while i < rows.len()
            invariant
                i <= rows.len(),
                rows_of(entries@) == Seq::new(i as nat, |k: int| (rows@[k].0@, rows@[k].1)),
            decreases rows.len() - i,
        {
            let (k, v) = rows[i];
            let e = GaugeEntry { key: String::from_str(k), psf_bits: v };
            proof {
                lemma_rows_push(entries@, e);
            }
            entries.push(e);
            assert(rows_of(entries@) =~= Seq::new((i + 1) as nat, |k: int| (rows@[k].0@, rows@[k].1)));
            i = i + 1;
        }
        sort_entries(&mut entries);
        GaugeTable { entries }
    }

    /// The psf of the first row with key `key`.
    pub fn get(&self, key: &str) -> (r: Option<u64>)
        ensures
            r == first_value(self@, key@),
    {
        let k = String::from_str(key);
        let mut i: usize = 0;
        while i < self.entries.len()
            invariant
                i <= self.entries.len(),
                k@ == key@,
                forall|j: int| 0 <= j < i ==> self@[j].0 != key@,
            decreases self.entries.len() - i,
        {
            if self.entries[i].key == k {
                proof {
                    lemma_first_value_found(self@, key@, i as int);
                }
                return Some(self.entries[i].psf_bits);
            }
            i = i + 1;
        }
        proof {
            lemma_first_value_absent(self@, key@);
        }
        None
    }

    /// The key of the first row.
    pub fn first_key(&self) -> (r: Option<&str>)
        ensures
            match r {
                Some(k) => self@.len() > 0 && k@ == self@[0].0,
                None => self@.len() == 0,
            },
    {
        if self.entries.len() > 0 {
            Some(self.entries[0].key.as_str())
        } else {
            None
        }
    }

    /// The rows, in order.
    pub fn entries(&self) -> (r: &[GaugeEntry])
        ensures
            rows_of(r@) == self@,
    {
        self.entries.as_slice()
    }

    /// A table holding the same rows.
    pub fn duplicate(&self) -> (r: GaugeTable)
        ensures
            r@ == self@,
    {
        GaugeTable { entries: copy_entries(&self.entries) }
    }
}

// ---------------------------------------------------------------------------
// Named tables
// ---------------------------------------------------------------------------

/// The item paired with the first `name` in `items`.
pub open spec fn first_named<T>(items: Seq<(Seq<char>, T)>, name: Seq<char>) -> Option<T>
    decreases items.len(),
{
    if items.len() == 0 {
        None
    } else if items[0].0 == name {
        Some(items[0].1)
    } else {
        first_named(items.drop_first(), name)
    }
}

pub proof fn lemma_first_named_found<T>(items: Seq<(Seq<char>, T)>, name: Seq<char>, i: int)
    requires
        0 <= i < items.len(),
        items[i].0 == name,
        forall|j: int| 0 <= j < i ==> items[j].0 != name,
    ensures
        first_named(items, name) == Some(items[i].1),
    decreases i,
{
    if i > 0 {
        lemma_first_named_found(items.drop_first(), name, i - 1);
    }
}

pub proof fn lemma_first_named_absent<T>(items: Seq<(Seq<char>, T)>, name: Seq<char>)
    requires
        forall|j: int| 0 <= j < items.len() ==> items[j].0 != name,
    ensures
        first_named(items, name) is None,
    decreases items.len(),
{
    if items.len() > 0 {
        lemma_first_named_absent(items.drop_first(), name);
    }
}

/// Gauge tables by name, kept in name order (the order of `str`).
#[derive(Debug)]
pub struct GaugeTables {
    tables: Vec<(String, GaugeTable)>,
}

impl GaugeTables {
    #[verifier::type_invariant]
    spec fn names_ascending(self) -> bool {
        forall|a: int, b: int|
            0 <= a < b < self.tables@.len() ==> text_order(
                self.tables@[a].0@,
                self.tables@[b].0@,
            ) < 0
    }

    /// The table names, in order.
    pub closed spec fn names(&self) -> Seq<Seq<char>> {
        Seq::new(self.tables@.len(), |i: int| self.tables@[i].0@)
    }

    /// (name, rows) of each table, in name order.
    pub closed spec fn named_rows(&self) -> Seq<(Seq<char>, Seq<(Seq<char>, u64)>)> {
        Seq::new(self.tables@.len(), |i: int| (self.tables@[i].0@, self.tables@[i].1@))
    }

    /// The rows of the table named `name`, if there is one.
    pub closed spec fn lookup(&self, name: Seq<char>) -> Option<Seq<(Seq<char>, u64)>> {
        first_named(self.named_rows(), name)
    }

    proof fn lemma_lookup_at(&self, i: int)
        requires
            0 <= i < self.tables@.len(),
            self.names_ascending(),
        ensures
            self.lookup(self.tables@[i].0@) == Some(self.tables@[i].1@),
    {
        let name = self.tables@[i].0@;
        let nr = self.named_rows();
        assert forall|j: int| 0 <= j < i implies nr[j].0 != name by {
            assert(text_order(self.tables@[j].0@, self.tables@[i].0@) < 0);
            lemma_text_order_zero(self.tables@[j].0@, name);
        }
        lemma_first_named_found(nr, name, i);
    }

    proof fn lemma_lookup_absent(&self, name: Seq<char>)
        requires
            forall|i: int| 0 <= i < self.tables@.len() ==> self.tables@[i].0@ != name,
        ensures
            self.lookup(name) is None,
    {
        lemma_first_named_absent(self.named_rows(), name);
    }

    /// No tables.
    pub fn new() -> (r: GaugeTables)
        ensures
            r.names().len() == 0,
            forall|n: Seq<char>| #[trigger] r.lookup(n) is None,
    {
        let r = GaugeTables { tables: Vec::new() };
        proof {
            assert forall|n: Seq<char>| #[trigger] r.lookup(n) is None by {
                r.lemma_lookup_absent(n);
            }
        }
        r
    }

    /// Number of tables.
    pub fn len(&self) -> (r: usize)
        ensures
            r == self.names().len(),
    {
        self.tables.len()
    }

    pub fn is_empty(&self) -> (r: bool)
        ensures
            r == (self.names().len() == 0),
    {
        self.tables.len() == 0
    }

    /// Position of the table named `name`.
    fn position(&self, name: &Vec<char>) -> (r: Option<usize>)
        ensures
            match r {
                Some(i) => i < self.tables@.len() && self.tables@[i as int].0@ == name@,
                None => forall|i: int| 0 <= i < self.tables@.len() ==> self.tables@[i].0@ != name@,
            },
    {
        let mut i: usize = 0;
        while i < self.tables.len()
            invariant
                i <= self.tables.len(),
                forall|j: int| 0 <= j < i ==> self.tables@[j].0@ != name@,
            decreases self.tables.len() - i,
        {
            let c = chars_of(self.tables[i].0.as_str());
            if crate::text::same_chars(&c, name) {
                return Some(i);
            }
            i = i + 1;
        }
        None
    }

    /// The table named `name`.
    pub fn get(&self, name: &str) -> (r: Option<&GaugeTable>)
        ensures
            match r {
                Some(t) => self.lookup(name@) == Some(t@),
                None => self.lookup(name@) is None,
            },
    {
        proof {
            use_type_invariant(self);
        }
        let n = chars_of(name);
        match self.position(&n) {
            Some(i) => {
                proof {
                    self.lemma_lookup_at(i as int);
                }
                Some(&self.tables[i].1)
            },
            None => {
                proof {
                    self.lemma_lookup_absent(name@);
                }
                None
            },
        }
    }

    /// Whether a table is named `name`.
    pub fn contains_key(&self, name: &str) -> (r: bool)
        ensures
            r == (self.lookup(name@) is Some),
    {
        self.get(name).is_some()
    }

    /// The table names, in order.
    pub fn keys(&self) -> (r: Vec<String>)
        ensures
            r@.len() == self.names().len(),
            forall|i: int| 0 <= i < r@.len() ==> #[trigger] r@[i]@ == self.names()[i],
            forall|i: int, j: int|
                0 <= i < j < r@.len() ==> text_order(#[trigger] r@[i]@, #[trigger] r@[j]@) < 0,
            forall|n: Seq<char>|
                #[trigger] self.lookup(n) is Some <==> exists|i: int| 0 <= i < r@.len() && #[trigger] r@[i]@ == n,
    {
        proof {
            use_type_invariant(self);
        }
        let mut r: Vec<String> = Vec::new();
        let mut i: usize = 0;
        while i < self.tables.len()
            invariant
                i <= self.tables.len(),
                r@.len() == i,
                forall|k: int| 0 <= k < i ==> #[trigger] r@[k]@ == self.tables@[k].0@,
            decreases self.tables.len() - i,
        {
            r.push(self.tables[i].0.clone());
            i = i + 1;
        }
        proof {
            assert forall|n: Seq<char>|
                #[trigger] self.lookup(n) is Some <==> exists|i: int| 0 <= i < r@.len() && #[trigger] r@[i]@ == n by {
                if exists|i: int| 0 <= i < r@.len() && #[trigger] r@[i]@ == n {
                    let i = choose|i: int| 0 <= i < r@.len() && #[trigger] r@[i]@ == n;
                    self.lemma_lookup_at(i);
                } else {
                    assert forall|i: int| 0 <= i < self.tables@.len() implies self.tables@[i].0@ != n by {
                        assert(r@[i]@ == self.tables@[i].0@);
                    }
                    self.lemma_lookup_absent(n);
                }
            }
        }
        r
    }

    /// The name and table at position `i` of the name order.
    pub fn entry_at(&self, i: usize) -> (r: (&String, &GaugeTable))
        requires
            i < self.names().len(),
        ensures
            r.0@ == self.names()[i as int],
            self.lookup(r.0@) == Some(r.1@),
    {
        proof {
            use_type_invariant(self);
            self.lemma_lookup_at(i as int);
        }
        (&self.tables[i].0, &self.tables[i].1)
    }

    /// Adds (or replaces) the table named `name`.
    pub fn insert(&mut self, name: String, table: GaugeTable)
        ensures
            forall|n: Seq<char>| #[trigger]
                final(self).lookup(n) == if n == name@ {
                    Some(table@)
                } else {
                    old(self).lookup(n)
                },
    {
        proof {
            use_type_invariant(&*self);
        }
        let ghost old_self = *self;
        let mut v: Vec<(String, GaugeTable)> = Vec::new();
        std::mem::swap(&mut v, &mut self.tables);
        let ghost o = v@;
        assert(o == old_self.tables@);
        let nc = chars_of(name.as_str());
        let mut p: usize = 0;
        while p < v.len() && text_compare(&chars_of(v[p].0.as_str()), &nc) < 0
            invariant
                p <= v.len(),
                v@ == o,
                nc@ == name@,
                forall|a: int| 0 <= a < p ==> text_order(#[trigger] o[a].0@, name@) < 0,
            decreases v.len() - p,
        {
            p = p + 1;
        }
        let replace = p < v.len() && text_compare(&chars_of(v[p].0.as_str()), &nc) == 0;
        let ghost item = (name, table);
        if replace {
            proof {
                lemma_text_order_zero(o[p as int].0@, name@);
            }
            v.set(p, (name, table));
        } else {
            v.insert(p, (name, table));
        }
        proof {
            let n2 = v@;
            if p < o.len() && !replace {
                lemma_text_order_antisym(o[p as int].0@, name@);
            }
            assert forall|a: int, b: int| 0 <= a < b < n2.len() implies text_order(
                n2[a].0@,
                n2[b].0@,
            ) < 0 by {
                if replace {
                    if a == p {
                        if b > p {
                            lemma_text_order_zero(o[p as int].0@, name@);
                        }
                    } else if b == p {
                        lemma_text_order_zero(o[p as int].0@, name@);
                    }
                } else {
                    if b < p {
                    } else if b == p {
                    } else if a < p {
                        assert(n2[b] == o[b - 1]);
                        lemma_text_order_trans(o[a].0@, name@, o[p as int].0@);
                        if b - 1 > p {
                            lemma_text_order_trans(o[a].0@, o[p as int].0@, o[b - 1].0@);
                        }
                        if text_order(o[a].0@, o[b - 1].0@) == 0 {
                            lemma_text_order_zero(o[a].0@, o[b - 1].0@);
                        }
                    } else if a == p {
                        assert(n2[b] == o[b - 1]);
                        if b - 1 > p {
                            lemma_text_order_trans(name@, o[p as int].0@, o[b - 1].0@);
                            if text_order(name@, o[b - 1].0@) == 0 {
                                lemma_text_order_zero(name@, o[b - 1].0@);
                                lemma_text_order_antisym(o[p as int].0@, o[b - 1].0@);
                            }
                        }
                    } else {
                        assert(n2[a] == o[a - 1] && n2[b] == o[b - 1]);
                    }
                }
            }
        }
        self.tables = v;
        proof {
            let s = *self;
            assert forall|n: Seq<char>| #[trigger]
                s.lookup(n) == if n == name@ {
                    Some(table@)
                } else {
                    old_self.lookup(n)
                } by {
                if n == name@ {
                    s.lemma_lookup_at(p as int);
                } else {
                    if exists|i: int| 0 <= i < o.len() && o[i].0@ == n {
                        let i = choose|i: int| 0 <= i < o.len() && o[i].0@ == n;
                        old_self.lemma_lookup_at(i);
                        let j = if replace || i < p {
                            i
                        } else {
                            i + 1
                        };
                        assert(s.tables@[j] == o[i]);
                        s.lemma_lookup_at(j);
                    } else {
                        old_self.lemma_lookup_absent(n);
                        assert forall|i: int| 0 <= i < s.tables@.len() implies s.tables@[i].0@ != n by {
                            if replace {
                                if i != p {
                                    assert(s.tables@[i] == o[i]);
                                }
                            } else if i < p {
                                assert(s.tables@[i] == o[i]);
                            } else if i > p {
                                assert(s.tables@[i] == o[i - 1]);
                            }
                        }
                        s.lemma_lookup_absent(n);
                    }
                }
            }
        }
    }
}

// ---------------------------------------------------------------------------
// Merging override tables
// ---------------------------------------------------------------------------

/// `rows` with `row`'s value set on the first row with `row`'s key, or with
/// `row` appended when no row has that key.
pub open spec fn upsert(rows: Seq<(Seq<char>, u64)>, row: (Seq<char>, u64)) -> Seq<(Seq<char>, u64)>
    decreases rows.len(),
{
    if rows.len() == 0 {
        seq![row]
    } else if rows[0].0 == row.0 {
        rows.update(0, row)
    } else {
        seq![rows[0]] + upsert(rows.drop_first(), row)
    }
}

/// Every row of `more`, in order, upserted into `rows`.
pub open spec fn upsert_all(rows: Seq<(Seq<char>, u64)>, more: Seq<(Seq<char>, u64)>) -> Seq<(Seq<char>, u64)>
    decreases more.len(),
{
    if more.len() == 0 {
        rows
    } else {
        upsert_all(upsert(rows, more[0]), more.drop_first())
    }
}

/// The table `result` holds after merging override `over` into built-in
/// `base`: unchanged without an override, the override when there is no
/// built-in table, else the built-in rows with every override row upserted,
/// put in key order (rows with the same key keeping their order).
pub open spec fn merge_outcome(base: Option<Seq<(Seq<char>, u64)>>, over: Option<Seq<(Seq<char>, u64)>>, result: Option<Seq<(Seq<char>, u64)>>) -> bool {
    match over {
        None => result == base,
        Some(o) => match base {
            None => result == Some(o),
            Some(b) => result is Some && rows_sorted(result.unwrap())
                && result.unwrap().to_multiset() == upsert_all(b, o).to_multiset() && forall|key: Seq<char>|
                #[trigger] values_of_key(result.unwrap(), key) == values_of_key(upsert_all(b, o), key),
        },
    }
}

/// Some row of `rows` has key `key`.
pub open spec fn has_key(rows: Seq<(Seq<char>, u64)>, key: Seq<char>) -> bool {
    exists|i: int| 0 <= i < rows.len() && #[trigger] rows[i].0 == key
}

/// No two rows of `rows` share a key.
pub open spec fn keys_distinct(rows: Seq<(Seq<char>, u64)>) -> bool {
    forall|i: int, j: int| 0 <= i < j < rows.len() ==> #[trigger] rows[i].0 != #[trigger] rows[j].0
}

proof fn lemma_upsert_rows(rows: Seq<(Seq<char>, u64)>, row: (Seq<char>, u64))
    requires
        keys_distinct(rows),
    ensures
        keys_distinct(upsert(rows, row)),
        forall|x: (Seq<char>, u64)|
            #[trigger] upsert(rows, row).contains(x) <==> (if x.0 == row.0 {
                x == row
            } else {
                rows.contains(x)
            }),
    decreases rows.len(),
{
    let u = upsert(rows, row);
    if rows.len() == 0 {
        assert forall|x: (Seq<char>, u64)| #[trigger] u.contains(x) <==> (if x.0 == row.0 {
            x == row
        } else {
            rows.contains(x)
        }) by {
            if u.contains(x) {
                assert(u[0] == x);
            }
            if x == row {
                assert(u[0] == x);
            }
        }
    } else if rows[0].0 == row.0 {
        assert forall|x: (Seq<char>, u64)| #[trigger] u.contains(x) <==> (if x.0 == row.0 {
            x == row
        } else {
            rows.contains(x)
        }) by {
            if u.contains(x) {
                let i = choose|i: int| 0 <= i < u.len() && u[i] == x;
                if i > 0 {
                    assert(rows[i] == x);
                }
            }
            if x.0 == row.0 && x == row {
                assert(u[0] == x);
            }
            if x.0 != row.0 && rows.contains(x) {
                let i = choose|i: int| 0 <= i < rows.len() && rows[i] == x;
                assert(i != 0);
                assert(u[i] == x);
            }
        }
    } else {
        let tail = rows.drop_first();
        assert forall|i: int, j: int| 0 <= i < j < tail.len() implies #[trigger] tail[i].0 != #[trigger] tail[j].0 by {
            assert(tail[i] == rows[i + 1] && tail[j] == rows[j + 1]);
        }
        lemma_upsert_rows(tail, row);
        let ut = upsert(tail, row);
        assert(u == seq![rows[0]] + ut);
        assert forall|x: (Seq<char>, u64)| #[trigger] u.contains(x) <==> (if x.0 == row.0 {
            x == row
        } else {
            rows.contains(x)
        }) by {
            if u.contains(x) {
                let i = choose|i: int| 0 <= i < u.len() && u[i] == x;
                if i > 0 {
                    assert(ut[i - 1] == x);
                    assert(ut.contains(x));
                    if x.0 != row.0 {
                        let k = choose|k: int| 0 <= k < tail.len() && tail[k] == x;
                        assert(rows[k + 1] == x);
                    }
                } else {
                    assert(rows[0] == x);
                }
            }
            if x.0 == row.0 && x == row {
                assert(ut.contains(x));
                let k = choose|k: int| 0 <= k < ut.len() && ut[k] == x;
                assert(u[k + 1] == x);
            }
            if x.0 != row.0 && rows.contains(x) {
                let i = choose|i: int| 0 <= i < rows.len() && rows[i] == x;
                if i == 0 {
                    assert(u[0] == x);
                } else {
                    assert(tail[i - 1] == x);
                    assert(ut.contains(x));
                    let k = choose|k: int| 0 <= k < ut.len() && ut[k] == x;
                    assert(u[k + 1] == x);
                }
            }
        }
        assert forall|i: int, j: int| 0 <= i < j < u.len() implies #[trigger] u[i].0 != #[trigger] u[j].0 by {
            if i == 0 {
                assert(u[j] == ut[j - 1]);
                assert(ut.contains(ut[j - 1]));
                if ut[j - 1].0 == row.0 {
                } else {
                    assert(tail.contains(ut[j - 1]));
                    let k = choose|k: int| 0 <= k < tail.len() && tail[k] == ut[j - 1];
                    assert(rows[k + 1] == tail[k]);
                }
            } else {
                assert(u[i] == ut[i - 1] && u[j] == ut[j - 1]);
            }
        }
    }
}

proof fn lemma_upsert_all_rows(base: Seq<(Seq<char>, u64)>, over: Seq<(Seq<char>, u64)>)
    requires
        keys_distinct(base),
        keys_distinct(over),
    ensures
        keys_distinct(upsert_all(base, over)),
        forall|x: (Seq<char>, u64)|
            #[trigger] upsert_all(base, over).contains(x) <==> (if has_key(over, x.0) {
                over.contains(x)
            } else {
                base.contains(x)
            }),
    decreases over.len(),
{
    if over.len() > 0 {
        let head = over[0];
        let tail = over.drop_first();
        let b2 = upsert(base, head);
        lemma_upsert_rows(base, head);
        assert forall|i: int, j: int| 0 <= i < j < tail.len() implies #[trigger] tail[i].0 != #[trigger] tail[j].0 by {
            assert(tail[i] == over[i + 1] && tail[j] == over[j + 1]);
        }
        lemma_upsert_all_rows(b2, tail);
        assert forall|x: (Seq<char>, u64)| #[trigger] upsert_all(base, over).contains(x) <==> (if has_key(over, x.0) {
            over.contains(x)
        } else {
            base.contains(x)
        }) by {
            if has_key(tail, x.0) {
                let k = choose|k: int| 0 <= k < tail.len() && #[trigger] tail[k].0 == x.0;
                assert(over[k + 1].0 == x.0);
                assert(head.0 != x.0);
                if over.contains(x) {
                    let m = choose|m: int| 0 <= m < over.len() && over[m] == x;
                    assert(m != 0);
                    assert(tail[m - 1] == x);
                }
                if tail.contains(x) {
                    let m = choose|m: int| 0 <= m < tail.len() && tail[m] == x;
                    assert(over[m + 1] == x);
                }
            } else if x.0 == head.0 {
                assert(over[0].0 == x.0);
                if over.contains(x) {
                    let m = choose|m: int| 0 <= m < over.len() && over[m] == x;
                    if m > 0 {
                        assert(tail[m - 1].0 == x.0);
                    }
                }
                if x == head {
                    assert(over[0] == x);
                }
            } else {
                if has_key(over, x.0) {
                    let m = choose|m: int| 0 <= m < over.len() && #[trigger] over[m].0 == x.0;
                    assert(m != 0);
                    assert(tail[m - 1].0 == x.0);
                }
            }
        }
    }
}

/// When neither the built-in table nor the override repeats a key, the merged
/// table holds a row exactly when the override holds it, or, for a key the
/// override does not name, when the built-in table holds it: the override
/// wins on every key it names and every other built-in row is kept.
pub proof fn lemma_merge_override_wins(
    base: Seq<(Seq<char>, u64)>,
    over: Seq<(Seq<char>, u64)>,
    merged: Seq<(Seq<char>, u64)>,
    row: (Seq<char>, u64),
)
    requires
        keys_distinct(base),
        keys_distinct(over),
        merge_outcome(Some(base), Some(over), Some(merged)),
    ensures
        merged.contains(row) <==> (if has_key(over, row.0) {
            over.contains(row)
        } else {
            base.contains(row)
        }),
{
    broadcast use vstd::seq_lib::group_to_multiset_ensures;
    lemma_upsert_all_rows(base, over);
    assert(merged.to_multiset() == upsert_all(base, over).to_multiset());
    assert(merged.contains(row) <==> merged.to_multiset().count(row) > 0);
    assert(upsert_all(base, over).contains(row) <==> upsert_all(base, over).to_multiset().count(row) > 0);
}

/// Merging keeps every table name of either side and no other: a name has a
/// merged table exactly when it has a built-in table or an override table,
/// and a name with no override table keeps its built-in table unchanged (so
/// merging no overrides changes nothing).
pub proof fn lemma_merge_table_names(before: GaugeTables, overrides: GaugeTables, after: GaugeTables)
    requires
        forall|n: Seq<char>| merge_outcome(before.lookup(n), overrides.lookup(n), #[trigger] after.lookup(n)),
    ensures
        forall|n: Seq<char>| #[trigger] after.lookup(n) is Some <==> (before.lookup(n) is Some || overrides.lookup(n) is Some),
        forall|n: Seq<char>| overrides.lookup(n) is None ==> #[trigger] after.lookup(n) == before.lookup(n),
{
    assert forall|n: Seq<char>| #[trigger] after.lookup(n) is Some <==> (before.lookup(n) is Some || overrides.lookup(n) is Some) by {
        assert(merge_outcome(before.lookup(n), overrides.lookup(n), after.lookup(n)));
    }
    assert forall|n: Seq<char>| overrides.lookup(n) is None implies #[trigger] after.lookup(n) == before.lookup(n) by {
        assert(merge_outcome(before.lookup(n), overrides.lookup(n), after.lookup(n)));
    }
}

fn upsert_row(entries: &mut Vec<GaugeEntry>, e: &GaugeEntry)
    ensures
        rows_of(final(entries)@) == upsert(rows_of(old(entries)@), e.row()),
{
    let ghost o = rows_of(entries@);
    let mut i: usize = 0;
    assert(o.take(0) =~= Seq::<(Seq<char>, u64)>::empty());
    assert(o.skip(0) =~= o);
    while i < entries.len()
        invariant
            i <= entries.len(),
            o == rows_of(old(entries)@),
            rows_of(entries@) == o,
            forall|j: int| 0 <= j < i ==> o[j].0 != e.key@,
            upsert(o, e.row()) == o.take(i as int) + upsert(o.skip(i as int), e.row()),
        decreases entries.len() - i,
    {
        if entries[i].key == e.key {
            let ghost before = entries@;
            let k = entries[i].key.clone();
            entries.set(i, GaugeEntry { key: k, psf_bits: e.psf_bits });
            proof {
                let rest = o.skip(i as int);
                assert(rest[0].0 == e.key@);
                assert(upsert(rest, e.row()) == rest.update(0, e.row()));
                assert(rows_of(entries@) =~= o.take(i as int) + rest.update(0, e.row()));
            }
            return;
        }
        proof {
            let rest = o.skip(i as int);
            assert(rest[0] == o[i as int]);
            assert(upsert(rest, e.row()) == seq![rest[0]] + upsert(rest.drop_first(), e.row()));
            assert(rest.drop_first() =~= o.skip(i + 1));
            assert(o.take(i + 1) =~= o.take(i as int) + seq![o[i as int]]);
        }
        i = i + 1;
    }
    let ghost before = entries@;
    let k = e.key.clone();
    entries.push(GaugeEntry { key: k, psf_bits: e.psf_bits });
    proof {
        assert(o.skip(i as int) =~= Seq::<(Seq<char>, u64)>::empty());
        assert(o.take(i as int) =~= o);
        lemma_rows_push(before, entries@.last());
        assert(entries@ == before.push(entries@.last()));
    }
}

/// The built-in rows with the override rows upserted, in key order.
fn merge_rows(base: &GaugeTable, over: &GaugeTable) -> (r: GaugeTable)
    ensures
        rows_sorted(r@),
        r@.to_multiset() == upsert_all(base@, over@).to_multiset(),
        forall|key: Seq<char>| #[trigger] values_of_key(r@, key) == values_of_key(upsert_all(base@, over@), key),
{
    let mut entries = copy_entries(&base.entries);
    let n = over.entries.len();
    let mut i: usize = 0;
    assert(over@.skip(0) =~= over@);
    while i < n
        invariant
            i <= n,
            n == over@.len(),
            upsert_all(rows_of(entries@), over@.skip(i as int)) == upsert_all(base@, over@),
        decreases n - i,
    {
        proof {
            let rest = over@.skip(i as int);
            assert(rest[0] == over.entries@[i as int].row());
            assert(rest.drop_first() =~= over@.skip(i + 1));
        }
        upsert_row(&mut entries, &over.entries[i]);
        i = i + 1;
    }
    assert(over@.skip(n as int) =~= Seq::<(Seq<char>, u64)>::empty());
    sort_entries(&mut entries);
    GaugeTable { entries }
}

impl GaugeTables {
    proof fn lemma_names_distinct(&self, i: int, j: int)
        requires
            self.names_ascending(),
            0 <= i < self.tables@.len(),
            0 <= j < self.tables@.len(),
            i != j,
        ensures
            self.tables@[i].0@ != self.tables@[j].0@,
    {
        if i < j {
            assert(text_order(self.tables@[i].0@, self.tables@[j].0@) < 0);
            lemma_text_order_zero(self.tables@[i].0@, self.tables@[j].0@);
        } else {
            assert(text_order(self.tables@[j].0@, self.tables@[i].0@) < 0);
            lemma_text_order_zero(self.tables@[j].0@, self.tables@[i].0@);
        }
    }
}

/// Merges override tables into the built-in ones: override rows replace the
/// value of the built-in row with the same key (the first such row) or are
/// added, built-in rows without an override are kept, each merged table is
/// put back in key order, and override tables with no built-in table of the
/// same name are added whole.
pub fn merge_tables(builtins: &mut GaugeTables, overrides: &GaugeTables)
    ensures
        forall|n: Seq<char>|
            merge_outcome(old(builtins).lookup(n), overrides.lookup(n), #[trigger] final(builtins).lookup(n)),
{
    proof {
        use_type_invariant(overrides);
    }
    let ghost start = *builtins;
    let ghost names = overrides.names();
    let count = overrides.len();
    let mut i: usize = 0;
    while i < count
        invariant
            i <= count,
            count == overrides.tables@.len(),
            overrides.names_ascending(),
            forall|n: Seq<char>|
                #![trigger builtins.lookup(n)]
                (exists|k: int| 0 <= k < i && overrides.tables@[k].0@ == n) ==> merge_outcome(
                    start.lookup(n),
                    overrides.lookup(n),
                    builtins.lookup(n),
                ),
            forall|n: Seq<char>|
                #![trigger builtins.lookup(n)]
                !(exists|k: int| 0 <= k < i && overrides.tables@[k].0@ == n) ==> builtins.lookup(n)
                    == start.lookup(n),
        decreases count - i,
    {
        let (name, over) = overrides.entry_at(i);
        proof {
            overrides.lemma_lookup_at(i as int);
            assert forall|k: int| 0 <= k < i implies overrides.tables@[k].0@ != name@ by {
                overrides.lemma_names_distinct(k, i as int);
            }
        }
        let ghost before = *builtins;
        let merged = match builtins.get(name.as_str()) {
            Some(base) => merge_rows(base, over),
            None => over.duplicate(),
        };
        builtins.insert(name.clone(), merged);
        proof {
            assert forall|n: Seq<char>|
                #![trigger builtins.lookup(n)]
                (exists|k: int| 0 <= k < i + 1 && overrides.tables@[k].0@ == n) implies merge_outcome(
                    start.lookup(n),
                    overrides.lookup(n),
                    builtins.lookup(n),
                ) by {
                if n != name@ {
                    let k = choose|k: int| 0 <= k < i + 1 && overrides.tables@[k].0@ == n;
                    assert(k < i);
                    assert(before.lookup(n) == builtins.lookup(n));
                }
            }
            assert forall|n: Seq<char>|
                #![trigger builtins.lookup(n)]
                !(exists|k: int| 0 <= k < i + 1 && overrides.tables@[k].0@ == n) implies builtins.lookup(n)
                    == start.lookup(n) by {
                assert(n != name@);
                assert(before.lookup(n) == builtins.lookup(n));
            }
        }
        i = i + 1;
    }
    proof {
        assert forall|n: Seq<char>|
            merge_outcome(start.lookup(n), overrides.lookup(n), #[trigger] builtins.lookup(n)) by {
            if !(exists|k: int| 0 <= k < count && overrides.tables@[k].0@ == n) {
                overrides.lemma_lookup_absent(n);
            }
        }
    }
}

// ---------------------------------------------------------------------------
// Looking up a gauge
// ---------------------------------------------------------------------------

/// The plain integer spelling of a whole-number decimal key ("16.0" and
/// "016" read as "16").
pub open spec fn integral_spelling(key: Seq<char>) -> Option<Seq<char>> {
    match decimal_value(key) {
        Some(v) => if v.0 % v.1 == 0 {
            Some(signed_text(v.0 / v.1))
        } else {
            None
        },
        None => None,
    }
}

/// The key under which `rows` hold gauge `key`: the trimmed key when a row
/// has it, else the integer spelling of a whole-number key when a row has
/// that.
pub open spec fn resolved_key(rows: Seq<(Seq<char>, u64)>, key: Seq<char>) -> Option<Seq<char>> {
    let k = trim(key);
    if first_value(rows, k) is Some {
        Some(k)
    } else {
        match integral_spelling(k) {
            Some(alt) => if first_value(rows, alt) is Some {
                Some(alt)
            } else {
                None
            },
            None => None,
        }
    }
}

/// The rows of the table that `table_name` names, after name normalization.
pub open spec fn named_table(tables: GaugeTables, table_name: Seq<char>) -> Option<Seq<(Seq<char>, u64)>> {
    tables.lookup(canonical_table_name(table_name))
}

proof fn lemma_exact_quotient(n: int, d: int, q: int)
    requires
        d > 0,
        n % d == 0,
        n >= 0 ==> q == n / d,
        n < 0 ==> q == -((-n) / d),
    ensures
        q == n / d,
{
    vstd::arithmetic::div_mod::lemma_fundamental_div_mod(n, d);
    let k = n / d;
    if n < 0 {
        assert(-n == d * (-k)) by (nonlinear_arith)
            requires
                n == d * k,
        ;
        vstd::arithmetic::div_mod::lemma_div_multiples_vanish(-k, d);
        assert(d * (-k) / d == -k);
    }
}

fn integral_spelling_of(key: &Vec<char>) -> (r: Option<Vec<char>>)
    ensures
        match r {
            Some(t) => integral_spelling(key@) == Some(t@),
            None => integral_spelling(key@) is None,
        },
{
    match read_decimal(key) {
        Decimal::Value(n, d) => {
            if divides(d, n) {
                let m: i64 = if n < 0 {
                    -n
                } else {
                    n
                };
                let a: i64 = m / d;
                let q: i64 = if n < 0 {
                    -a
                } else {
                    a
                };
                proof {
                    lemma_exact_quotient(n as int, d as int, q as int);
                }
                Some(signed_decimal(q))
            } else {
                None
            }
        },
        _ => None,
    }
}

fn resolve_in(table: &GaugeTable, key: &str) -> (r: Option<(String, u64)>)
    ensures
        match r {
            Some((k, v)) => resolved_key(table@, key@) == Some(k@) && first_value(table@, k@) == Some(v),
            None => resolved_key(table@, key@) is None,
        },
{
    let k = trim_text(key);
    match table.get(k.as_str()) {
        Some(v) => Some((k, v)),
        None => {
            let kc = chars_of(k.as_str());
            match integral_spelling_of(&kc) {
                Some(alt) => {
                    let alt_text = string_of(&alt);
                    match table.get(alt_text.as_str()) {
                        Some(v) => Some((alt_text, v)),
                        None => None,
                    }
                },
                None => None,
            }
        },
    }
}

/// The key, as the table spells it, under which the named table holds
/// `gauge_key` (see `resolved_key`); `None` when there is no such table or
/// no such row.
pub fn canonical_gauge_key(tables: &GaugeTables, table_name: &str, gauge_key: &str) -> (r: Option<String>)
    ensures
        match r {
            Some(k) => match named_table(*tables, table_name@) {
                Some(rows) => resolved_key(rows, gauge_key@) == Some(k@),
                None => false,
            },
            None => match named_table(*tables, table_name@) {
                Some(rows) => resolved_key(rows, gauge_key@) is None,
                None => true,
            },
        },
{
    let name = normalize_table_name(table_name);
    match tables.get(name.as_str()) {
        Some(table) => match resolve_in(table, gauge_key) {
            Some((k, _)) => Some(k),
            None => None,
        },
        None => None,
    }
}

/// What looking up a gauge in a named table finds.
pub enum PsfLookup {
    /// No table has that name.
    NoTable,
    /// The table holds the gauge under `used_key`, with this psf.
    Found { used_key: String, psf_bits: u64 },
    /// The table has no row for the gauge.
    Missing,
}

/// Looks up gauge `key_raw` in the table named `table_name` (both
/// normalized as `canonical_gauge_key` does) and returns the psf of the row
/// it resolves to. Ranking suggestions for a missing gauge is left to the
/// caller.
pub fn lookup_psf(table_map: &GaugeTables, table_name: &str, key_raw: &str) -> (r: PsfLookup)
    ensures
        match named_table(*table_map, table_name@) {
            None => r is NoTable,
            Some(rows) => match resolved_key(rows, key_raw@) {
                Some(k) => r matches PsfLookup::Found { used_key, psf_bits } && used_key@ == k
                    && first_value(rows, k) == Some(psf_bits),
                None => r is Missing,
            },
        },
{
    let name = normalize_table_name(table_name);
    match table_map.get(name.as_str()) {
        Some(table) => match resolve_in(table, key_raw) {
            Some((used_key, psf_bits)) => PsfLookup::Found { used_key, psf_bits },
            None => PsfLookup::Missing,
        },
        None => PsfLookup::NoTable,
    }
}

// ---------------------------------------------------------------------------
// Suggestions for a missing gauge
// ---------------------------------------------------------------------------

/// `a` ranks no later than `b`: smaller distance first, then key text.
pub open spec fn ranks_before(a: (u64, Seq<char>), b: (u64, Seq<char>)) -> bool {
    a.0 < b.0 || (a.0 == b.0 && text_order(a.1, b.1) <= 0)
}

pub open spec fn ranking_sorted(s: Seq<(u64, Seq<char>)>) -> bool {
    forall|a: int, b: int| 0 <= a < b < s.len() ==> ranks_before(#[trigger] s[a], #[trigger] s[b])
}

/// (distance, key) pairs as plain values.
pub open spec fn ranking_view(v: Seq<(u64, String)>) -> Seq<(u64, Seq<char>)> {
    Seq::new(v.len(), |i: int| (v[i].0, v[i].1@))
}

proof fn lemma_ranks_trans(a: (u64, Seq<char>), b: (u64, Seq<char>), c: (u64, Seq<char>))
    requires
        ranks_before(a, b),
        ranks_before(b, c),
    ensures
        ranks_before(a, c),
{
    if a.0 == b.0 && b.0 == c.0 {
        lemma_text_order_trans(a.1, b.1, c.1);
    }
}

/// The pairs sorted by distance, then key (a stable insertion sort).
fn sort_ranking(pairs: &Vec<(u64, String)>) -> (r: Vec<(u64, String)>)
    ensures
        ranking_sorted(ranking_view(r@)),
        ranking_view(r@).to_multiset() == ranking_view(pairs@).to_multiset(),
{
    broadcast use vstd::seq_lib::group_to_multiset_ensures;

    let n = pairs.len();
    let mut out: Vec<(u64, String)> = Vec::new();
    let mut i: usize = 0;
    while i < n
        invariant
            i <= n,
            n == pairs@.len(),
            ranking_sorted(ranking_view(out@)),
            ranking_view(out@).to_multiset() == ranking_view(pairs@).take(i as int).to_multiset(),
        decreases n - i,
    {
        let x = (pairs[i].0, pairs[i].1.clone());
        let xc = chars_of(x.1.as_str());
        let ghost xv = (x.0, x.1@);
        assert(xv == ranking_view(pairs@)[i as int]);
        let mut p: usize = 0;
        while p < out.len() && (out[p].0 < x.0 || (out[p].0 == x.0 && text_compare(
            &chars_of(out[p].1.as_str()),
            &xc,
        ) <= 0))
            invariant
                p <= out.len(),
                xc@ == x.1@,
                xv == (x.0, x.1@),
                forall|a: int| 0 <= a < p ==> ranks_before(#[trigger] ranking_view(out@)[a], xv),
            decreases out.len() - p,
        {
            assert(ranks_before(ranking_view(out@)[p as int], xv));
            p = p + 1;
        }
        proof {
            let o = ranking_view(out@);
            if p < out.len() {
                assert(!ranks_before(o[p as int], xv));
                lemma_text_order_antisym(o[p as int].1, xv.1);
                assert(ranks_before(xv, o[p as int]));
            }
            let n2 = o.insert(p as int, xv);
            assert forall|a: int, b: int| 0 <= a < b < n2.len() implies ranks_before(
                #[trigger] n2[a],
                #[trigger] n2[b],
            ) by {
                if b < p {
                    assert(n2[a] == o[a] && n2[b] == o[b]);
                } else if b == p {
                    assert(n2[a] == o[a]);
                } else if a < p {
                    assert(n2[a] == o[a] && n2[b] == o[b - 1]);
                    lemma_ranks_trans(o[a], xv, o[p as int]);
                    if b - 1 > p {
                        lemma_ranks_trans(o[a], o[p as int], o[b - 1]);
                    }
                } else if a == p {
                    assert(n2[b] == o[b - 1]);
                    if b - 1 > p {
                        lemma_ranks_trans(xv, o[p as int], o[b - 1]);
                    }
                } else {
                    assert(n2[a] == o[a - 1] && n2[b] == o[b - 1]);
                }
            }
            lemma_insert_multiset(o, p as int, xv);
            let t = ranking_view(pairs@).take(i as int);
            assert(ranking_view(pairs@).take(i + 1) =~= t.push(xv));
            t.to_multiset_ensures();
            assert(t.push(xv).to_multiset() =~= t.to_multiset().insert(xv));
        }
        let ghost before = out@;
        out.insert(p, x);
        proof {
            assert(ranking_view(out@) =~= ranking_view(before).insert(p as int, xv));
        }
        i = i + 1;
    }
    assert(ranking_view(pairs@).take(n as int) =~= ranking_view(pairs@));
    out
}

/// The keys of the first `count` pairs of `s`.
pub open spec fn leading_keys(s: Seq<(u64, Seq<char>)>, count: int) -> Seq<Seq<char>> {
    Seq::new(count as nat, |i: int| s[i].1)
}

/// The keys of the (at most) three pairs that rank first by distance, then
/// key: `distance` is any number that orders pairs as their distances do.
pub fn nearest_keys(pairs: &Vec<(u64, String)>) -> (r: Vec<String>)
    ensures
        exists|s: Seq<(u64, Seq<char>)>|
            ranking_sorted(s) && s.to_multiset() == ranking_view(pairs@).to_multiset()
                && Seq::new(r@.len(), |i: int| r@[i]@) == leading_keys(
                s,
                if pairs@.len() < 3 {
                    pairs@.len() as int
                } else {
                    3
                },
            ),
{
    broadcast use vstd::seq_lib::group_to_multiset_ensures;

    let sorted = sort_ranking(pairs);
    let ghost s = ranking_view(sorted@);
    proof {
        assert(s.len() == s.to_multiset().len());
        assert(ranking_view(pairs@).len() == ranking_view(pairs@).to_multiset().len());
    }
    let count: usize = if sorted.len() < 3 {
        sorted.len()
    } else {
        3
    };
    let mut out: Vec<String> = Vec::new();
    let mut i: usize = 0;
    while i < count
        invariant
            i <= count <= sorted@.len(),
            s == ranking_view(sorted@),
            out@.len() == i,
            Seq::new(out@.len(), |j: int| out@[j]@) == leading_keys(s, i as int),
        decreases count - i,
    {
        let k = sorted[i].1.clone();
        assert(k@ == s[i as int].1);
        let ghost before = out@;
        out.push(k);
        assert(Seq::new(out@.len(), |j: int| out@[j]@) =~= leading_keys(s, i + 1)) by {
            assert forall|j: int| 0 <= j < i + 1 implies out@[j]@ == leading_keys(s, i + 1)[j] by {
                if j < i {
                    assert(out@[j] == before[j]);
                    assert(Seq::new(before.len(), |q: int| before[q]@)[j] == before[j]@);
                }
            }
        }
        i = i + 1;
    }
    out
}

} // verus!
