//! Normalizing the user configuration.
//!
//! The configuration is a JSON object. Recognized keys are kept when their
//! values are valid (a schema version is added, a table name is put in its
//! canonical form and a gauge key in its table's spelling); everything else
//! is dropped and reported.
use vstd::prelude::*;

use crate::gauges::{
    lemma_canonical_table_name_idempotent, integral_spelling, first_value,
    canonical_table_name, first_named, lemma_first_named_absent, lemma_first_named_found,
    named_table, normalize_table_name, resolved_key, canonical_gauge_key, GaugeTables,
    DEFAULT_GAUGE_KEY, DEFAULT_TABLE_NAME,
};
use crate::order::{lemma_text_order_antisym, lemma_text_order_trans, lemma_text_order_zero, text_compare, text_order};
use crate::text::{chars_of, lemma_signed_text_trimmed, lemma_trim_idempotent, push_text, trim, trim_text};
use crate::{UI_FONT_SIZE_DEFAULT, UI_HEADING_DELTA_DEFAULT};

verus! {

broadcast use vstd::string::group_string_axioms;

/// The configuration schema version this library writes.
pub const CONFIG_SCHEMA_VERSION: u32 = 1;

// ---------------------------------------------------------------------------
// JSON values
// ---------------------------------------------------------------------------

/// A JSON number.
#[derive(Clone, Copy, Debug, PartialEq, Eq, Structural)]
pub enum JsonNumber {
    /// An integer (JSON integers range over `i64` and `u64`).
    Integer(i128),
    /// A double, by the bits of its IEEE-754 encoding.
    Float(u64),
    /// The double nearest to an integer: what an integer becomes once read
    /// as a double and written back.
    IntegerAsFloat(i128),
}

/// A JSON value as configuration handling reads it; arrays and objects are
/// carried as their compact JSON text.
#[derive(Clone, Debug)]
pub enum ConfigValue {
    Null,
    Bool(bool),
    Number(JsonNumber),
    Text(String),
    Array(String),
    Object(String),
}

/// A configuration value with its text as characters.
pub enum ValueView {
    Null,
    Bool(bool),
    Number(JsonNumber),
    Text(Seq<char>),
    Array(Seq<char>),
    Object(Seq<char>),
}

impl View for ConfigValue {
    type V = ValueView;

    open spec fn view(&self) -> ValueView {
        match self {
            ConfigValue::Null => ValueView::Null,
            ConfigValue::Bool(b) => ValueView::Bool(*b),
            ConfigValue::Number(n) => ValueView::Number(*n),
            ConfigValue::Text(s) => ValueView::Text(s@),
            ConfigValue::Array(s) => ValueView::Array(s@),
            ConfigValue::Object(s) => ValueView::Object(s@),
        }
    }
}

/// The bits of a double `> 0.0`: sign clear, not zero, not NaN.
pub open spec fn float_bits_positive(b: u64) -> bool {
    b < 0x8000_0000_0000_0000 && 0 < b <= 0x7FF0_0000_0000_0000
}

/// The bits of a double `>= 0.0`: `+0.0`, `-0.0` or positive.
pub open spec fn float_bits_nonnegative(b: u64) -> bool {
    b <= 0x7FF0_0000_0000_0000 || b == 0x8000_0000_0000_0000
}

/// The number, read as a double, is `> 0.0`.
pub open spec fn number_positive(n: JsonNumber) -> bool {
    match n {
        JsonNumber::Integer(i) => i > 0,
        JsonNumber::Float(b) => float_bits_positive(b),
        JsonNumber::IntegerAsFloat(i) => i > 0,
    }
}

/// The number, read as a double, is `>= 0.0`.
pub open spec fn number_nonnegative(n: JsonNumber) -> bool {
    match n {
        JsonNumber::Integer(i) => i >= 0,
        JsonNumber::Float(b) => float_bits_nonnegative(b),
        JsonNumber::IntegerAsFloat(i) => i >= 0,
    }
}

/// The number as a double, written back as JSON.
pub open spec fn as_float(n: JsonNumber) -> JsonNumber {
    match n {
        JsonNumber::Integer(i) => JsonNumber::IntegerAsFloat(i),
        _ => n,
    }
}

/// The number as an `i64`, when it is an integer in range.
pub open spec fn number_as_i64(n: JsonNumber) -> Option<i64> {
    match n {
        JsonNumber::Integer(i) => if i64::MIN <= i <= i64::MAX {
            Some(i as i64)
        } else {
            None
        },
        _ => None,
    }
}

/// The number as a `u64`, when it is an integer in range.
pub open spec fn number_as_u64(n: JsonNumber) -> Option<u64> {
    match n {
        JsonNumber::Integer(i) => if 0 <= i <= u64::MAX {
            Some(i as u64)
        } else {
            None
        },
        _ => None,
    }
}

fn positive(n: JsonNumber) -> (r: bool)
    ensures
        r == number_positive(n),
{
    match n {
        JsonNumber::Integer(i) => i > 0,
        JsonNumber::Float(b) => b < 0x8000_0000_0000_0000 && 0 < b && b <= 0x7FF0_0000_0000_0000,
        JsonNumber::IntegerAsFloat(i) => i > 0,
    }
}

fn nonnegative(n: JsonNumber) -> (r: bool)
    ensures
        r == number_nonnegative(n),
{
    match n {
        JsonNumber::Integer(i) => i >= 0,
        JsonNumber::Float(b) => b <= 0x7FF0_0000_0000_0000 || b == 0x8000_0000_0000_0000,
        JsonNumber::IntegerAsFloat(i) => i >= 0,
    }
}

fn widen(n: JsonNumber) -> (r: JsonNumber)
    ensures
        r == as_float(n),
{
    match n {
        JsonNumber::Integer(i) => JsonNumber::IntegerAsFloat(i),
        _ => n,
    }
}

fn integer_i64(n: JsonNumber) -> (r: Option<i64>)
    ensures
        r == number_as_i64(n),
{
    match n {
        JsonNumber::Integer(i) => if -9223372036854775808i128 <= i && i <= 9223372036854775807i128 {
            Some(i as i64)
        } else {
            None
        },
        _ => None,
    }
}

fn integer_u64(n: JsonNumber) -> (r: Option<u64>)
    ensures
        r == number_as_u64(n),
{
    match n {
        JsonNumber::Integer(i) => if 0 <= i && i <= 18446744073709551615i128 {
            Some(i as u64)
        } else {
            None
        },
        _ => None,
    }
}

fn same_text(a: &String, b: &String) -> (r: bool)
    ensures
        r == (a@ == b@),
{
    crate::text::same_chars(&chars_of(a.as_str()), &chars_of(b.as_str()))
}

/// Whether two values are the same JSON value.
pub fn values_equal(a: &ConfigValue, b: &ConfigValue) -> (r: bool)
    ensures
        r == (a@ == b@),
{
    match (a, b) {
        (ConfigValue::Null, ConfigValue::Null) => true,
        (ConfigValue::Bool(x), ConfigValue::Bool(y)) => *x == *y,
        (ConfigValue::Number(x), ConfigValue::Number(y)) => *x == *y,
        (ConfigValue::Text(x), ConfigValue::Text(y)) => same_text(x, y),
        (ConfigValue::Array(x), ConfigValue::Array(y)) => same_text(x, y),
        (ConfigValue::Object(x), ConfigValue::Object(y)) => same_text(x, y),
        _ => false,
    }
}

// ---------------------------------------------------------------------------
// Objects
// ---------------------------------------------------------------------------

/// A JSON object of configuration values, keyed in key order (the order of
/// `str`), as `serde_json::Map` keeps one.
#[derive(Debug)]
pub struct ConfigMap {
    entries: Vec<(String, ConfigValue)>,
}

impl ConfigMap {
    #[verifier::type_invariant]
    spec fn names_ascending(self) -> bool {
        forall|a: int, b: int|
            0 <= a < b < self.entries@.len() ==> text_order(
                self.entries@[a].0@,
                self.entries@[b].0@,
            ) < 0
    }

    /// The keys, in order.
    pub closed spec fn names(&self) -> Seq<Seq<char>> {
        Seq::new(self.entries@.len(), |i: int| self.entries@[i].0@)
    }

    /// (key, value) of each entry, in key order.
    pub closed spec fn named_values(&self) -> Seq<(Seq<char>, ValueView)> {
        Seq::new(self.entries@.len(), |i: int| (self.entries@[i].0@, self.entries@[i].1@))
    }

    /// The value under key `name`, if there is one.
    pub closed spec fn lookup(&self, name: Seq<char>) -> Option<ValueView> {
        first_named(self.named_values(), name)
    }

    proof fn lemma_lookup_at(&self, i: int)
        requires
            0 <= i < self.entries@.len(),
            self.names_ascending(),
        ensures
            self.lookup(self.entries@[i].0@) == Some(self.entries@[i].1@),
    {
        let name = self.entries@[i].0@;
        let nr = self.named_values();
        assert forall|j: int| 0 <= j < i implies nr[j].0 != name by {
            assert(text_order(self.entries@[j].0@, self.entries@[i].0@) < 0);
            lemma_text_order_zero(self.entries@[j].0@, name);
        }
        lemma_first_named_found(nr, name, i);
    }

    proof fn lemma_lookup_absent(&self, name: Seq<char>)
        requires
            forall|i: int| 0 <= i < self.entries@.len() ==> self.entries@[i].0@ != name,
        ensures
            self.lookup(name) is None,
    {
        lemma_first_named_absent(self.named_values(), name);
    }

    /// The empty object.
    pub fn new() -> (r: ConfigMap)
        ensures
            r.names().len() == 0,
            forall|n: Seq<char>| #[trigger] r.lookup(n) is None,
    {
        let r = ConfigMap { entries: Vec::new() };
        proof {
            assert forall|n: Seq<char>| #[trigger] r.lookup(n) is None by {
                r.lemma_lookup_absent(n);
            }
        }
        r
    }

    /// Number of entries.
    pub fn len(&self) -> (r: usize)
        ensures
            r == self.names().len(),
    {
        self.entries.len()
    }

    pub fn is_empty(&self) -> (r: bool)
        ensures
            r == (self.names().len() == 0),
    {
        self.entries.len() == 0
    }

    /// Position of key `name`.
    fn position(&self, name: &Vec<char>) -> (r: Option<usize>)
        ensures
            match r {
                Some(i) => i < self.entries@.len() && self.entries@[i as int].0@ == name@,
                None => forall|i: int| 0 <= i < self.entries@.len() ==> self.entries@[i].0@ != name@,
            },
    {
        let mut i: usize = 0;
        while i < self.entries.len()
            invariant
                i <= self.entries.len(),
                forall|j: int| 0 <= j < i ==> self.entries@[j].0@ != name@,
            decreases self.entries.len() - i,
        {
            let c = chars_of(self.entries[i].0.as_str());
            if crate::text::same_chars(&c, name) {
                return Some(i);
            }
            i = i + 1;
        }
        None
    }

    /// The value under key `name`.
    pub fn get(&self, name: &str) -> (r: Option<&ConfigValue>)
        ensures
            match r {
                Some(t) => self.lookup(name@) == Some(t@),
                None => self.lookup(name@) is None,
            },
    {
        proof {
            use_type_invariant(self);
        }
        let n = chars_of(name);
        match self.position(&n) {
            Some(i) => {
                proof {
                    self.lemma_lookup_at(i as int);
                }
                Some(&self.entries[i].1)
            },
            None => {
                proof {
                    self.lemma_lookup_absent(name@);
                }
                None
            },
        }
    }

    /// Whether key `name` is present.
    pub fn contains_key(&self, name: &str) -> (r: bool)
        ensures
            r == (self.lookup(name@) is Some),
    {
        self.get(name).is_some()
    }

    /// The keys, in order.
    pub fn keys(&self) -> (r: Vec<String>)
        ensures
            r@.len() == self.names().len(),
            forall|i: int| 0 <= i < r@.len() ==> #[trigger] r@[i]@ == self.names()[i],
            forall|i: int, j: int|
                0 <= i < j < r@.len() ==> text_order(#[trigger] r@[i]@, #[trigger] r@[j]@) < 0,
            forall|n: Seq<char>|
                #[trigger] self.lookup(n) is Some <==> exists|i: int| 0 <= i < r@.len() && #[trigger] r@[i]@ == n,
    {
        proof {
            use_type_invariant(self);
        }
        let mut r: Vec<String> = Vec::new();
        let mut i: usize = 0;
        while i < self.entries.len()
            invariant
                i <= self.entries.len(),
                r@.len() == i,
                forall|k: int| 0 <= k < i ==> #[trigger] r@[k]@ == self.entries@[k].0@,
            decreases self.entries.len() - i,
        {
            r.push(self.entries[i].0.clone());
            i = i + 1;
        }
        proof {
            assert forall|n: Seq<char>|
                #[trigger] self.lookup(n) is Some <==> exists|i: int| 0 <= i < r@.len() && #[trigger] r@[i]@ == n by {
                if exists|i: int| 0 <= i < r@.len() && #[trigger] r@[i]@ == n {
                    let i = choose|i: int| 0 <= i < r@.len() && #[trigger] r@[i]@ == n;
                    self.lemma_lookup_at(i);
                } else {
                    assert forall|i: int| 0 <= i < self.entries@.len() implies self.entries@[i].0@ != n by {
                        assert(r@[i]@ == self.entries@[i].0@);
                    }
                    self.lemma_lookup_absent(n);
                }
            }
        }
        r
    }

    /// The key and value at position `i` of the key order.
    pub fn entry_at(&self, i: usize) -> (r: (&String, &ConfigValue))
        requires
            i < self.names().len(),
        ensures
            r.0@ == self.names()[i as int],
            self.lookup(r.0@) == Some(r.1@),
    {
        proof {
            use_type_invariant(self);
            self.lemma_lookup_at(i as int);
        }
        (&self.entries[i].0, &self.entries[i].1)
    }

    /// Sets key `name` to `value`.
    pub fn insert(&mut self, name: String, value: ConfigValue)
        ensures
            forall|n: Seq<char>| #[trigger]
                final(self).lookup(n) == if n == name@ {
                    Some(value@)
                } else {
                    old(self).lookup(n)
                },
    {
        proof {
            use_type_invariant(&*self);
        }
        let ghost old_self = *self;
        let mut v: Vec<(String, ConfigValue)> = Vec::new();
        std::mem::swap(&mut v, &mut self.entries);
        let ghost o = v@;
        assert(o == old_self.entries@);
        let nc = chars_of(name.as_str());
        let mut p: usize = 0;
        while p < v.len() && text_compare(&chars_of(v[p].0.as_str()), &nc) < 0
            invariant
                p <= v.len(),
                v@ == o,
                nc@ == name@,
                forall|a: int| 0 <= a < p ==> text_order(#[trigger] o[a].0@, name@) < 0,
            decreases v.len() - p,
        {
            p = p + 1;
        }
        let replace = p < v.len() && text_compare(&chars_of(v[p].0.as_str()), &nc) == 0;
        let ghost item = (name, value);
        if replace {
            proof {
                lemma_text_order_zero(o[p as int].0@, name@);
            }
            v.set(p, (name, value));
        } else {
            v.insert(p, (name, value));
        }
        proof {
            let n2 = v@;
            if p < o.len() && !replace {
                lemma_text_order_antisym(o[p as int].0@, name@);
            }
            assert forall|a: int, b: int| 0 <= a < b < n2.len() implies text_order(
                n2[a].0@,
                n2[b].0@,
            ) < 0 by {
                if replace {
                    if a == p {
                        if b > p {
                            lemma_text_order_zero(o[p as int].0@, name@);
                        }
                    } else if b == p {
                        lemma_text_order_zero(o[p as int].0@, name@);
                    }
                } else {
                    if b < p {
                    } else if b == p {
                    } else if a < p {
                        assert(n2[b] == o[b - 1]);
                        lemma_text_order_trans(o[a].0@, name@, o[p as int].0@);
                        if b - 1 > p {
                            lemma_text_order_trans(o[a].0@, o[p as int].0@, o[b - 1].0@);
                        }
                        if text_order(o[a].0@, o[b - 1].0@) == 0 {
                            lemma_text_order_zero(o[a].0@, o[b - 1].0@);
                        }
                    } else if a == p {
                        assert(n2[b] == o[b - 1]);
                        if b - 1 > p {
                            lemma_text_order_trans(name@, o[p as int].0@, o[b - 1].0@);
                            if text_order(name@, o[b - 1].0@) == 0 {
                                lemma_text_order_zero(name@, o[b - 1].0@);
                                lemma_text_order_antisym(o[p as int].0@, o[b - 1].0@);
                            }
                        }
                    } else {
                        assert(n2[a] == o[a - 1] && n2[b] == o[b - 1]);
                    }
                }
            }
        }
        self.entries = v;
        proof {
            let s = *self;
            assert forall|n: Seq<char>| #[trigger]
                s.lookup(n) == if n == name@ {
                    Some(value@)
                } else {
                    old_self.lookup(n)
                } by {
                if n == name@ {
                    s.lemma_lookup_at(p as int);
                } else {
                    if exists|i: int| 0 <= i < o.len() && o[i].0@ == n {
                        let i = choose|i: int| 0 <= i < o.len() && o[i].0@ == n;
                        old_self.lemma_lookup_at(i);
                        let j = if replace || i < p {
                            i
                        } else {
                            i + 1
                        };
                        assert(s.entries@[j] == o[i]);
                        s.lemma_lookup_at(j);
                    } else {
                        old_self.lemma_lookup_absent(n);
                        assert forall|i: int| 0 <= i < s.entries@.len() implies s.entries@[i].0@ != n by {
                            if replace {
                                if i != p {
                                    assert(s.entries@[i] == o[i]);
                                }
                            } else if i < p {
                                assert(s.entries@[i] == o[i]);
                            } else if i > p {
                                assert(s.entries@[i] == o[i - 1]);
                            }
                        }
                        s.lemma_lookup_absent(n);
                    }
                }
            }
        }
    }
}


/// Whether two objects hold the same keys with the same values.
pub fn maps_equal(a: &ConfigMap, b: &ConfigMap) -> (r: bool)
    ensures
        r == (a.named_values() == b.named_values()),
{
    if a.entries.len() != b.entries.len() {
        proof {
            assert(a.named_values().len() != b.named_values().len());
        }
        return false;
    }
    let mut i: usize = 0;
    while i < a.entries.len()
        invariant
            i <= a.entries.len(),
            a.entries.len() == b.entries.len(),
            forall|k: int| 0 <= k < i ==> a.named_values()[k] == b.named_values()[k],
        decreases a.entries.len() - i,
    {
        if !same_text(&a.entries[i].0, &b.entries[i].0) || !values_equal(&a.entries[i].1, &b.entries[i].1) {
            proof {
                assert(a.named_values()[i as int] != b.named_values()[i as int]);
            }
            return false;
        }
        i = i + 1;
    }
    assert(a.named_values() =~= b.named_values());
    true
}

// ---------------------------------------------------------------------------
// Normalization
// ---------------------------------------------------------------------------

pub open spec fn known_key(k: Seq<char>) -> bool {
    k == "config_version"@ || k == "density_lb_ft3"@ || k == "steel_density"@ || k == "ui_font_size"@ || k
        == "ui_heading_delta"@ || k == "ui_scaling"@ || k == "default_table"@ || k
        == "default_gauge"@
}

/// A kept density: a number `> 0`, as a double.
pub open spec fn clean_density(raw: ConfigMap) -> Option<ValueView> {
    match raw.lookup("density_lb_ft3"@) {
        Some(ValueView::Number(n)) => if number_positive(n) {
            Some(ValueView::Number(as_float(n)))
        } else {
            None
        },
        _ => None,
    }
}

/// A kept steel density under its documented name `steel_density`: a
/// number `> 0`, as a double.
pub open spec fn clean_steel_density(raw: ConfigMap) -> Option<ValueView> {
    match raw.lookup("steel_density"@) {
        Some(ValueView::Number(n)) => if number_positive(n) {
            Some(ValueView::Number(as_float(n)))
        } else {
            None
        },
        _ => None,
    }
}

/// A kept font size: an `i64` integer `> 0`.
pub open spec fn clean_font_size(raw: ConfigMap) -> Option<ValueView> {
    match raw.lookup("ui_font_size"@) {
        Some(ValueView::Number(n)) => match number_as_i64(n) {
            Some(v) => if v > 0 {
                Some(ValueView::Number(JsonNumber::Integer(v as i128)))
            } else {
                None
            },
            None => None,
        },
        _ => None,
    }
}

/// A kept heading delta: an `i64` integer `>= 0`.
pub open spec fn clean_heading_delta(raw: ConfigMap) -> Option<ValueView> {
    match raw.lookup("ui_heading_delta"@) {
        Some(ValueView::Number(n)) => match number_as_i64(n) {
            Some(v) => if v >= 0 {
                Some(ValueView::Number(JsonNumber::Integer(v as i128)))
            } else {
                None
            },
            None => None,
        },
        _ => None,
    }
}

/// A kept interface scaling: a number `>= 0`, as a double.
pub open spec fn clean_scaling(raw: ConfigMap) -> Option<ValueView> {
    match raw.lookup("ui_scaling"@) {
        Some(ValueView::Number(n)) => if number_nonnegative(n) {
            Some(ValueView::Number(as_float(n)))
        } else {
            None
        },
        _ => None,
    }
}

/// A kept default table: the canonical name of a table that exists.
pub open spec fn clean_table(raw: ConfigMap, tables: GaugeTables) -> Option<ValueView> {
    match raw.lookup("default_table"@) {
        Some(ValueView::Text(t)) => if tables.lookup(canonical_table_name(t)) is Some {
            Some(ValueView::Text(canonical_table_name(t)))
        } else {
            None
        },
        _ => None,
    }
}

/// The default table a configuration names: the canonical name of the
/// configured table when that table exists, else the built-in default.
pub open spec fn configured_table(raw: ConfigMap, tables: GaugeTables) -> Seq<char> {
    match clean_table(raw, tables) {
        Some(ValueView::Text(t)) => t,
        _ => DEFAULT_TABLE_NAME@,
    }
}

/// A kept default gauge: a non-blank key, in the spelling of the table it is
/// read against.
pub open spec fn clean_gauge(raw: ConfigMap, tables: GaugeTables) -> Option<ValueView> {
    match raw.lookup("default_gauge"@) {
        Some(ValueView::Text(g)) => if trim(g).len() > 0 {
            match named_table(tables, configured_table(raw, tables)) {
                Some(rows) => match resolved_key(rows, trim(g)) {
                    Some(k) => Some(ValueView::Text(k)),
                    None => None,
                },
                None => None,
            }
        } else {
            None
        },
        _ => None,
    }
}

/// What the normalized configuration holds under key `k`.
pub open spec fn normalized_entry(raw: ConfigMap, tables: GaugeTables, k: Seq<char>) -> Option<ValueView> {
    if k == "config_version"@ {
        Some(ValueView::Number(JsonNumber::Integer(CONFIG_SCHEMA_VERSION as i128)))
    } else if k == "density_lb_ft3"@ {
        clean_density(raw)
    } else if k == "steel_density"@ {
        clean_steel_density(raw)
    } else if k == "ui_font_size"@ {
        clean_font_size(raw)
    } else if k == "ui_heading_delta"@ {
        clean_heading_delta(raw)
    } else if k == "ui_scaling"@ {
        clean_scaling(raw)
    } else if k == "default_table"@ {
        clean_table(raw, tables)
    } else if k == "default_gauge"@ {
        clean_gauge(raw, tables)
    } else {
        None
    }
}

proof fn lemma_key_literals()
    ensures
        "config_version"@ != "density_lb_ft3"@,
        "config_version"@ != "ui_font_size"@,
        "config_version"@ != "ui_heading_delta"@,
        "config_version"@ != "ui_scaling"@,
        "config_version"@ != "default_table"@,
        "config_version"@ != "default_gauge"@,
        "density_lb_ft3"@ != "ui_font_size"@,
        "density_lb_ft3"@ != "ui_heading_delta"@,
        "density_lb_ft3"@ != "ui_scaling"@,
        "density_lb_ft3"@ != "default_table"@,
        "density_lb_ft3"@ != "default_gauge"@,
        "ui_font_size"@ != "ui_heading_delta"@,
        "ui_font_size"@ != "ui_scaling"@,
        "ui_font_size"@ != "default_table"@,
        "ui_font_size"@ != "default_gauge"@,
        "ui_heading_delta"@ != "ui_scaling"@,
        "ui_heading_delta"@ != "default_table"@,
        "ui_heading_delta"@ != "default_gauge"@,
        "ui_scaling"@ != "default_table"@,
        "ui_scaling"@ != "default_gauge"@,
        "default_table"@ != "default_gauge"@,
        "steel_density"@ != "config_version"@,
        "steel_density"@ != "density_lb_ft3"@,
        "steel_density"@ != "ui_font_size"@,
        "steel_density"@ != "ui_heading_delta"@,
        "steel_density"@ != "ui_scaling"@,
        "steel_density"@ != "default_table"@,
        "steel_density"@ != "default_gauge"@,
{
    reveal_strlit("config_version");
    reveal_strlit("density_lb_ft3");
    reveal_strlit("ui_font_size");
    reveal_strlit("ui_heading_delta");
    reveal_strlit("ui_scaling");
    reveal_strlit("default_table");
    reveal_strlit("default_gauge");
    assert("config_version"@.len() == 14);
    assert("density_lb_ft3"@.len() == 14);
    assert("ui_font_size"@.len() == 12);
    assert("ui_heading_delta"@.len() == 16);
    assert("ui_scaling"@.len() == 10);
    assert("default_table"@.len() == 13);
    assert("default_gauge"@.len() == 13);
    assert("config_version"@[0] != "density_lb_ft3"@[0]);
    assert("default_table"@[8] != "default_gauge"@[8]);
    reveal_strlit("steel_density");
    assert("steel_density"@.len() == 13);
    assert("steel_density"@[0] != "default_table"@[0]);
    assert("steel_density"@[0] != "default_gauge"@[0]);
}

fn insert_some(m: &mut ConfigMap, key: &str, v: Option<ConfigValue>)
    ensures
        forall|n: Seq<char>| #[trigger]
            final(m).lookup(n) == if n == key@ && v is Some {
                Some(v.unwrap()@)
            } else {
                old(m).lookup(n)
            },
{
    match v {
        Some(value) => m.insert(String::from_str(key), value),
        None => {},
    }
}

fn density_value(raw: &ConfigMap) -> (r: Option<ConfigValue>)
    ensures
        match r {
            Some(v) => clean_density(*raw) == Some(v@),
            None => clean_density(*raw) is None,
        },
{
    match raw.get("density_lb_ft3") {
        Some(ConfigValue::Number(n)) => if positive(*n) {
            Some(ConfigValue::Number(widen(*n)))
        } else {
            None
        },
        _ => None,
    }
}

fn steel_density_value(raw: &ConfigMap) -> (r: Option<ConfigValue>)
    ensures
        match r {
            Some(v) => clean_steel_density(*raw) == Some(v@),
            None => clean_steel_density(*raw) is None,
        },
{
    match raw.get("steel_density") {
        Some(ConfigValue::Number(n)) => if positive(*n) {
            Some(ConfigValue::Number(widen(*n)))
        } else {
            None
        },
        _ => None,
    }
}

fn font_size_value(raw: &ConfigMap) -> (r: Option<ConfigValue>)
    ensures
        match r {
            Some(v) => clean_font_size(*raw) == Some(v@),
            None => clean_font_size(*raw) is None,
        },
{
    match raw.get("ui_font_size") {
        Some(ConfigValue::Number(n)) => match integer_i64(*n) {
            Some(v) => if v > 0 {
                Some(ConfigValue::Number(JsonNumber::Integer(v as i128)))
            } else {
                None
            },
            None => None,
        },
        _ => None,
    }
}

fn heading_delta_value(raw: &ConfigMap) -> (r: Option<ConfigValue>)
    ensures
        match r {
            Some(v) => clean_heading_delta(*raw) == Some(v@),
            None => clean_heading_delta(*raw) is None,
        },
{
    match raw.get("ui_heading_delta") {
        Some(ConfigValue::Number(n)) => match integer_i64(*n) {
            Some(v) => if v >= 0 {
                Some(ConfigValue::Number(JsonNumber::Integer(v as i128)))
            } else {
                None
            },
            None => None,
        },
        _ => None,
    }
}

fn scaling_value(raw: &ConfigMap) -> (r: Option<ConfigValue>)
    ensures
        match r {
            Some(v) => clean_scaling(*raw) == Some(v@),
            None => clean_scaling(*raw) is None,
        },
{
    match raw.get("ui_scaling") {
        Some(ConfigValue::Number(n)) => if nonnegative(*n) {
            Some(ConfigValue::Number(widen(*n)))
        } else {
            None
        },
        _ => None,
    }
}

fn table_value(raw: &ConfigMap, tables: &GaugeTables) -> (r: Option<ConfigValue>)
    ensures
        match r {
            Some(v) => clean_table(*raw, *tables) == Some(v@),
            None => clean_table(*raw, *tables) is None,
        },
{
    match raw.get("default_table") {
        Some(ConfigValue::Text(t)) => {
            let normalized = normalize_table_name(t.as_str());
            if tables.contains_key(normalized.as_str()) {
                Some(ConfigValue::Text(normalized))
            } else {
                None
            }
        },
        _ => None,
    }
}

fn gauge_value(raw: &ConfigMap, tables: &GaugeTables, table: &Option<ConfigValue>) -> (r: Option<ConfigValue>)
    requires
        match table {
            Some(v) => clean_table(*raw, *tables) == Some(v@),
            None => clean_table(*raw, *tables) is None,
        },
    ensures
        match r {
            Some(v) => clean_gauge(*raw, *tables) == Some(v@),
            None => clean_gauge(*raw, *tables) is None,
        },
{
    let chosen = match table {
        Some(ConfigValue::Text(t)) => t.clone(),
        _ => String::from_str(DEFAULT_TABLE_NAME),
    };
    assert(chosen@ == configured_table(*raw, *tables));
    match raw.get("default_gauge") {
        Some(ConfigValue::Text(g)) => {
            let trimmed = trim_text(g.as_str());
            if chars_of(trimmed.as_str()).len() == 0 {
                None
            } else {
                match canonical_gauge_key(tables, chosen.as_str(), trimmed.as_str()) {
                    Some(k) => Some(ConfigValue::Text(k)),
                    None => None,
                }
            }
        },
        _ => None,
    }
}

/// The normalized configuration (see `normalized_entry`): the schema
/// version, and each recognized setting whose value is valid.
pub fn normalize_config(raw: &ConfigMap, tables: &GaugeTables) -> (cleaned: ConfigMap)
    ensures
        forall|k: Seq<char>| #[trigger] cleaned.lookup(k) == normalized_entry(*raw, *tables, k),
{
    let density = density_value(raw);
    let steel_density = steel_density_value(raw);
    let font_size = font_size_value(raw);
    let heading_delta = heading_delta_value(raw);
    let scaling = scaling_value(raw);
    let table = table_value(raw, tables);
    let gauge = gauge_value(raw, tables, &table);
    let mut cleaned = ConfigMap::new();
    cleaned.insert(
        String::from_str("config_version"),
        ConfigValue::Number(JsonNumber::Integer(1)),
    );
    insert_some(&mut cleaned, "density_lb_ft3", density);
    insert_some(&mut cleaned, "steel_density", steel_density);
    insert_some(&mut cleaned, "ui_font_size", font_size);
    insert_some(&mut cleaned, "ui_heading_delta", heading_delta);
    insert_some(&mut cleaned, "ui_scaling", scaling);
    insert_some(&mut cleaned, "default_table", table);
    insert_some(&mut cleaned, "default_gauge", gauge);
    proof {
        lemma_key_literals();
    }
    cleaned
}

// ---------------------------------------------------------------------------
// Warnings
// ---------------------------------------------------------------------------

/// What is wrong with a configuration entry.
#[derive(Clone, Copy, Debug, PartialEq, Eq, Structural)]
pub enum ConfigIssue {
    /// The key is not a recognized setting; it is dropped.
    UnknownKey,
    /// The value has the wrong JSON type; it is dropped.
    InvalidType,
    /// The value has the right type but is out of range; it is dropped.
    InvalidValue,
}

/// A problem found in a configuration, for the log.
#[derive(Clone, Debug)]
pub struct ConfigWarning {
    pub key: String,
    pub issue: ConfigIssue,
}

/// The unknown keys among `keys`, in order.
pub open spec fn unknown_key_warnings(keys: Seq<Seq<char>>) -> Seq<(Seq<char>, ConfigIssue)>
    decreases keys.len(),
{
    if keys.len() == 0 {
        Seq::empty()
    } else {
        let before = unknown_key_warnings(keys.drop_last());
        if known_key(keys.last()) {
            before
        } else {
            before.push((keys.last(), ConfigIssue::UnknownKey))
        }
    }
}

/// The issue with a number setting that must be `> 0` (`strict`) or `>= 0`.
pub open spec fn float_issue(v: Option<ValueView>, strict: bool) -> Option<ConfigIssue> {
    match v {
        None => None,
        Some(ValueView::Number(n)) => if (strict && number_positive(n)) || (!strict
            && number_nonnegative(n)) {
            None
        } else {
            Some(ConfigIssue::InvalidValue)
        },
        Some(_) => Some(ConfigIssue::InvalidType),
    }
}

/// The issue with an integer setting that must be `> 0` (`strict`) or `>= 0`.
pub open spec fn integer_issue(v: Option<ValueView>, strict: bool) -> Option<ConfigIssue> {
    match v {
        None => None,
        Some(ValueView::Number(n)) => match number_as_i64(n) {
            Some(i) => if (strict && i > 0) || (!strict && i >= 0) {
                None
            } else {
                Some(ConfigIssue::InvalidValue)
            },
            None => Some(ConfigIssue::InvalidType),
        },
        Some(_) => Some(ConfigIssue::InvalidType),
    }
}

/// The issue with a text setting: only its type is checked.
pub open spec fn text_issue(v: Option<ValueView>) -> Option<ConfigIssue> {
    match v {
        Some(ValueView::Text(_)) => None,
        Some(_) => Some(ConfigIssue::InvalidType),
        None => None,
    }
}

pub open spec fn with_issue(
    s: Seq<(Seq<char>, ConfigIssue)>,
    key: Seq<char>,
    issue: Option<ConfigIssue>,
) -> Seq<(Seq<char>, ConfigIssue)> {
    match issue {
        Some(i) => s.push((key, i)),
        None => s,
    }
}

/// The warnings about a raw configuration, in the order they are logged:
/// unknown keys in key order, then the density (under both its names), font size, heading delta,
/// scaling, default table and default gauge settings.
pub open spec fn config_warnings_of(raw: ConfigMap) -> Seq<(Seq<char>, ConfigIssue)> {
    let w0 = unknown_key_warnings(raw.names());
    let w1d = with_issue(w0, "density_lb_ft3"@, float_issue(raw.lookup("density_lb_ft3"@), true));
    let w1 = with_issue(w1d, "steel_density"@, float_issue(raw.lookup("steel_density"@), true));
    let w2 = with_issue(w1, "ui_font_size"@, integer_issue(raw.lookup("ui_font_size"@), true));
    let w3 = with_issue(
        w2,
        "ui_heading_delta"@,
        integer_issue(raw.lookup("ui_heading_delta"@), false),
    );
    let w4 = with_issue(w3, "ui_scaling"@, float_issue(raw.lookup("ui_scaling"@), false));
    let w5 = with_issue(w4, "default_table"@, text_issue(raw.lookup("default_table"@)));
    with_issue(w5, "default_gauge"@, text_issue(raw.lookup("default_gauge"@)))
}

pub open spec fn warnings_view(w: Seq<ConfigWarning>) -> Seq<(Seq<char>, ConfigIssue)> {
    Seq::new(w.len(), |i: int| (w[i].key@, w[i].issue))
}

fn text_is(a: &str, b: &str) -> (r: bool)
    ensures
        r == (a@ == b@),
{
    crate::text::same_chars(&chars_of(a), &chars_of(b))
}

fn is_known_key(k: &str) -> (r: bool)
    ensures
        r == known_key(k@),
{
    text_is(k, "config_version") || text_is(k, "density_lb_ft3") || text_is(k, "steel_density")
        || text_is(k, "ui_font_size")
        || text_is(k, "ui_heading_delta") || text_is(k, "ui_scaling") || text_is(k, "default_table")
        || text_is(k, "default_gauge")
}

fn float_issue_of(v: Option<&ConfigValue>, strict: bool) -> (r: Option<ConfigIssue>)
    ensures
        r == float_issue(
            match v {
                Some(x) => Some(x@),
                None => None,
            },
            strict,
        ),
{
    match v {
        None => None,
        Some(ConfigValue::Number(n)) => if (strict && positive(*n)) || (!strict && nonnegative(*n)) {
            None
        } else {
            Some(ConfigIssue::InvalidValue)
        },
        Some(_) => Some(ConfigIssue::InvalidType),
    }
}

fn integer_issue_of(v: Option<&ConfigValue>, strict: bool) -> (r: Option<ConfigIssue>)
    ensures
        r == integer_issue(
            match v {
                Some(x) => Some(x@),
                None => None,
            },
            strict,
        ),
{
    match v {
        None => None,
        Some(ConfigValue::Number(n)) => match integer_i64(*n) {
            Some(i) => if (strict && i > 0) || (!strict && i >= 0) {
                None
            } else {
                Some(ConfigIssue::InvalidValue)
            },
            None => Some(ConfigIssue::InvalidType),
        },
        Some(_) => Some(ConfigIssue::InvalidType),
    }
}

fn text_issue_of(v: Option<&ConfigValue>) -> (r: Option<ConfigIssue>)
    ensures
        r == text_issue(
            match v {
                Some(x) => Some(x@),
                None => None,
            },
        ),
{
    match v {
        Some(ConfigValue::Text(_)) => None,
        Some(_) => Some(ConfigIssue::InvalidType),
        None => None,
    }
}

fn push_issue(w: &mut Vec<ConfigWarning>, key: &str, issue: Option<ConfigIssue>)
    ensures
        warnings_view(final(w)@) == with_issue(warnings_view(old(w)@), key@, issue),
{
    match issue {
        Some(i) => {
            let ghost before = w@;
            w.push(ConfigWarning { key: String::from_str(key), issue: i });
            assert(warnings_view(w@) =~= warnings_view(before).push((key@, i)));
        },
        None => {},
    }
}

/// The warnings about a raw configuration (see `config_warnings_of`).
pub fn config_warnings(raw: &ConfigMap) -> (r: Vec<ConfigWarning>)
    ensures
        warnings_view(r@) == config_warnings_of(*raw),
{
    let keys = raw.keys();
    let ghost names = raw.names();
    let mut w: Vec<ConfigWarning> = Vec::new();
    let mut i: usize = 0;
    while i < keys.len()
        invariant
            i <= keys.len(),
            keys@.len() == names.len(),
            forall|k: int| 0 <= k < keys@.len() ==> #[trigger] keys@[k]@ == names[k],
            warnings_view(w@) == unknown_key_warnings(names.take(i as int)),
        decreases keys.len() - i,
    {
        assert(names.take(i + 1).drop_last() =~= names.take(i as int));
        if !is_known_key(keys[i].as_str()) {
            let ghost before = w@;
            w.push(ConfigWarning { key: keys[i].clone(), issue: ConfigIssue::UnknownKey });
            assert(warnings_view(w@) =~= warnings_view(before).push((names[i as int], ConfigIssue::UnknownKey)));
        }
        i = i + 1;
    }
    assert(names.take(keys.len() as int) =~= names);
    push_issue(&mut w, "density_lb_ft3", float_issue_of(raw.get("density_lb_ft3"), true));
    push_issue(&mut w, "steel_density", float_issue_of(raw.get("steel_density"), true));
    push_issue(&mut w, "ui_font_size", integer_issue_of(raw.get("ui_font_size"), true));
    push_issue(&mut w, "ui_heading_delta", integer_issue_of(raw.get("ui_heading_delta"), false));
    push_issue(&mut w, "ui_scaling", float_issue_of(raw.get("ui_scaling"), false));
    push_issue(&mut w, "default_table", text_issue_of(raw.get("default_table")));
    push_issue(&mut w, "default_gauge", text_issue_of(raw.get("default_gauge")));
    w
}

/// The JSON type a setting must have: an integer for the font size and the
/// heading delta, a string for the table and the gauge, else a number.
pub open spec fn expected_type(key: Seq<char>) -> Seq<char> {
    if key == "ui_font_size"@ || key == "ui_heading_delta"@ {
        "integer"@
    } else if key == "default_table"@ || key == "default_gauge"@ {
        "string"@
    } else {
        "number"@
    }
}

/// The bound a number setting must meet: `>= 0` for the heading delta and
/// the scaling, else `> 0`.
pub open spec fn value_rule(key: Seq<char>) -> Seq<char> {
    if key == "ui_heading_delta"@ || key == "ui_scaling"@ {
        ">= 0"@
    } else {
        "> 0"@
    }
}

/// The log line for a warning about `key`, where `shown` is the offending
/// value written as JSON.
pub open spec fn warning_text(key: Seq<char>, issue: ConfigIssue, shown: Seq<char>) -> Seq<char> {
    match issue {
        ConfigIssue::UnknownKey => "Config: unknown key '"@ + key + "' ignored"@,
        ConfigIssue::InvalidType => "Config: key '"@ + key + "' has invalid type: expected "@
            + expected_type(key) + ", got "@ + shown,
        ConfigIssue::InvalidValue => "Config: key '"@ + key + "' has invalid value ("@ + shown
            + "): must be "@ + value_rule(key),
    }
}

impl ConfigWarning {
    /// The log line for this warning (see `warning_text`); `shown` is the
    /// offending value written as JSON.
    pub fn message(&self, shown: &str) -> (r: String)
        ensures
            r@ == warning_text(self.key@, self.issue, shown@),
    {
        let key = self.key.as_str();
        let mut out = String::new();
        match self.issue {
            ConfigIssue::UnknownKey => {
                push_text(&mut out, "Config: unknown key '");
                push_text(&mut out, key);
                push_text(&mut out, "' ignored");
            },
            ConfigIssue::InvalidType => {
                push_text(&mut out, "Config: key '");
                push_text(&mut out, key);
                push_text(&mut out, "' has invalid type: expected ");
                if text_is(key, "ui_font_size") || text_is(key, "ui_heading_delta") {
                    push_text(&mut out, "integer");
                } else if text_is(key, "default_table") || text_is(key, "default_gauge") {
                    push_text(&mut out, "string");
                } else {
                    push_text(&mut out, "number");
                }
                push_text(&mut out, ", got ");
                push_text(&mut out, shown);
            },
            ConfigIssue::InvalidValue => {
                push_text(&mut out, "Config: key '");
                push_text(&mut out, key);
                push_text(&mut out, "' has invalid value (");
                push_text(&mut out, shown);
                push_text(&mut out, "): must be ");
                if text_is(key, "ui_heading_delta") || text_is(key, "ui_scaling") {
                    push_text(&mut out, ">= 0");
                } else {
                    push_text(&mut out, "> 0");
                }
            },
        }
        out
    }
}

// ---------------------------------------------------------------------------
// Reading a normalized configuration
// ---------------------------------------------------------------------------

/// The configured default table (see `configured_table`).
pub fn default_table(cleaned: &ConfigMap, tables: &GaugeTables) -> (r: String)
    ensures
        r@ == configured_table(*cleaned, *tables),
{
    match table_value(cleaned, tables) {
        Some(ConfigValue::Text(t)) => t,
        _ => String::from_str(DEFAULT_TABLE_NAME),
    }
}

/// The gauge a configuration asks for: its `default_gauge` text, else the
/// built-in default gauge (`"16"`).
pub open spec fn wanted_gauge(cleaned: ConfigMap) -> Seq<char> {
    match cleaned.lookup("default_gauge"@) {
        Some(ValueView::Text(g)) => g,
        _ => DEFAULT_GAUGE_KEY@,
    }
}

/// The default gauge for a table: the wanted gauge (see `wanted_gauge`) in
/// that table's spelling when the table has it, else the table's first
/// key, else the built-in default gauge.
pub open spec fn configured_gauge(cleaned: ConfigMap, tables: GaugeTables, table: Seq<char>) -> Seq<char> {
    let from_config = match named_table(tables, table) {
        Some(rows) => resolved_key(rows, wanted_gauge(cleaned)),
        None => None,
    };
    match from_config {
        Some(k) => k,
        None => match tables.lookup(table) {
            Some(rows) => if rows.len() > 0 {
                rows[0].0
            } else {
                DEFAULT_GAUGE_KEY@
            },
            None => DEFAULT_GAUGE_KEY@,
        },
    }
}

/// The default gauge of table `table_name` (canonicalized), or of the
/// configured default table when none is given (see `configured_gauge`).
pub fn default_gauge(cleaned: &ConfigMap, tables: &GaugeTables, table_name: Option<&str>) -> (r: String)
    ensures
        r@ == configured_gauge(
            *cleaned,
            *tables,
            canonical_table_name(
                match table_name {
                    Some(t) => t@,
                    None => configured_table(*cleaned, *tables),
                },
            ),
        ),
{
    let chosen = match table_name {
        Some(t) => String::from_str(t),
        None => default_table(cleaned, tables),
    };
    let table = normalize_table_name(chosen.as_str());
    let from_config = match cleaned.get("default_gauge") {
        Some(ConfigValue::Text(g)) => canonical_gauge_key(tables, table.as_str(), g.as_str()),
        _ => canonical_gauge_key(tables, table.as_str(), DEFAULT_GAUGE_KEY),
    };
    match from_config {
        Some(k) => k,
        None => match tables.get(table.as_str()) {
            Some(t) => match t.first_key() {
                Some(k) => String::from_str(k),
                None => String::from_str(DEFAULT_GAUGE_KEY),
            },
            None => String::from_str(DEFAULT_GAUGE_KEY),
        },
    }
}

/// The settings in effect: density and scaling as configured numbers
/// (`None` where the built-in default applies), the default table and
/// gauge, and the font settings.
pub struct EffectiveConfig {
    pub density_lb_ft3: Option<JsonNumber>,
    pub default_table: String,
    pub default_gauge: String,
    pub ui_font_size: i64,
    pub ui_heading_delta: i64,
    pub ui_scaling: Option<JsonNumber>,
}

pub open spec fn number_setting(v: Option<ValueView>) -> Option<JsonNumber> {
    match v {
        Some(ValueView::Number(n)) => Some(n),
        _ => None,
    }
}

/// The configured steel density: `density_lb_ft3`, else `steel_density`
/// (the name the documentation gives), else none (the built-in default).
pub open spec fn configured_density(cleaned: ConfigMap) -> Option<JsonNumber> {
    match number_setting(cleaned.lookup("density_lb_ft3"@)) {
        Some(n) => Some(n),
        None => number_setting(cleaned.lookup("steel_density"@)),
    }
}

pub open spec fn integer_setting(v: Option<ValueView>, default: i64) -> i64 {
    match v {
        Some(ValueView::Number(n)) => match number_as_i64(n) {
            Some(i) => i,
            None => default,
        },
        _ => default,
    }
}

fn number_of(v: Option<&ConfigValue>) -> (r: Option<JsonNumber>)
    ensures
        r == number_setting(
            match v {
                Some(x) => Some(x@),
                None => None,
            },
        ),
{
    match v {
        Some(ConfigValue::Number(n)) => Some(*n),
        _ => None,
    }
}

fn integer_of(v: Option<&ConfigValue>, default: i64) -> (r: i64)
    ensures
        r == integer_setting(
            match v {
                Some(x) => Some(x@),
                None => None,
            },
            default,
        ),
{
    match v {
        Some(ConfigValue::Number(n)) => match integer_i64(*n) {
            Some(i) => i,
            None => default,
        },
        _ => default,
    }
}

/// The settings a normalized configuration puts in effect.
pub fn effective_config(cleaned: &ConfigMap, tables: &GaugeTables) -> (r: EffectiveConfig)
    ensures
        r.density_lb_ft3 == configured_density(*cleaned),
        r.default_table@ == configured_table(*cleaned, *tables),
        r.default_gauge@ == configured_gauge(
            *cleaned,
            *tables,
            canonical_table_name(configured_table(*cleaned, *tables)),
        ),
        r.ui_font_size == integer_setting(cleaned.lookup("ui_font_size"@), UI_FONT_SIZE_DEFAULT),
        r.ui_heading_delta == integer_setting(
            cleaned.lookup("ui_heading_delta"@),
            UI_HEADING_DELTA_DEFAULT,
        ),
        r.ui_scaling == number_setting(cleaned.lookup("ui_scaling"@)),
{
    let table = default_table(cleaned, tables);
    let gauge = default_gauge(cleaned, tables, Some(table.as_str()));
    EffectiveConfig {
        density_lb_ft3: match number_of(cleaned.get("density_lb_ft3")) {
            Some(n) => Some(n),
            None => number_of(cleaned.get("steel_density")),
        },
        default_table: table,
        default_gauge: gauge,
        ui_font_size: integer_of(cleaned.get("ui_font_size"), UI_FONT_SIZE_DEFAULT),
        ui_heading_delta: integer_of(cleaned.get("ui_heading_delta"), UI_HEADING_DELTA_DEFAULT),
        ui_scaling: number_of(cleaned.get("ui_scaling")),
    }
}

// ---------------------------------------------------------------------------
// Loading
// ---------------------------------------------------------------------------

/// The schema version a configuration declares, if it is a `u32`.
pub open spec fn declared_version(raw: ConfigMap) -> Option<u32> {
    match raw.lookup("config_version"@) {
        Some(ValueView::Number(n)) => match number_as_u64(n) {
            Some(v) => if v <= u32::MAX {
                Some(v as u32)
            } else {
                None
            },
            None => None,
        },
        _ => None,
    }
}

/// The schema version a configuration declares (see `declared_version`).
pub fn config_version(raw: &ConfigMap) -> (r: Option<u32>)
    ensures
        r == declared_version(*raw),
{
    match raw.get("config_version") {
        Some(ConfigValue::Number(n)) => match integer_u64(*n) {
            Some(v) => if v <= 4294967295u64 {
                Some(v as u32)
            } else {
                None
            },
            None => None,
        },
        _ => None,
    }
}

/// What loading a configuration file's object comes to.
pub enum ConfigLoad {
    /// A newer schema: the file is left alone and the defaults apply.
    Defaults,
    /// The normalized configuration, and whether the file is rewritten
    /// with it.
    Normalized { cleaned: ConfigMap, rewrite: bool },
}

/// Decides how a configuration object read from the user's file is used:
/// a newer schema version gives the defaults and leaves the file alone; the
/// current version is normalized and rewritten only when normalizing changed
/// it; an older or missing version is normalized and always rewritten.
pub fn plan_config_load(raw: &ConfigMap, tables: &GaugeTables) -> (r: ConfigLoad)
    ensures
        match declared_version(*raw) {
            Some(v) if v > CONFIG_SCHEMA_VERSION => r is Defaults,
            _ => r matches ConfigLoad::Normalized { cleaned, rewrite } && (forall|k: Seq<char>|
                #[trigger] cleaned.lookup(k) == normalized_entry(*raw, *tables, k)) && rewrite == (
            declared_version(*raw) != Some(CONFIG_SCHEMA_VERSION) || raw.named_values()
                != cleaned.named_values()),
        },
{
    match config_version(raw) {
        Some(v) => {
            if v > CONFIG_SCHEMA_VERSION {
                ConfigLoad::Defaults
            } else if v == CONFIG_SCHEMA_VERSION {
                let cleaned = normalize_config(raw, tables);
                let rewrite = !maps_equal(raw, &cleaned);
                ConfigLoad::Normalized { cleaned, rewrite }
            } else {
                ConfigLoad::Normalized { cleaned: normalize_config(raw, tables), rewrite: true }
            }
        },
        None => ConfigLoad::Normalized { cleaned: normalize_config(raw, tables), rewrite: true },
    }
}

/// A normalized configuration declares the current schema version, and
/// holds nothing under a key that is not a recognized setting.
pub proof fn lemma_normalized_declares_version(raw: ConfigMap, tables: GaugeTables, cleaned: ConfigMap)
    requires
        forall|k: Seq<char>| #[trigger] cleaned.lookup(k) == normalized_entry(raw, tables, k),
    ensures
        declared_version(cleaned) == Some(CONFIG_SCHEMA_VERSION),
        forall|k: Seq<char>| !known_key(k) ==> #[trigger] cleaned.lookup(k) is None,
{
    assert(cleaned.lookup("config_version"@) == normalized_entry(raw, tables, "config_version"@));
}

/// A gauge that a table resolves to resolves to itself.
proof fn lemma_resolved_key_stable(rows: Seq<(Seq<char>, u64)>, key: Seq<char>)
    requires
        resolved_key(rows, key) is Some,
    ensures
        trim(resolved_key(rows, key).unwrap()).len() > 0 || trim(key).len() == 0,
        resolved_key(rows, resolved_key(rows, key).unwrap()) == resolved_key(rows, key),
{
    let k = trim(key);
    lemma_trim_idempotent(key);
    if first_value(rows, k) is None {
        let v = crate::keys::decimal_value(k).unwrap();
        lemma_signed_text_trimmed(v.0 / v.1);
    }
}

proof fn lemma_clean_gauge_stable(raw: ConfigMap, tables: GaugeTables, cleaned: ConfigMap)
    requires
        cleaned.lookup("default_gauge"@) == clean_gauge(raw, tables),
        configured_table(cleaned, tables) == configured_table(raw, tables),
    ensures
        clean_gauge(cleaned, tables) == clean_gauge(raw, tables),
{
    match raw.lookup("default_gauge"@) {
        Some(ValueView::Text(g)) => {
            if trim(g).len() > 0 {
                match named_table(tables, configured_table(raw, tables)) {
                    Some(rows) => {
                        if resolved_key(rows, trim(g)) is Some {
                            lemma_trim_idempotent(g);
                            lemma_resolved_key_stable(rows, trim(g));
                            let k = resolved_key(rows, trim(g)).unwrap();
                            lemma_trim_idempotent(k);
                            assert(resolved_key(rows, trim(k)) == Some(k));
                        }
                    },
                    None => {},
                }
            }
        },
        _ => {},
    }
}

/// Normalizing a normalized configuration changes nothing: every setting
/// that normalization keeps is kept again, unchanged.
#[verifier::spinoff_prover]
pub proof fn lemma_normalize_config_idempotent(raw: ConfigMap, tables: GaugeTables, cleaned: ConfigMap)
    requires
        forall|k: Seq<char>| #[trigger] cleaned.lookup(k) == normalized_entry(raw, tables, k),
    ensures
        forall|k: Seq<char>| #[trigger] normalized_entry(cleaned, tables, k) == normalized_entry(raw, tables, k),
{
    lemma_key_literals();
    assert(cleaned.lookup("default_table"@) == clean_table(raw, tables));
    assert(cleaned.lookup("default_gauge"@) == clean_gauge(raw, tables));
    match raw.lookup("default_table"@) {
        Some(ValueView::Text(t)) => lemma_canonical_table_name_idempotent(t),
        _ => {},
    }
    assert(clean_table(cleaned, tables) == clean_table(raw, tables));
    assert(configured_table(cleaned, tables) == configured_table(raw, tables));
    lemma_clean_gauge_stable(raw, tables, cleaned);
    assert(clean_gauge(cleaned, tables) == clean_gauge(raw, tables));
    assert(cleaned.lookup("density_lb_ft3"@) == clean_density(raw));
    assert(cleaned.lookup("steel_density"@) == clean_steel_density(raw));
    assert(cleaned.lookup("ui_font_size"@) == clean_font_size(raw));
    assert(cleaned.lookup("ui_heading_delta"@) == clean_heading_delta(raw));
    assert(cleaned.lookup("ui_scaling"@) == clean_scaling(raw));
}

/// Whether the warnings about `raw` name setting `key`.
pub open spec fn warned(raw: ConfigMap, key: Seq<char>) -> bool {
    exists|issue: ConfigIssue| #[trigger] config_warnings_of(raw).contains((key, issue))
}

proof fn lemma_unknown_warnings_unknown(keys: Seq<Seq<char>>)
    ensures
        forall|x: (Seq<char>, ConfigIssue)| #[trigger] unknown_key_warnings(keys).contains(x) ==> !known_key(x.0),
    decreases keys.len(),
{
    if keys.len() > 0 {
        lemma_unknown_warnings_unknown(keys.drop_last());
        let before = unknown_key_warnings(keys.drop_last());
        assert forall|x: (Seq<char>, ConfigIssue)| #[trigger] unknown_key_warnings(keys).contains(x) implies !known_key(x.0) by {
            if !known_key(keys.last()) {
                let w = before.push((keys.last(), ConfigIssue::UnknownKey));
                let k = choose|k: int| 0 <= k < w.len() && w[k] == x;
                if k < before.len() {
                    assert(before.contains(x));
                }
            }
        }
    }
}

proof fn lemma_with_issue_contains(
    s: Seq<(Seq<char>, ConfigIssue)>,
    key: Seq<char>,
    issue: Option<ConfigIssue>,
    x: (Seq<char>, ConfigIssue),
)
    ensures
        with_issue(s, key, issue).contains(x) <==> (s.contains(x) || (issue is Some && x == (key, issue.unwrap()))),
{
    if issue is Some {
        let w = s.push((key, issue.unwrap()));
        if w.contains(x) {
            let k = choose|k: int| 0 <= k < w.len() && w[k] == x;
            if k < s.len() {
                assert(s.contains(x));
            }
        }
        if s.contains(x) {
            let k = choose|k: int| 0 <= k < s.len() && s[k] == x;
            assert(w[k] == x);
        }
        if x == (key, issue.unwrap()) {
            assert(w[s.len() as int] == x);
        }
    }
}

/// The issue the warnings report for each setting, if any: for a recognized
/// setting, its own check; an unrecognized key is reported as unknown.
proof fn lemma_warning_for_setting(raw: ConfigMap, key: Seq<char>, issue: ConfigIssue)
    ensures
        config_warnings_of(raw).contains((key, issue)) <==> (if key == "density_lb_ft3"@ {
            float_issue(raw.lookup(key), true) == Some(issue)
        } else if key == "steel_density"@ {
            float_issue(raw.lookup(key), true) == Some(issue)
        } else if key == "ui_font_size"@ {
            integer_issue(raw.lookup(key), true) == Some(issue)
        } else if key == "ui_heading_delta"@ {
            integer_issue(raw.lookup(key), false) == Some(issue)
        } else if key == "ui_scaling"@ {
            float_issue(raw.lookup(key), false) == Some(issue)
        } else if key == "default_table"@ || key == "default_gauge"@ {
            text_issue(raw.lookup(key)) == Some(issue)
        } else {
            unknown_key_warnings(raw.names()).contains((key, issue))
        }),
{
    lemma_key_literals();
    lemma_unknown_warnings_unknown(raw.names());
    let x = (key, issue);
    let w0 = unknown_key_warnings(raw.names());
    let w1d = with_issue(w0, "density_lb_ft3"@, float_issue(raw.lookup("density_lb_ft3"@), true));
    let w1 = with_issue(w1d, "steel_density"@, float_issue(raw.lookup("steel_density"@), true));
    let w2 = with_issue(w1, "ui_font_size"@, integer_issue(raw.lookup("ui_font_size"@), true));
    let w3 = with_issue(w2, "ui_heading_delta"@, integer_issue(raw.lookup("ui_heading_delta"@), false));
    let w4 = with_issue(w3, "ui_scaling"@, float_issue(raw.lookup("ui_scaling"@), false));
    let w5 = with_issue(w4, "default_table"@, text_issue(raw.lookup("default_table"@)));
    lemma_with_issue_contains(w0, "density_lb_ft3"@, float_issue(raw.lookup("density_lb_ft3"@), true), x);
    lemma_with_issue_contains(w1d, "steel_density"@, float_issue(raw.lookup("steel_density"@), true), x);
    lemma_with_issue_contains(w1, "ui_font_size"@, integer_issue(raw.lookup("ui_font_size"@), true), x);
    lemma_with_issue_contains(w2, "ui_heading_delta"@, integer_issue(raw.lookup("ui_heading_delta"@), false), x);
    lemma_with_issue_contains(w3, "ui_scaling"@, float_issue(raw.lookup("ui_scaling"@), false), x);
    lemma_with_issue_contains(w4, "default_table"@, text_issue(raw.lookup("default_table"@)), x);
    lemma_with_issue_contains(w5, "default_gauge"@, text_issue(raw.lookup("default_gauge"@)), x);
    if known_key(key) {
        assert(!w0.contains(x));
    }
}

/// Normalization and the warnings agree: a number setting (the density under
/// either name, the font size, the heading delta, the scaling) is kept
/// exactly when it is present and no warning names it, and no setting that
/// a warning names is kept. In particular a heading delta that is an `i64`
/// integer `>= 0` and a font size that is an `i64` integer `> 0` are kept
/// unchanged, and a negative heading delta or a font size `<= 0` dropped; a
/// whole-number density (under either name) is kept, as a double, exactly
/// when it is `> 0`, and a whole-number scaling exactly when it is `>= 0`.
pub proof fn lemma_kept_unless_warned(raw: ConfigMap, tables: GaugeTables)
    ensures
        forall|k: Seq<char>|
            (k == "density_lb_ft3"@ || k == "steel_density"@ || k == "ui_font_size"@ || k == "ui_heading_delta"@
                || k == "ui_scaling"@) ==> (#[trigger] normalized_entry(raw, tables, k) is Some <==> (raw.lookup(
                k,
            ) is Some && !warned(raw, k))),
        forall|k: Seq<char>| warned(raw, k) ==> #[trigger] normalized_entry(raw, tables, k) is None,
        (raw.lookup("ui_heading_delta"@) matches Some(ValueView::Number(JsonNumber::Integer(v))) && 0 <= v
            <= i64::MAX) ==> normalized_entry(raw, tables, "ui_heading_delta"@) == raw.lookup("ui_heading_delta"@),
        (raw.lookup("ui_font_size"@) matches Some(ValueView::Number(JsonNumber::Integer(v))) && 0 < v
            <= i64::MAX) ==> normalized_entry(raw, tables, "ui_font_size"@) == raw.lookup("ui_font_size"@),
        (raw.lookup("ui_heading_delta"@) matches Some(ValueView::Number(JsonNumber::Integer(v))) && v < 0)
            ==> normalized_entry(raw, tables, "ui_heading_delta"@) is None,
        (raw.lookup("ui_font_size"@) matches Some(ValueView::Number(JsonNumber::Integer(v))) && v <= 0)
            ==> normalized_entry(raw, tables, "ui_font_size"@) is None,
        forall|k: Seq<char>|
            (k == "density_lb_ft3"@ || k == "steel_density"@) ==> (raw.lookup(k) matches Some(
                ValueView::Number(JsonNumber::Integer(v)),
            ) ==> #[trigger] normalized_entry(raw, tables, k) == if v > 0 {
                Some(ValueView::Number(JsonNumber::IntegerAsFloat(v)))
            } else {
                None
            }),
        raw.lookup("ui_scaling"@) matches Some(ValueView::Number(JsonNumber::Integer(v))) ==> normalized_entry(
            raw,
            tables,
            "ui_scaling"@,
        ) == if v >= 0 {
            Some(ValueView::Number(JsonNumber::IntegerAsFloat(v)))
        } else {
            None
        },
{
    lemma_key_literals();
    assert forall|k: Seq<char>|
        (k == "density_lb_ft3"@ || k == "steel_density"@ || k == "ui_font_size"@ || k == "ui_heading_delta"@
            || k == "ui_scaling"@) implies (#[trigger] normalized_entry(raw, tables, k) is Some <==> (raw.lookup(
            k,
        ) is Some && !warned(raw, k))) by {
        if warned(raw, k) {
            let issue = choose|issue: ConfigIssue| #[trigger] config_warnings_of(raw).contains((k, issue));
            lemma_warning_for_setting(raw, k, issue);
        }
        if raw.lookup(k) is Some && normalized_entry(raw, tables, k) is None {
            let issue = if k == "density_lb_ft3"@ || k == "steel_density"@ {
                float_issue(raw.lookup(k), true)
            } else if k == "ui_font_size"@ {
                integer_issue(raw.lookup(k), true)
            } else if k == "ui_heading_delta"@ {
                integer_issue(raw.lookup(k), false)
            } else {
                float_issue(raw.lookup(k), false)
            };
            lemma_warning_for_setting(raw, k, issue.unwrap());
            assert(config_warnings_of(raw).contains((k, issue.unwrap())));
        }
    }
    assert forall|k: Seq<char>| warned(raw, k) implies #[trigger] normalized_entry(raw, tables, k) is None by {
        let issue = choose|issue: ConfigIssue| #[trigger] config_warnings_of(raw).contains((k, issue));
        lemma_warning_for_setting(raw, k, issue);
        lemma_unknown_warnings_unknown(raw.names());
        if !known_key(k) {
            assert(unknown_key_warnings(raw.names()).contains((k, issue)));
        }
    }
}

} // verus!
