//! Batch files of calculation jobs: reading sheet jobs from CSV, checking
//! the jobs' fields, and the decisions a batch run makes for each job.
//!
//! A CSV file is split into records by the `csv` crate; everything after
//! that (headers, cells, field syntax, error messages) is decided here.
use vstd::prelude::*;

use crate::cli::SheetSource;
use crate::gauges::{canonical_table_name, normalize_table_name};
use crate::inputs::{i32_literal, read_i32};
use crate::text::{
    chars_of, is_digit, push_text, signed_decimal, signed_text, string_of, trim, trimmed_chars,
};

verus! {

broadcast use vstd::string::group_string_axioms;

/// The kind of jobs a batch file holds.
#[derive(Clone, Copy, Debug, PartialEq, Eq, Structural)]
pub enum BatchJobType {
    Sheet,
    Coil,
    Scrap,
}

// ---------------------------------------------------------------------------
// Number syntax
// ---------------------------------------------------------------------------

pub open spec fn all_digits(s: Seq<char>) -> bool {
    forall|i: int| 0 <= i < s.len() ==> is_digit(#[trigger] s[i])
}

/// Digits with at most one point, and at least one digit.
pub open spec fn mantissa_ok(m: Seq<char>) -> bool {
    ||| m.len() > 0 && all_digits(m)
    ||| exists|p: int|
        0 <= p < m.len() && m[p] == '.' && all_digits(m.take(p)) && all_digits(m.skip(p + 1))
            && m.len() > 1
}

pub open spec fn has_sign(s: Seq<char>) -> bool {
    s.len() > 0 && (s[0] == '+' || s[0] == '-')
}

pub open spec fn unsigned(s: Seq<char>) -> Seq<char> {
    if has_sign(s) {
        s.drop_first()
    } else {
        s
    }
}

/// An optional sign, then one or more digits.
pub open spec fn exponent_ok(x: Seq<char>) -> bool {
    unsigned(x).len() > 0 && all_digits(unsigned(x))
}

pub open spec fn is_exponent_mark(c: char) -> bool {
    c == 'e' || c == 'E'
}

/// Position of the first exponent mark.
pub open spec fn exponent_at(s: Seq<char>) -> Option<int> {
    if exists|k: int| 0 <= k < s.len() && is_exponent_mark(#[trigger] s[k]) {
        Some(choose|k: int| 0 <= k < s.len() && is_exponent_mark(s[k]) && forall|j: int| 0 <= j < k ==> !is_exponent_mark(#[trigger] s[j]))
    } else {
        None
    }
}

/// A decimal number with an optional exponent.
pub open spec fn number_ok(b: Seq<char>) -> bool {
    match exponent_at(b) {
        Some(k) => mantissa_ok(b.take(k)) && exponent_ok(b.skip(k + 1)),
        None => mantissa_ok(b),
    }
}

pub open spec fn ascii_lower_char(c: char) -> char {
    if 'A' <= c && c <= 'Z' {
        ((c as u32) + 32) as char
    } else {
        c
    }
}

/// `s` equals `word` ignoring ASCII case (`word` is lower case).
pub open spec fn same_word(s: Seq<char>, word: Seq<char>) -> bool {
    s.len() == word.len() && forall|i: int| 0 <= i < s.len() ==> ascii_lower_char(#[trigger] s[i]) == word[i]
}

/// Text that `str::parse::<f64>` accepts: an optional sign, then `inf`,
/// `infinity` or `nan` in any case, or a decimal number with an optional
/// exponent.
pub open spec fn float_literal(s: Seq<char>) -> bool {
    let b = unsigned(s);
    same_word(b, "inf"@) || same_word(b, "infinity"@) || same_word(b, "nan"@) || number_ok(b)
}

fn digits_between(s: &Vec<char>, from: usize, to: usize) -> (r: bool)
    requires
        from <= to <= s.len(),
    ensures
        r == all_digits(s@.subrange(from as int, to as int)),
{
    let mut i = from;
    while i < to
        invariant
            from <= i <= to <= s.len(),
            forall|k: int| from <= k < i ==> is_digit(s@[k]),
        decreases to - i,
    {
        if !('0' <= s[i] && s[i] <= '9') {
            assert(s@.subrange(from as int, to as int)[i - from] == s@[i as int]);
            return false;
        }
        i = i + 1;
    }
    assert forall|k: int| 0 <= k < to - from implies is_digit(#[trigger] s@.subrange(from as int, to as int)[k]) by {
        assert(s@.subrange(from as int, to as int)[k] == s@[from + k]);
    }
    true
}

fn mantissa_between(s: &Vec<char>, from: usize, to: usize) -> (r: bool)
    requires
        from <= to <= s.len(),
    ensures
        r == mantissa_ok(s@.subrange(from as int, to as int)),
{
    let ghost m = s@.subrange(from as int, to as int);
    let mut p = from;
    while p < to && s[p] != '.'
        invariant
            from <= p <= to <= s.len(),
            forall|k: int| from <= k < p ==> s@[k] != '.',
        decreases to - p,
    {
        p = p + 1;
    }
    if p == to {
        let r = to > from && digits_between(s, from, to);
        proof {
            if !r && to > from {
                assert(!all_digits(m));
                assert forall|q: int| 0 <= q < m.len() && m[q] == '.' implies false by {
                    assert(m[q] == s@[from + q]);
                }
            }
        }
        r
    } else {
        let before = digits_between(s, from, p);
        let after = digits_between(s, p + 1, to);
        let r = before && after && to - from > 1;
        proof {
            let q = p - from;
            assert(m.take(q) =~= s@.subrange(from as int, p as int));
            assert(m.skip(q + 1) =~= s@.subrange(p + 1, to as int));
            assert(m[q] == '.');
            assert(!all_digits(m)) by {
                assert(!is_digit(m[q]));
            }
            if !r {
                assert forall|q2: int|
                    0 <= q2 < m.len() && m[q2] == '.' && all_digits(m.take(q2)) && all_digits(
                        m.skip(q2 + 1),
                    ) && m.len() > 1 implies false by {
                    if q2 < q {
                        assert(m.skip(q2 + 1)[q - q2 - 1] == m[q]);
                    } else if q2 > q {
                        assert(m.take(q2)[q] == m[q]);
                    }
                }
            }
        }
        r
    }
}

fn word_between(s: &Vec<char>, from: usize, word: &str) -> (r: bool)
    requires
        from <= s.len(),
    ensures
        r == same_word(s@.skip(from as int), word@),
{
    let w = chars_of(word);
    if s.len() - from != w.len() {
        return false;
    }
    let mut i: usize = 0;
    while i < w.len()
        invariant
            i <= w.len(),
            s.len() - from == w.len(),
            w@ == word@,
            forall|k: int| 0 <= k < i ==> ascii_lower_char(#[trigger] s@.skip(from as int)[k]) == w@[k],
        decreases w.len() - i,
    {
        let c = s[from + i];
        let lc = if 'A' <= c && c <= 'Z' {
            ((c as u32) + 32) as u8 as char
        } else {
            c
        };
        assert(s@.skip(from as int)[i as int] == c);
        if lc != w[i] {
            return false;
        }
        i = i + 1;
    }
    true
}

/// Whether `s` is text that `str::parse::<f64>` accepts (see
/// `float_literal`).
pub fn is_float_literal(s: &Vec<char>) -> (r: bool)
    ensures
        r == float_literal(s@),
{
    let start: usize = if s.len() > 0 && (s[0] == '+' || s[0] == '-') {
        1
    } else {
        0
    };
    let ghost b = unsigned(s@);
    assert(b =~= s@.skip(start as int));
    if word_between(s, start, "inf") || word_between(s, start, "infinity") || word_between(
        s,
        start,
        "nan",
    ) {
        return true;
    }
    let mut k = start;
    while k < s.len() && s[k] != 'e' && s[k] != 'E'
        invariant
            start <= k <= s.len(),
            forall|j: int| start <= j < k ==> !is_exponent_mark(#[trigger] s@[j]),
        decreases s.len() - k,
    {
        k = k + 1;
    }
    if k == s.len() {
        proof {
            assert(b =~= s@.subrange(start as int, s.len() as int));
            assert(!exists|j: int| 0 <= j < b.len() && is_exponent_mark(#[trigger] b[j])) by {
                assert forall|j: int| 0 <= j < b.len() implies !is_exponent_mark(#[trigger] b[j]) by {
                    assert(b[j] == s@[start + j]);
                }
            }
        }
        mantissa_between(s, start, s.len())
    } else {
        let m = mantissa_between(s, start, k);
        let es: usize = if k + 1 < s.len() && (s[k + 1] == '+' || s[k + 1] == '-') {
            k + 2
        } else {
            k + 1
        };
        let e = es < s.len() && digits_between(s, es, s.len());
        proof {
            let q = k - start;
            assert(b[q] == s@[k as int]);
            assert forall|j: int| 0 <= j < q implies !is_exponent_mark(#[trigger] b[j]) by {
                assert(b[j] == s@[start + j]);
            }
            let c = choose|c: int| 0 <= c < b.len() && is_exponent_mark(b[c]) && forall|j: int| 0 <= j < c ==> !is_exponent_mark(#[trigger] b[j]);
            if c < q {
                assert(b[c] == s@[start + c]);
            }
            if c > q {
                assert(!is_exponent_mark(b[q]));
            }
            assert(c == q);
            assert(b.take(q) =~= s@.subrange(start as int, k as int));
            let x = b.skip(q + 1);
            assert(x =~= s@.skip(k + 1));
            assert(unsigned(x) =~= s@.subrange(es as int, s.len() as int));
        }
        m && e
    }
}

// ---------------------------------------------------------------------------
// CSV records
// ---------------------------------------------------------------------------

/// The result of splitting CSV bytes into records (fields trimmed).
pub struct CsvRecords {
    /// The header record, or the reader's error message.
    pub headers: Result<Vec<String>, String>,
    /// Each following record, or the reader's error message for it.
    pub records: Vec<Result<Vec<String>, String>>,
}

/// `CsvRecords` with its texts as characters.
pub struct CsvRecordsView {
    pub headers: Result<Seq<Seq<char>>, Seq<char>>,
    pub records: Seq<Result<Seq<Seq<char>>, Seq<char>>>,
}

pub open spec fn texts_of(v: Seq<String>) -> Seq<Seq<char>> {
    Seq::new(v.len(), |i: int| v[i]@)
}

pub open spec fn record_view(r: Result<Vec<String>, String>) -> Result<Seq<Seq<char>>, Seq<char>> {
    match r {
        Ok(fields) => Ok(texts_of(fields@)),
        Err(e) => Err(e@),
    }
}

impl View for CsvRecords {
    type V = CsvRecordsView;

    open spec fn view(&self) -> CsvRecordsView {
        CsvRecordsView {
            headers: record_view(self.headers),
            records: Seq::new(self.records@.len(), |i: int| record_view(self.records@[i])),
        }
    }
}

/// What the `csv` crate's reader, trimming all fields, makes of these bytes.
pub uninterp spec fn csv_records_of(bytes: Seq<u8>) -> CsvRecordsView;

/// `csv::ReaderBuilder` with `Trim::All`: the header record and every
/// record after it, each field as text, each error as its message. When the
/// header cannot be read no record is read.
#[verifier::external_body]
fn read_csv_records(bytes: &[u8]) -> (r: CsvRecords)
    ensures
        r@ == csv_records_of(bytes@),
{
    let mut reader = csv::ReaderBuilder::new().trim(csv::Trim::All).from_reader(bytes);
    let headers = match reader.headers() {
        Ok(h) => Ok(h.iter().map(|f| f.to_string()).collect::<Vec<String>>()),
        Err(e) => return CsvRecords { headers: Err(e.to_string()), records: Vec::new() },
    };
    let records = reader
        .records()
        .map(|r| r.map(|rec| rec.iter().map(|f| f.to_string()).collect()).map_err(|e| e.to_string()))
        .collect();
    CsvRecords { headers, records }
}

// ---------------------------------------------------------------------------
// Sheet jobs from CSV
// ---------------------------------------------------------------------------

/// A sheet job read from a CSV row. Number fields hold their text, which
/// `str::parse::<f64>` accepts.
#[derive(Clone, Debug)]
pub struct CsvSheetJob {
    pub width: Option<String>,
    pub length: Option<String>,
    pub qty: Option<i32>,
    pub gauge: Option<String>,
    pub table: Option<String>,
    pub psf: Option<String>,
    pub thickness: Option<String>,
    pub density: Option<String>,
}

/// One row of a CSV batch file: its position, the job or why it could not
/// be read, and the row's non-blank fields by header.
#[derive(Clone, Debug)]
pub struct CsvJobRecord {
    pub row_index: usize,
    pub job: Option<CsvSheetJob>,
    pub parse_error: Option<String>,
    pub raw_fields: Vec<(String, String)>,
}

/// A header as the batch reader compares it: trimmed, ASCII lower case.
pub open spec fn header_key(h: Seq<char>) -> Seq<char> {
    Seq::new(trim(h).len(), |i: int| ascii_lower_char(trim(h)[i]))
}

/// The first position of `s` whose item satisfies `p`.
pub open spec fn first_where<A>(s: Seq<A>, p: spec_fn(A) -> bool) -> Option<int>
    decreases s.len(),
{
    if s.len() == 0 {
        None
    } else {
        match first_where(s.drop_last(), p) {
            Some(i) => Some(i),
            None => if p(s.last()) {
                Some(s.len() - 1)
            } else {
                None
            },
        }
    }
}

proof fn lemma_first_where<A>(s: Seq<A>, p: spec_fn(A) -> bool)
    ensures
        match first_where(s, p) {
            Some(i) => 0 <= i < s.len() && p(s[i]) && forall|j: int| 0 <= j < i ==> !p(#[trigger] s[j]),
            None => forall|i: int| 0 <= i < s.len() ==> !p(#[trigger] s[i]),
        },
    decreases s.len(),
{
    if s.len() > 0 {
        let t = s.drop_last();
        lemma_first_where(t, p);
        assert forall|i: int| 0 <= i < t.len() implies t[i] == s[i] by {}
    }
}

proof fn lemma_first_where_prefix<A>(s: Seq<A>, p: spec_fn(A) -> bool, k: int)
    requires
        0 <= k <= s.len(),
        first_where(s.take(k), p) is Some,
    ensures
        first_where(s, p) == first_where(s.take(k), p),
    decreases s.len(),
{
    if k < s.len() {
        assert(s.drop_last().take(k) =~= s.take(k));
        lemma_first_where_prefix(s.drop_last(), p, k);
    } else {
        assert(s.take(k) =~= s);
    }
}

/// The first position of `name` among `headers`.
pub open spec fn header_position(headers: Seq<Seq<char>>, name: Seq<char>) -> Option<int> {
    first_where(headers, |h: Seq<char>| h == name)
}

/// The trimmed, non-blank cell of a row under header `name`.
pub open spec fn cell_of(headers: Seq<Seq<char>>, row: Seq<Seq<char>>, name: Seq<char>) -> Option<Seq<char>> {
    match header_position(headers, name) {
        Some(i) => if i < row.len() && trim(row[i]).len() > 0 {
            Some(trim(row[i]))
        } else {
            None
        },
        None => None,
    }
}

/// "invalid value for '<name>': '<value>'".
pub open spec fn invalid_value_text(name: Seq<char>, value: Seq<char>) -> Seq<char> {
    "invalid value for '"@ + name + "': '"@ + value + "'"@
}

/// The error of a number cell that does not parse, if any.
pub open spec fn float_cell_error(headers: Seq<Seq<char>>, row: Seq<Seq<char>>, name: Seq<char>) -> Option<Seq<char>> {
    match cell_of(headers, row, name) {
        Some(v) => if float_literal(v) {
            None
        } else {
            Some(invalid_value_text(name, v))
        },
        None => None,
    }
}

pub open spec fn int_cell_error(headers: Seq<Seq<char>>, row: Seq<Seq<char>>, name: Seq<char>) -> Option<Seq<char>> {
    match cell_of(headers, row, name) {
        Some(v) => if i32_literal(v) is Some {
            None
        } else {
            Some(invalid_value_text(name, v))
        },
        None => None,
    }
}

/// The first field of a row that does not parse, in the order the job's
/// fields are read: width, length, qty, psf, thickness, density.
pub open spec fn row_error(headers: Seq<Seq<char>>, row: Seq<Seq<char>>) -> Option<Seq<char>> {
    if float_cell_error(headers, row, "width"@) is Some {
        float_cell_error(headers, row, "width"@)
    } else if float_cell_error(headers, row, "length"@) is Some {
        float_cell_error(headers, row, "length"@)
    } else if int_cell_error(headers, row, "qty"@) is Some {
        int_cell_error(headers, row, "qty"@)
    } else if float_cell_error(headers, row, "psf"@) is Some {
        float_cell_error(headers, row, "psf"@)
    } else if float_cell_error(headers, row, "thickness"@) is Some {
        float_cell_error(headers, row, "thickness"@)
    } else {
        float_cell_error(headers, row, "density"@)
    }
}

pub open spec fn text_option(o: Option<String>) -> Option<Seq<char>> {
    match o {
        Some(s) => Some(s@),
        None => None,
    }
}

/// The job read from a row whose fields all parse.
pub open spec fn row_job(headers: Seq<Seq<char>>, row: Seq<Seq<char>>, job: CsvSheetJob) -> bool {
    &&& text_option(job.width) == cell_of(headers, row, "width"@)
    &&& text_option(job.length) == cell_of(headers, row, "length"@)
    &&& job.qty == match cell_of(headers, row, "qty"@) {
        Some(v) => i32_literal(v),
        None => None,
    }
    &&& text_option(job.gauge) == cell_of(headers, row, "gauge"@)
    &&& text_option(job.table) == cell_of(headers, row, "table"@)
    &&& text_option(job.psf) == cell_of(headers, row, "psf"@)
    &&& text_option(job.thickness) == cell_of(headers, row, "thickness"@)
    &&& text_option(job.density) == cell_of(headers, row, "density"@)
}

/// The (header, cell) pairs of a row's non-blank cells, in header order.
pub open spec fn raw_pairs(headers: Seq<Seq<char>>, row: Seq<Seq<char>>) -> Seq<(Seq<char>, Seq<char>)>
    decreases headers.len(),
{
    if headers.len() == 0 {
        Seq::empty()
    } else {
        let k = headers.len() - 1;
        let before = raw_pairs(headers.drop_last(), row);
        if k < row.len() && trim(row[k]).len() > 0 {
            before.push((headers[k], trim(row[k])))
        } else {
            before
        }
    }
}

pub open spec fn pairs_view(v: Seq<(String, String)>) -> Seq<(Seq<char>, Seq<char>)> {
    Seq::new(v.len(), |i: int| (v[i].0@, v[i].1@))
}

fn lower_header(h: &String) -> (r: String)
    ensures
        r@ == header_key(h@),
{
    let t = trimmed_chars(h.as_str());
    let mut out: Vec<char> = Vec::new();
    let mut i: usize = 0;
    while i < t.len()
        invariant
            i <= t.len(),
            t@ == trim(h@),
            out@ == Seq::new(i as nat, |k: int| ascii_lower_char(t@[k])),
        decreases t.len() - i,
    {
        let c = t[i];
        let lc = if 'A' <= c && c <= 'Z' {
            ((c as u32) + 32) as u8 as char
        } else {
            c
        };
        out.push(lc);
        assert(out@ =~= Seq::new((i + 1) as nat, |k: int| ascii_lower_char(t@[k])));
        i = i + 1;
    }
    string_of(&out)
}

fn find_header(headers: &Vec<String>, name: &str) -> (r: Option<usize>)
    ensures
        match r {
            Some(i) => header_position(texts_of(headers@), name@) == Some(i as int),
            None => header_position(texts_of(headers@), name@) is None,
        },
{
    let ghost hs = texts_of(headers@);
    let n = chars_of(name);
    let mut i: usize = 0;
    assert(hs.take(0) =~= Seq::<Seq<char>>::empty());
    while i < headers.len()
        invariant
            i <= headers.len(),
            hs == texts_of(headers@),
            n@ == name@,
            header_position(hs.take(i as int), name@) is None,
        decreases headers.len() - i,
    {
        assert(hs.take(i + 1).drop_last() =~= hs.take(i as int));
        assert(hs.take(i + 1).last() == headers@[i as int]@);
        if crate::text::same_chars(&chars_of(headers[i].as_str()), &n) {
            proof {
                lemma_first_where_prefix(hs, |h: Seq<char>| h == name@, i + 1);
            }
            return Some(i);
        }
        i = i + 1;
    }
    assert(hs.take(headers.len() as int) =~= hs);
    None
}

fn cell(headers: &Vec<String>, row: &Vec<String>, name: &str) -> (r: Option<String>)
    ensures
        text_option(r) == cell_of(texts_of(headers@), texts_of(row@), name@),
{
    match find_header(headers, name) {
        Some(i) => {
            if i < row.len() {
                let v = trimmed_chars(row[i].as_str());
                assert(texts_of(row@)[i as int] == row@[i as int]@);
                if v.len() > 0 {
                    Some(string_of(&v))
                } else {
                    None
                }
            } else {
                None
            }
        },
        None => None,
    }
}

fn invalid_value(name: &str, value: &String) -> (r: String)
    ensures
        r@ == invalid_value_text(name@, value@),
{
    let mut m = String::from_str("invalid value for '");
    push_text(&mut m, name);
    push_text(&mut m, "': '");
    push_text(&mut m, value.as_str());
    push_text(&mut m, "'");
    m
}

fn float_cell(headers: &Vec<String>, row: &Vec<String>, name: &str) -> (r: Result<Option<String>, String>)
    ensures
        match r {
            Ok(v) => float_cell_error(texts_of(headers@), texts_of(row@), name@) is None && text_option(v)
                == cell_of(texts_of(headers@), texts_of(row@), name@),
            Err(e) => float_cell_error(texts_of(headers@), texts_of(row@), name@) == Some(e@),
        },
{
    match cell(headers, row, name) {
        Some(v) => {
            if is_float_literal(&chars_of(v.as_str())) {
                Ok(Some(v))
            } else {
                Err(invalid_value(name, &v))
            }
        },
        None => Ok(None),
    }
}

fn int_cell(headers: &Vec<String>, row: &Vec<String>, name: &str) -> (r: Result<Option<i32>, String>)
    ensures
        match r {
            Ok(v) => int_cell_error(texts_of(headers@), texts_of(row@), name@) is None && v == match cell_of(
                texts_of(headers@),
                texts_of(row@),
                name@,
            ) {
                Some(t) => i32_literal(t),
                None => None,
            },
            Err(e) => int_cell_error(texts_of(headers@), texts_of(row@), name@) == Some(e@),
        },
{
    match cell(headers, row, name) {
        Some(v) => match read_i32(&chars_of(v.as_str())) {
            Some(q) => Ok(Some(q)),
            None => Err(invalid_value(name, &v)),
        },
        None => Ok(None),
    }
}

/// Reads a sheet job from a CSV row: the first field that does not parse
/// gives the error (see `row_error`), else every field is read (see
/// `row_job`).
pub fn parse_csv_row(headers: &Vec<String>, row: &Vec<String>) -> (r: Result<CsvSheetJob, String>)
    ensures
        match row_error(texts_of(headers@), texts_of(row@)) {
            Some(m) => r matches Err(e) && e@ == m,
            None => r matches Ok(job) && row_job(texts_of(headers@), texts_of(row@), job),
        },
{
    let width = match float_cell(headers, row, "width") {
        Ok(v) => v,
        Err(e) => return Err(e),
    };
    let length = match float_cell(headers, row, "length") {
        Ok(v) => v,
        Err(e) => return Err(e),
    };
    let qty = match int_cell(headers, row, "qty") {
        Ok(v) => v,
        Err(e) => return Err(e),
    };
    let gauge = cell(headers, row, "gauge");
    let table = cell(headers, row, "table");
    let psf = match float_cell(headers, row, "psf") {
        Ok(v) => v,
        Err(e) => return Err(e),
    };
    let thickness = match float_cell(headers, row, "thickness") {
        Ok(v) => v,
        Err(e) => return Err(e),
    };
    let density = match float_cell(headers, row, "density") {
        Ok(v) => v,
        Err(e) => return Err(e),
    };
    Ok(CsvSheetJob { width, length, qty, gauge, table, psf, thickness, density })
}

fn raw_fields(headers: &Vec<String>, row: &Vec<String>) -> (r: Vec<(String, String)>)
    ensures
        pairs_view(r@) == raw_pairs(texts_of(headers@), texts_of(row@)),
{
    let ghost hs = texts_of(headers@);
    let ghost rs = texts_of(row@);
    let mut out: Vec<(String, String)> = Vec::new();
    let mut i: usize = 0;
    while i < headers.len()
        invariant
            i <= headers.len(),
            hs == texts_of(headers@),
            rs == texts_of(row@),
            pairs_view(out@) == raw_pairs(hs.take(i as int), rs),
        decreases headers.len() - i,
    {
        assert(hs.take(i + 1).drop_last() =~= hs.take(i as int));
        assert(hs.take(i + 1)[i as int] == headers@[i as int]@);
        if i < row.len() {
            let v = trimmed_chars(row[i].as_str());
            assert(rs[i as int] == row@[i as int]@);
            if v.len() > 0 {
                let ghost before = out@;
                out.push((headers[i].clone(), string_of(&v)));
                assert(pairs_view(out@) =~= pairs_view(before).push((hs[i as int], trim(rs[i as int]))));
            }
        }
        i = i + 1;
    }
    assert(hs.take(headers.len() as int) =~= hs);
    out
}

/// "missing required CSV header '<name>'" for the first of width and length
/// that no header names.
pub open spec fn missing_header_error(keys: Seq<Seq<char>>) -> Option<Seq<char>> {
    if !keys.contains("width"@) {
        Some("missing required CSV header 'width'"@)
    } else if !keys.contains("length"@) {
        Some("missing required CSV header 'length'"@)
    } else {
        None
    }
}

/// The position of the first record the reader rejected.
pub open spec fn first_failed(records: Seq<Result<Seq<Seq<char>>, Seq<char>>>) -> Option<int> {
    first_where(records, |r: Result<Seq<Seq<char>>, Seq<char>>| r is Err)
}

/// The records of a CSV batch file given how its bytes split into records:
/// headers are trimmed and lower-cased, width and length must be among
/// them, a record the reader rejects fails the whole file, and each other
/// record becomes a sheet job or a row error.
pub open spec fn csv_jobs_outcome(read: CsvRecordsView, r: Result<Vec<CsvJobRecord>, String>) -> bool {
    match read.headers {
        Err(e) => r matches Err(m) && m@ == "failed to read CSV headers: "@ + e,
        Ok(raw_headers) => {
            let keys = Seq::new(raw_headers.len(), |i: int| header_key(raw_headers[i]));
            match missing_header_error(keys) {
                Some(m) => r matches Err(e) && e@ == m,
                None => if first_failed(read.records) is Some {
                    let k = first_failed(read.records).unwrap();
                    r matches Err(m) && m@ == "failed to read CSV row "@ + signed_text(k + 1) + ": "@
                        + read.records[k]->Err_0
                } else {
                    r matches Ok(jobs) && jobs@.len() == read.records.len() && forall|k: int|
                        0 <= k < jobs@.len() ==> {
                            let row = read.records[k]->Ok_0;
                            let j = #[trigger] jobs@[k];
                            &&& j.row_index == k
                            &&& pairs_view(j.raw_fields@) == raw_pairs(keys, row)
                            &&& match row_error(keys, row) {
                                Some(m) => j.job is None && (j.parse_error matches Some(e) && e@ == m),
                                None => j.parse_error is None && (j.job matches Some(job) && row_job(keys, row, job)),
                            }
                        }
                },
            }
        },
    }
}

fn contains_text_item(items: &Vec<String>, name: &str) -> (r: bool)
    ensures
        r == texts_of(items@).contains(name@),
{
    match find_header(items, name) {
        Some(i) => {
            proof {
                lemma_first_where(texts_of(items@), |h: Seq<char>| h == name@);
            }
            true
        },
        None => {
            proof {
                lemma_first_where(texts_of(items@), |h: Seq<char>| h == name@);
            }
            false
        },
    }
}

fn prefixed_message(prefix: &str, message: &String) -> (r: String)
    ensures
        r@ == prefix@ + message@,
{
    let mut m = String::from_str(prefix);
    push_text(&mut m, message.as_str());
    m
}

/// Reads the sheet jobs of a CSV batch file (see `csv_jobs_outcome`).
pub fn parse_csv_batch_jobs(bytes: &[u8]) -> (r: Result<Vec<CsvJobRecord>, String>)
    ensures
        csv_jobs_outcome(csv_records_of(bytes@), r),
{
    let read = read_csv_records(bytes);
    csv_jobs_from_records(&read)
}

/// The sheet jobs of a CSV batch file, from what the CSV reader made of it
/// (see `csv_jobs_outcome`).
pub fn csv_jobs_from_records(read: &CsvRecords) -> (r: Result<Vec<CsvJobRecord>, String>)
    ensures
        csv_jobs_outcome(read@, r),
{
    let raw_headers = match &read.headers {
        Ok(h) => h,
        Err(e) => return Err(prefixed_message("failed to read CSV headers: ", e)),
    };
    let mut headers: Vec<String> = Vec::new();
    let mut i: usize = 0;
    while i < raw_headers.len()
        invariant
            i <= raw_headers.len(),
            headers@.len() == i,
            forall|k: int| 0 <= k < i ==> #[trigger] headers@[k]@ == header_key(raw_headers@[k]@),
        decreases raw_headers.len() - i,
    {
        headers.push(lower_header(&raw_headers[i]));
        i = i + 1;
    }
    let ghost keys = Seq::new(texts_of(raw_headers@).len(), |k: int| header_key(texts_of(raw_headers@)[k]));
    assert(texts_of(headers@) =~= keys);
    if !contains_text_item(&headers, "width") {
        return Err(String::from_str("missing required CSV header 'width'"));
    }
    if !contains_text_item(&headers, "length") {
        return Err(String::from_str("missing required CSV header 'length'"));
    }
    let ghost recs = read@.records;
    let mut jobs: Vec<CsvJobRecord> = Vec::new();
    let mut k: usize = 0;
    assert(recs.take(0) =~= Seq::<Result<Seq<Seq<char>>, Seq<char>>>::empty());
    assert(missing_header_error(keys) is None);
    while k < read.records.len()
        invariant
            k <= read.records.len(),
            recs == read@.records,
            read@.headers matches Ok(rh) && keys == Seq::new(rh.len(), |i: int| header_key(rh[i])),
            missing_header_error(keys) is None,
            texts_of(headers@) == keys,
            first_failed(recs.take(k as int)) is None,
            jobs@.len() == k,
            forall|j: int|
                0 <= j < k ==> {
                    let row = recs[j]->Ok_0;
                    let job = #[trigger] jobs@[j];
                    &&& job.row_index == j
                    &&& pairs_view(job.raw_fields@) == raw_pairs(keys, row)
                    &&& match row_error(keys, row) {
                        Some(m) => job.job is None && (job.parse_error matches Some(e) && e@ == m),
                        None => job.parse_error is None && (job.job matches Some(sj) && row_job(keys, row, sj)),
                    }
                },
        decreases read.records.len() - k,
    {
        assert(recs[k as int] == record_view(read.records@[k as int]));
        assert(recs.take(k + 1).drop_last() =~= recs.take(k as int));
        assert(recs.take(k + 1).last() == recs[k as int]);
        match &read.records[k] {
            Err(e) => {
                let mut m = String::from_str("failed to read CSV row ");
                let mut n: Vec<char> = Vec::new();
                crate::text::push_decimal(&mut n, (k + 1) as u64);
                let ns = string_of(&n);
                push_text(&mut m, ns.as_str());
                push_text(&mut m, ": ");
                push_text(&mut m, e.as_str());
                proof {
                    lemma_first_where_prefix(recs, |r: Result<Seq<Seq<char>>, Seq<char>>| r is Err, k + 1);
                    assert(recs[k as int]->Err_0 == e@);
                }
                return Err(m);
            },
            Ok(row) => {
                let fields = raw_fields(&headers, row);
                let record = match parse_csv_row(&headers, row) {
                    Ok(job) => CsvJobRecord { row_index: k, job: Some(job), parse_error: None, raw_fields: fields },
                    Err(e) => CsvJobRecord { row_index: k, job: None, parse_error: Some(e), raw_fields: fields },
                };
                jobs.push(record);
            },
        }
        k = k + 1;
    }
    proof {
        assert(recs.take(read.records.len() as int) =~= recs);
        lemma_first_where(recs, |r: Result<Seq<Seq<char>>, Seq<char>>| r is Err);
    }
    Ok(jobs)
}

// ---------------------------------------------------------------------------
// Exporting and running jobs
// ---------------------------------------------------------------------------

/// The field under `key` of a row's raw fields (the last pair with that
/// header, as a map built from them keeps).
pub open spec fn raw_field(fields: Seq<(Seq<char>, Seq<char>)>, key: Seq<char>) -> Option<Seq<char>>
    decreases fields.len(),
{
    if fields.len() == 0 {
        None
    } else if fields.last().0 == key {
        Some(fields.last().1)
    } else {
        raw_field(fields.drop_last(), key)
    }
}

fn raw_lookup(raw_fields: &[(String, String)], key: &str) -> (r: Option<String>)
    ensures
        text_option(r) == raw_field(pairs_view(raw_fields@), key@),
{
    let kc = chars_of(key);
    let mut i = raw_fields.len();
    assert(pairs_view(raw_fields@).take(i as int) =~= pairs_view(raw_fields@));
    while i > 0
        invariant
            i <= raw_fields.len(),
            kc@ == key@,
            raw_field(pairs_view(raw_fields@), key@) == raw_field(pairs_view(raw_fields@).take(i as int), key@),
        decreases i,
    {
        let ghost t = pairs_view(raw_fields@).take(i as int);
        assert(t.drop_last() =~= pairs_view(raw_fields@).take(i - 1));
        assert(t.last() == (raw_fields@[i - 1].0@, raw_fields@[i - 1].1@));
        if crate::text::same_chars(&chars_of(raw_fields[i - 1].0.as_str()), &kc) {
            return Some(raw_fields[i - 1].1.clone());
        }
        i = i - 1;
    }
    assert(pairs_view(raw_fields@).take(0) =~= Seq::<(Seq<char>, Seq<char>)>::empty());
    None
}

/// A job's quantity as written back to the export: the parsed value, else
/// the raw cell, else nothing.
pub fn opt_i32_or_raw(value: Option<i32>, raw_fields: &[(String, String)], key: &str) -> (r: String)
    ensures
        r@ == match value {
            Some(v) => signed_text(v as int),
            None => match raw_field(pairs_view(raw_fields@), key@) {
                Some(t) => t,
                None => Seq::empty(),
            },
        },
{
    match value {
        Some(v) => string_of(&signed_decimal(v as i64)),
        None => match raw_lookup(raw_fields, key) {
            Some(t) => t,
            None => String::new(),
        },
    }
}

/// A job's text field as written back to the export: the value, else the
/// raw cell, else nothing.
pub fn opt_string_or_raw(value: Option<&String>, raw_fields: &[(String, String)], key: &str) -> (r: String)
    ensures
        r@ == match value {
            Some(v) => v@,
            None => match raw_field(pairs_view(raw_fields@), key@) {
                Some(t) => t,
                None => Seq::empty(),
            },
        },
{
    match value {
        Some(v) => v.clone(),
        None => match raw_lookup(raw_fields, key) {
            Some(t) => t,
            None => String::new(),
        },
    }
}

/// A sheet job's fields, reduced to what deciding its calculation reads.
pub struct SheetJobFields {
    pub has_width: bool,
    pub has_length: bool,
    pub has_psf: bool,
    pub gauge: Option<String>,
    pub table: Option<String>,
    pub has_thickness: bool,
}

/// A sheet job's table (canonical) and psf source.
pub struct BatchSheetPlan {
    pub table: String,
    pub source: SheetSource,
}

/// The error of a sheet job, if any: width, then length, must be given, and
/// at most one of gauge, psf and thickness.
pub open spec fn sheet_job_error(job: SheetJobFields) -> Option<Seq<char>> {
    if !job.has_width {
        Some("width is required"@)
    } else if !job.has_length {
        Some("length is required"@)
    } else if (if job.has_psf {
        1int
    } else {
        0
    }) + (if job.gauge is Some {
        1int
    } else {
        0
    }) + (if job.has_thickness {
        1int
    } else {
        0
    }) > 1 {
        Some("only one of gauge, psf, or thickness may be set per batch row"@)
    } else {
        None
    }
}

/// Decides a sheet job's table (its own, else the default, canonicalized)
/// and psf source (psf, gauge, thickness, else the default gauge).
pub fn plan_batch_sheet(job: &SheetJobFields, default_table: &str, default_gauge: &str) -> (r: Result<BatchSheetPlan, String>)
    ensures
        match sheet_job_error(*job) {
            Some(m) => r matches Err(e) && e@ == m,
            None => r matches Ok(plan) && plan.table@ == canonical_table_name(
                match job.table {
                    Some(t) => t@,
                    None => default_table@,
                },
            ) && if job.has_psf {
                plan.source is Psf
            } else if job.gauge is Some {
                plan.source matches SheetSource::Gauge { key } && key@ == job.gauge.unwrap()@
            } else if job.has_thickness {
                plan.source is Thickness
            } else {
                plan.source matches SheetSource::Gauge { key } && key@ == default_gauge@
            },
        },
{
    if !job.has_width {
        return Err(String::from_str("width is required"));
    }
    if !job.has_length {
        return Err(String::from_str("length is required"));
    }
    let count: u8 = (if job.has_psf {
        1u8
    } else {
        0u8
    }) + (if job.gauge.is_some() {
        1u8
    } else {
        0u8
    }) + (if job.has_thickness {
        1u8
    } else {
        0u8
    });
    if count > 1 {
        return Err(String::from_str("only one of gauge, psf, or thickness may be set per batch row"));
    }
    let table = match &job.table {
        Some(t) => normalize_table_name(t.as_str()),
        None => normalize_table_name(default_table),
    };
    let source = if job.has_psf {
        SheetSource::Psf
    } else {
        match &job.gauge {
            Some(g) => SheetSource::Gauge { key: g.clone() },
            None => if job.has_thickness {
                SheetSource::Thickness
            } else {
                SheetSource::Gauge { key: String::from_str(default_gauge) }
            },
        }
    };
    Ok(BatchSheetPlan { table, source })
}

/// The first missing field of a coil job, in the order width, thickness,
/// inner diameter, weight.
pub fn coil_job_error(has_width: bool, has_thickness: bool, has_id: bool, has_weight: bool) -> (r: Option<String>)
    ensures
        text_option(r) == if !has_width {
            Some("coil_width is required"@)
        } else if !has_thickness {
            Some("coil_thickness is required"@)
        } else if !has_id {
            Some("coil_id is required"@)
        } else if !has_weight {
            Some("coil_weight is required"@)
        } else {
            None
        },
{
    if !has_width {
        Some(String::from_str("coil_width is required"))
    } else if !has_thickness {
        Some(String::from_str("coil_thickness is required"))
    } else if !has_id {
        Some(String::from_str("coil_id is required"))
    } else if !has_weight {
        Some(String::from_str("coil_weight is required"))
    } else {
        None
    }
}

/// The first missing field of a scrap job, in the order actual weight,
/// ending weight, base cost, processing cost.
pub fn scrap_job_error(has_actual: bool, has_ending: bool, has_base: bool, has_processing: bool) -> (r: Option<String>)
    ensures
        text_option(r) == if !has_actual {
            Some("actual_weight is required"@)
        } else if !has_ending {
            Some("ending_weight is required"@)
        } else if !has_base {
            Some("base_cost is required"@)
        } else if !has_processing {
            Some("processing_cost is required"@)
        } else {
            None
        },
{
    if !has_actual {
        Some(String::from_str("actual_weight is required"))
    } else if !has_ending {
        Some(String::from_str("ending_weight is required"))
    } else if !has_base {
        Some(String::from_str("base_cost is required"))
    } else if !has_processing {
        Some(String::from_str("processing_cost is required"))
    } else {
        None
    }
}

/// What a batch run's options allow: JSON output is required, and a CSV
/// export only for sheet batches.
pub fn batch_options_error(json: bool, has_output_file: bool, job_type: BatchJobType) -> (r: Option<String>)
    ensures
        text_option(r) == if !json {
            Some("--json is required when using --input-file"@)
        } else if has_output_file && job_type != BatchJobType::Sheet {
            Some("--output-file is currently supported only for sheet batch files"@)
        } else {
            None
        },
{
    if !json {
        Some(String::from_str("--json is required when using --input-file"))
    } else if has_output_file && job_type != BatchJobType::Sheet {
        Some(String::from_str("--output-file is currently supported only for sheet batch files"))
    } else {
        None
    }
}

// ---------------------------------------------------------------------------
// Choosing the reader
// ---------------------------------------------------------------------------

/// A batch file is read as CSV when its extension is `csv`, compared
/// ignoring ASCII case; any other file is read as JSON.
pub open spec fn csv_extension(ext: Seq<char>) -> bool {
    ext.len() == 3 && crate::text::ascii_lower_text(ext) == "csv"@
}

fn lower_ascii(c: char) -> (r: char)
    ensures
        r == crate::text::ascii_lower(c),
{
    if 'A' <= c && c <= 'Z' {
        let b: u8 = (c as u32) as u8;
        let lowered: u8 = b + 32;
        lowered as char
    } else {
        c
    }
}

/// Whether a file with extension `ext` is a CSV batch file (see
/// `csv_extension`).
pub fn is_csv_extension(ext: &str) -> (r: bool)
    ensures
        r == csv_extension(ext@),
{
    proof {
        reveal_strlit("csv");
    }
    let v = chars_of(ext);
    if v.len() != 3 {
        return false;
    }
    let a = lower_ascii(v[0]);
    let b = lower_ascii(v[1]);
    let c = lower_ascii(v[2]);
    let r = a == 'c' && b == 's' && c == 'v';
    proof {
        let low = crate::text::ascii_lower_text(ext@);
        if r {
            assert(low =~= "csv"@);
        } else {
            assert(low[0] == a && low[1] == b && low[2] == c);
        }
    }
    r
}

// ---------------------------------------------------------------------------
// Sorting row outcomes
// ---------------------------------------------------------------------------

/// The successful rows among `rows`, in row order, each with its row index.
pub open spec fn row_results<T>(rows: Seq<(usize, Result<T, String>)>) -> Seq<(usize, T)>
    decreases rows.len(),
{
    if rows.len() == 0 {
        Seq::empty()
    } else {
        let before = row_results(rows.drop_last());
        match rows.last().1 {
            Ok(v) => before.push((rows.last().0, v)),
            Err(_) => before,
        }
    }
}

/// The failed rows among `rows`, in row order, each with its row index and
/// error message.
pub open spec fn row_errors<T>(rows: Seq<(usize, Result<T, String>)>) -> Seq<(usize, String)>
    decreases rows.len(),
{
    if rows.len() == 0 {
        Seq::empty()
    } else {
        let before = row_errors(rows.drop_last());
        match rows.last().1 {
            Ok(_) => before,
            Err(m) => before.push((rows.last().0, m)),
        }
    }
}

/// Splits the outcomes of a batch's rows into the results and the errors a
/// batch run reports: every successful row in the results and every failed
/// row in the errors, each in row order (see `row_results`, `row_errors`).
pub fn partition_rows<T>(rows: Vec<(usize, Result<T, String>)>) -> (r: (Vec<(usize, T)>, Vec<(usize, String)>))
    ensures
        r.0@ == row_results(rows@),
        r.1@ == row_errors(rows@),
{
    let ghost all = rows@;
    assert(all.len() == rows.len());
    let mut rest = rows;
    let mut results: Vec<(usize, T)> = Vec::new();
    let mut errors: Vec<(usize, String)> = Vec::new();
    let mut k: usize = 0;
    while rest.len() > 0
        invariant
            k <= all.len(),
            all.len() <= usize::MAX,
            rest@ == all.skip(k as int),
            results@ == row_results(all.take(k as int)),
            errors@ == row_errors(all.take(k as int)),
        decreases rest.len(),
    {
        let (index, outcome) = rest.remove(0);
        proof {
            assert(all.take(k + 1).drop_last() =~= all.take(k as int));
            assert(all.take(k + 1).last() == all[k as int]);
        }
        match outcome {
            Ok(v) => results.push((index, v)),
            Err(m) => errors.push((index, m)),
        }
        proof {
            assert(all.skip(k as int).drop_first() =~= all.skip(k + 1));
        }
        k = k + 1;
    }
    proof {
        assert(all.take(k as int) =~= all);
    }
    (results, errors)
}

/// Every row of a batch is reported exactly once: the results and the
/// errors together are as many as the rows, every successful row is among
/// the results and every failed row among the errors (so a failed row never
/// hides a successful one).
pub proof fn lemma_rows_reported_once<T>(rows: Seq<(usize, Result<T, String>)>)
    ensures
        row_results(rows).len() + row_errors(rows).len() == rows.len(),
        forall|i: int|
            0 <= i < rows.len() ==> match #[trigger] rows[i].1 {
                Ok(v) => row_results(rows).contains((rows[i].0, v)),
                Err(m) => row_errors(rows).contains((rows[i].0, m)),
            },
    decreases rows.len(),
{
    if rows.len() > 0 {
        let before = rows.drop_last();
        lemma_rows_reported_once(before);
        assert forall|i: int| 0 <= i < rows.len() implies match #[trigger] rows[i].1 {
            Ok(v) => row_results(rows).contains((rows[i].0, v)),
            Err(m) => row_errors(rows).contains((rows[i].0, m)),
        } by {
            if i < rows.len() - 1 {
                assert(rows[i] == before[i]);
                match rows[i].1 {
                    Ok(v) => {
                        let j = choose|j: int| 0 <= j < row_results(before).len() && row_results(before)[j] == (before[i].0, v);
                        assert(row_results(rows)[j] == (rows[i].0, v));
                    },
                    Err(m) => {
                        let j = choose|j: int| 0 <= j < row_errors(before).len() && row_errors(before)[j] == (before[i].0, m);
                        assert(row_errors(rows)[j] == (rows[i].0, m));
                    },
                }
            } else {
                match rows[i].1 {
                    Ok(v) => {
                        assert(row_results(rows)[row_results(rows).len() - 1] == (rows[i].0, v));
                    },
                    Err(m) => {
                        assert(row_errors(rows)[row_errors(rows).len() - 1] == (rows[i].0, m));
                    },
                }
            }
        }
    }
}

} // verus!
