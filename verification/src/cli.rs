//! What the command-line front end decides before and between its
//! calculations: which action a command line asks for, which flags conflict,
//! which calculations run, where each input comes from, and the messages
//! for arguments that are missing.
use vstd::prelude::*;

use crate::gauges::{canonical_table_name, normalize_table_name, GaugeTables};
use crate::text::push_text;

verus! {

broadcast use vstd::string::group_string_axioms;

/// What the command line gave, reduced to what the decisions read: which
/// options are present, the text options, the quantity, and whether any
/// pricing option differs from its default of zero.
#[derive(Clone, Debug)]
pub struct RunArgs {
    pub list_tables: bool,
    pub list_gauges: Option<String>,
    pub input_file: Option<String>,
    pub has_width: bool,
    pub has_length: bool,
    pub has_psf: bool,
    pub gauge: Option<String>,
    pub table: Option<String>,
    pub has_thickness: bool,
    pub has_density: bool,
    pub has_coil_id: bool,
    pub has_coil_width: bool,
    pub has_coil_thickness: bool,
    pub has_coil_weight: bool,
    pub has_scrap_actual: bool,
    pub has_scrap_ending: bool,
    pub has_scrap_base_cost: bool,
    pub has_scrap_processing_cost: bool,
    pub pricing_set: bool,
    pub qty: i32,
}

/// The names of `tables`, separated by ", ".
pub open spec fn joined_names(names: Seq<Seq<char>>) -> Seq<char>
    decreases names.len(),
{
    if names.len() == 0 {
        Seq::empty()
    } else if names.len() == 1 {
        names[0]
    } else {
        joined_names(names.drop_last()) + ", "@ + names.last()
    }
}

/// "unknown table '<name>'. Choose one of: <names>".
pub open spec fn unknown_table_text(name: Seq<char>, names: Seq<Seq<char>>) -> Seq<char> {
    "unknown table '"@ + name + "'. Choose one of: "@ + joined_names(names)
}

fn unknown_table_message(name: &str, tables: &GaugeTables) -> (r: String)
    ensures
        r@ == unknown_table_text(name@, tables.names()),
{
    let keys = tables.keys();
    let ghost names = tables.names();
    let mut list = String::new();
    let mut i: usize = 0;
    while i < keys.len()
        invariant
            i <= keys.len(),
            keys@.len() == names.len(),
            forall|k: int| 0 <= k < keys@.len() ==> #[trigger] keys@[k]@ == names[k],
            list@ == joined_names(names.take(i as int)),
        decreases keys.len() - i,
    {
        assert(names.take(i + 1).drop_last() =~= names.take(i as int));
        if i > 0 {
            push_text(&mut list, ", ");
        } else {
            assert(names.take(0) =~= Seq::<Seq<char>>::empty());
        }
        push_text(&mut list, keys[i].as_str());
        i = i + 1;
    }
    assert(names.take(keys.len() as int) =~= names);
    let mut r = String::from_str("unknown table '");
    push_text(&mut r, name);
    push_text(&mut r, "'. Choose one of: ");
    push_text(&mut r, list.as_str());
    r
}

// ---------------------------------------------------------------------------
// First decision: what the command line asks for
// ---------------------------------------------------------------------------

/// The action a command line asks for, before any configuration is read.
pub enum RunStart {
    /// List the table names.
    ListTables,
    /// List the gauges of the table with this (canonical) name.
    ListGauges { table: String },
    /// Run the jobs of a batch file.
    Batch { input_file: String },
    /// Run the calculations the options ask for.
    Single,
}

/// Whether any single-run calculation option is given.
pub open spec fn single_run_flags(a: RunArgs) -> bool {
    a.has_width || a.has_length || a.has_psf || a.gauge is Some || a.table is Some || a.has_thickness
        || a.has_density || a.has_coil_id || a.has_coil_width || a.has_coil_thickness
        || a.has_coil_weight || a.has_scrap_actual || a.has_scrap_ending || a.has_scrap_base_cost
        || a.has_scrap_processing_cost || a.pricing_set || a.qty != 1
}

/// Decides the action: listing tables comes first, then listing a table's
/// gauges (an unknown table is an error), then a batch file (which no
/// single-run option may accompany), else a single run.
pub fn plan_start(args: &RunArgs, tables: &GaugeTables) -> (r: Result<RunStart, String>)
    ensures
        args.list_tables ==> r matches Ok(RunStart::ListTables),
        !args.list_tables && args.list_gauges is Some ==> ({
            let name = args.list_gauges.unwrap()@;
            let canonical = canonical_table_name(name);
            if tables.lookup(canonical) is Some {
                r matches Ok(RunStart::ListGauges { table }) && table@ == canonical
            } else {
                r matches Err(m) && m@ == unknown_table_text(name, tables.names())
            }
        }),
        !args.list_tables && args.list_gauges is None && args.input_file is Some ==> if single_run_flags(
            *args,
        ) {
            r matches Err(m) && m@ == "--input-file cannot be combined with single-run calculation flags"@
        } else {
            r matches Ok(RunStart::Batch { input_file }) && input_file@ == args.input_file.unwrap()@
        },
        !args.list_tables && args.list_gauges is None && args.input_file is None ==> r matches Ok(
            RunStart::Single,
        ),
{
    if args.list_tables {
        return Ok(RunStart::ListTables);
    }
    match &args.list_gauges {
        Some(name) => {
            let canonical = normalize_table_name(name.as_str());
            if tables.contains_key(canonical.as_str()) {
                return Ok(RunStart::ListGauges { table: canonical });
            } else {
                return Err(unknown_table_message(name.as_str(), tables));
            }
        },
        None => {},
    }
    match &args.input_file {
        Some(f) => {
            if args.has_width || args.has_length || args.has_psf || args.gauge.is_some()
                || args.table.is_some() || args.has_thickness || args.has_density
                || args.has_coil_id || args.has_coil_width || args.has_coil_thickness
                || args.has_coil_weight || args.has_scrap_actual || args.has_scrap_ending
                || args.has_scrap_base_cost || args.has_scrap_processing_cost || args.pricing_set
                || args.qty != 1 {
                Err(String::from_str("--input-file cannot be combined with single-run calculation flags"))
            } else {
                Ok(RunStart::Batch { input_file: f.clone() })
            }
        },
        None => Ok(RunStart::Single),
    }
}

// ---------------------------------------------------------------------------
// Second decision: the calculations of a single run
// ---------------------------------------------------------------------------

/// Where a sheet's psf comes from.
pub enum SheetSource {
    /// The given psf.
    Psf,
    /// A gauge looked up in the sheet's table.
    Gauge { key: String },
    /// The given thickness, through the density.
    Thickness,
}

/// The sheet calculation: its table, where its psf comes from, and the note
/// printed when the table name was normalized.
pub struct SheetPlan {
    pub table: String,
    pub source: SheetSource,
    pub table_note: Option<String>,
}

/// Where the coil calculation takes its thickness and width from: the
/// coil options, or the sheet calculation.
pub struct CoilPlan {
    pub thickness_from_sheet: bool,
    pub width_from_sheet: bool,
}

/// The calculations of a single run, in the order they run: the sheet, the
/// coil, the scrap, then the costs of the sheet. A coil or scrap step that
/// holds an error fails the run when it is reached.
pub struct SinglePlan {
    pub sheet: Option<SheetPlan>,
    pub coil: Option<Result<CoilPlan, String>>,
    pub scrap: Option<Result<(), String>>,
    pub cost: bool,
}

pub open spec fn has_scrap_args(a: RunArgs) -> bool {
    a.has_scrap_actual || a.has_scrap_ending || a.has_scrap_base_cost || a.has_scrap_processing_cost
}

pub open spec fn has_coil_args(a: RunArgs) -> bool {
    a.has_coil_weight || a.has_coil_id || a.has_coil_width || a.has_coil_thickness
}

pub open spec fn has_sheet_args(a: RunArgs) -> bool {
    a.has_width || a.has_length
}

/// The table a single run uses: the `--table` option, else the configured
/// default.
pub open spec fn resolved_table(a: RunArgs, default_table: Seq<char>) -> Seq<char> {
    match a.table {
        Some(t) => t@,
        None => default_table,
    }
}

/// The error of a single run found before any calculation, if any:
/// conflicting psf sources, no calculation asked for, a missing sheet
/// dimension, or an unknown table.
pub open spec fn single_run_error(a: RunArgs, tables: GaugeTables, default_table: Seq<char>) -> Option<Seq<char>> {
    if a.gauge is Some && a.has_psf {
        Some("Cannot specify both --gauge and --psf. Use one or the other."@)
    } else if a.gauge is Some && a.has_thickness {
        Some("Cannot specify both --gauge and --thickness. Use one or the other."@)
    } else if a.has_psf && a.has_thickness {
        Some("Cannot specify both --psf and --thickness. Use one or the other."@)
    } else if !has_sheet_args(a) && !has_scrap_args(a) && !has_coil_args(a) {
        Some("--width is required for sheet calculations"@)
    } else if has_sheet_args(a) && !a.has_width {
        Some("--width is required for sheet calculations"@)
    } else if has_sheet_args(a) && !a.has_length {
        Some("--length is required when --width is provided"@)
    } else if has_sheet_args(a) && tables.lookup(
        canonical_table_name(resolved_table(a, default_table)),
    ) is None {
        Some(unknown_table_text(resolved_table(a, default_table), tables.names()))
    } else {
        None
    }
}

/// The sheet's psf source: psf, else the given gauge, else thickness, else
/// the configured default gauge.
pub open spec fn sheet_source_matches(s: SheetSource, a: RunArgs, default_gauge: Seq<char>) -> bool {
    if a.has_psf {
        s is Psf
    } else if a.gauge is Some {
        s matches SheetSource::Gauge { key } && key@ == a.gauge.unwrap()@
    } else if a.has_thickness {
        s is Thickness
    } else {
        s matches SheetSource::Gauge { key } && key@ == default_gauge
    }
}

/// The first missing scrap option, if any.
pub open spec fn scrap_error(a: RunArgs) -> Option<Seq<char>> {
    if !a.has_scrap_actual {
        Some("--scrap-actual is required for scrap calculations"@)
    } else if !a.has_scrap_ending {
        Some("--scrap-ending is required for scrap calculations"@)
    } else if !a.has_scrap_base_cost {
        Some("--scrap-base-cost is required for scrap calculations"@)
    } else if !a.has_scrap_processing_cost {
        Some("--scrap-processing-cost is required for scrap calculations"@)
    } else {
        None
    }
}

fn table_note(table: &String, resolved: &String) -> (r: Option<String>)
    ensures
        match r {
            Some(n) => table@ != resolved@ && n@ == "(normalized table -> '"@ + table@ + "')"@,
            None => table@ == resolved@,
        },
{
    if crate::text::same_chars(
        &crate::text::chars_of(table.as_str()),
        &crate::text::chars_of(resolved.as_str()),
    ) {
        None
    } else {
        let mut n = String::from_str("(normalized table -> '");
        push_text(&mut n, table.as_str());
        push_text(&mut n, "')");
        Some(n)
    }
}

/// Decides the calculations of a single run, given the configured default
/// table and gauge (see `single_run_error`, `sheet_source_matches` and
/// `scrap_error`).
pub fn plan_single(args: &RunArgs, tables: &GaugeTables, default_table: &str, default_gauge: &str) -> (r: Result<SinglePlan, String>)
    ensures
        match single_run_error(*args, *tables, default_table@) {
            Some(m) => r matches Err(e) && e@ == m,
            None => r matches Ok(plan) && {
                &&& (plan.sheet is Some <==> has_sheet_args(*args))
                &&& plan.cost == has_sheet_args(*args)
                &&& (plan.sheet matches Some(s) ==> {
                    let resolved = resolved_table(*args, default_table@);
                    &&& s.table@ == canonical_table_name(resolved)
                    &&& sheet_source_matches(s.source, *args, default_gauge@)
                    &&& (s.table_note matches Some(n) ==> !(s.source is Thickness) && !(s.source is Psf)
                        && s.table@ != resolved && n@ == "(normalized table -> '"@ + s.table@
                        + "')"@)
                    &&& (s.table_note is None ==> s.source is Psf || s.source is Thickness
                        || s.table@ == resolved)
                })
                &&& (plan.coil is Some <==> has_coil_args(*args))
                &&& (plan.coil matches Some(c) ==> if !args.has_coil_thickness && !has_sheet_args(
                    *args,
                ) {
                    c matches Err(m) && m@
                        == "--coil-thickness is required when no sheet calculation is performed"@
                } else if !args.has_coil_width && !has_sheet_args(*args) {
                    c matches Err(m) && m@
                        == "--coil-width is required when no sheet calculation is performed"@
                } else {
                    c matches Ok(p) && p.thickness_from_sheet == !args.has_coil_thickness
                        && p.width_from_sheet == !args.has_coil_width
                })
                &&& (plan.scrap is Some <==> has_scrap_args(*args))
                &&& (plan.scrap matches Some(s) ==> match scrap_error(*args) {
                    Some(m) => s matches Err(e) && e@ == m,
                    None => s is Ok,
                })
            },
        },
{
    if args.gauge.is_some() && args.has_psf {
        return Err(String::from_str("Cannot specify both --gauge and --psf. Use one or the other."));
    }
    if args.gauge.is_some() && args.has_thickness {
        return Err(String::from_str("Cannot specify both --gauge and --thickness. Use one or the other."));
    }
    if args.has_psf && args.has_thickness {
        return Err(String::from_str("Cannot specify both --psf and --thickness. Use one or the other."));
    }
    let scrap_args = args.has_scrap_actual || args.has_scrap_ending || args.has_scrap_base_cost
        || args.has_scrap_processing_cost;
    let coil_args = args.has_coil_weight || args.has_coil_id || args.has_coil_width
        || args.has_coil_thickness;
    let sheet_args = args.has_width || args.has_length;
    if !sheet_args && !scrap_args && !coil_args {
        return Err(String::from_str("--width is required for sheet calculations"));
    }
    let resolved = match &args.table {
        Some(t) => t.clone(),
        None => String::from_str(default_table),
    };
    let sheet = if sheet_args {
        if !args.has_width {
            return Err(String::from_str("--width is required for sheet calculations"));
        }
        if !args.has_length {
            return Err(String::from_str("--length is required when --width is provided"));
        }
        let table = normalize_table_name(resolved.as_str());
        if !tables.contains_key(table.as_str()) {
            return Err(unknown_table_message(resolved.as_str(), tables));
        }
        let source = if args.has_psf {
            SheetSource::Psf
        } else {
            match &args.gauge {
                Some(g) => SheetSource::Gauge { key: g.clone() },
                None => if args.has_thickness {
                    SheetSource::Thickness
                } else {
                    SheetSource::Gauge { key: String::from_str(default_gauge) }
                },
            }
        };
        let note = match source {
            SheetSource::Gauge { .. } => table_note(&table, &resolved),
            _ => None,
        };
        Some(SheetPlan { table, source, table_note: note })
    } else {
        None
    };
    let coil = if coil_args {
        if !args.has_coil_thickness && !sheet_args {
            Some(Err(String::from_str("--coil-thickness is required when no sheet calculation is performed")))
        } else if !args.has_coil_width && !sheet_args {
            Some(Err(String::from_str("--coil-width is required when no sheet calculation is performed")))
        } else {
            Some(Ok(CoilPlan {
                thickness_from_sheet: !args.has_coil_thickness,
                width_from_sheet: !args.has_coil_width,
            }))
        }
    } else {
        None
    };
    let scrap = if scrap_args {
        if !args.has_scrap_actual {
            Some(Err(String::from_str("--scrap-actual is required for scrap calculations")))
        } else if !args.has_scrap_ending {
            Some(Err(String::from_str("--scrap-ending is required for scrap calculations")))
        } else if !args.has_scrap_base_cost {
            Some(Err(String::from_str("--scrap-base-cost is required for scrap calculations")))
        } else if !args.has_scrap_processing_cost {
            Some(Err(String::from_str("--scrap-processing-cost is required for scrap calculations")))
        } else {
            Some(Ok(()))
        }
    } else {
        None
    };
    Ok(SinglePlan { sheet, coil, scrap, cost: sheet_args })
}

// ---------------------------------------------------------------------------
// Messages
// ---------------------------------------------------------------------------

/// The suggestions of a failed gauge lookup, each quoted, separated by ", ".
pub open spec fn quoted_list(items: Seq<Seq<char>>) -> Seq<char>
    decreases items.len(),
{
    if items.len() == 0 {
        Seq::empty()
    } else if items.len() == 1 {
        "'"@ + items[0] + "'"@
    } else {
        quoted_list(items.drop_last()) + ", "@ + "'"@ + items.last() + "'"@
    }
}

/// The message for a gauge that a table does not have, with the
/// suggestions when there are any.
pub open spec fn missing_size_text(key: Seq<char>, table: Seq<char>, suggestions: Seq<Seq<char>>) -> Seq<char> {
    if suggestions.len() == 0 {
        "Size '"@ + key + "' not in "@ + table + " table."@
    } else {
        "Size '"@ + key + "' not in "@ + table + " table. Did you mean one of: "@ + quoted_list(
            suggestions,
        ) + "?"@
    }
}

/// The message for a gauge that a table does not have (see
/// `missing_size_text`).
pub fn missing_size_message(key: &str, table: &str, suggestions: &[String]) -> (r: String)
    ensures
        r@ == missing_size_text(key@, table@, Seq::new(suggestions@.len(), |i: int| suggestions@[i]@)),
{
    let ghost items = Seq::new(suggestions@.len(), |i: int| suggestions@[i]@);
    let mut r = String::from_str("Size '");
    push_text(&mut r, key);
    push_text(&mut r, "' not in ");
    push_text(&mut r, table);
    if suggestions.len() == 0 {
        push_text(&mut r, " table.");
        return r;
    }
    push_text(&mut r, " table. Did you mean one of: ");
    let ghost head = r@;
    let mut i: usize = 0;
    while i < suggestions.len()
        invariant
            i <= suggestions.len(),
            items == Seq::new(suggestions@.len(), |k: int| suggestions@[k]@),
            r@ == head + quoted_list(items.take(i as int)),
        decreases suggestions.len() - i,
    {
        assert(items.take(i + 1).drop_last() =~= items.take(i as int));
        if i > 0 {
            push_text(&mut r, ", ");
        } else {
            assert(items.take(0) =~= Seq::<Seq<char>>::empty());
        }
        push_text(&mut r, "'");
        push_text(&mut r, suggestions[i].as_str());
        push_text(&mut r, "'");
        i = i + 1;
    }
    assert(items.take(suggestions.len() as int) =~= items);
    push_text(&mut r, "?");
    r
}

/// Digits grouped in threes from the right, separated by commas.
pub open spec fn grouped_digits(s: Seq<char>) -> Seq<char>
    decreases s.len(),
{
    if s.len() <= 3 {
        s
    } else {
        grouped_digits(s.take(s.len() - 3)) + seq![','] + s.skip(s.len() - 3)
    }
}

/// A money amount for display: the sign, the whole part with its digits
/// grouped by thousands, a point, and the fraction digits.
pub open spec fn currency_text(negative: bool, whole: Seq<char>, fraction: Seq<char>) -> Seq<char> {
    (if negative {
        seq!['-']
    } else {
        Seq::empty()
    }) + grouped_digits(whole) + seq!['.'] + fraction
}

fn grouped(s: &Vec<char>) -> (r: Vec<char>)
    ensures
        r@ == grouped_digits(s@),
{
    let n = s.len();
    let first: usize = if n % 3 == 0 {
        if n == 0 {
            0
        } else {
            3
        }
    } else {
        n % 3
    };
    let mut out: Vec<char> = Vec::new();
    let mut i: usize = 0;
    while i < first
        invariant
            i <= first <= n,
            n == s.len(),
            out@ == s@.take(i as int),
        decreases first - i,
    {
        out.push(s[i]);
        assert(s@.take(i as int).push(s@[i as int]) =~= s@.take(i + 1));
        i = i + 1;
    }
    assert(grouped_digits(s@.take(first as int)) == s@.take(first as int));
    let mut k: usize = first;
    while k < n
        invariant
            first <= k <= n,
            n == s.len(),
            (k - first) % 3 == 0,
            (n - first) % 3 == 0,
            first > 0 || n == 0,
            out@ == grouped_digits(s@.take(k as int)),
        decreases n - k,
    {
        let ghost before = out@;
        out.push(',');
        out.push(s[k]);
        out.push(s[k + 1]);
        out.push(s[k + 2]);
        proof {
            let t = s@.take(k + 3);
            assert(t.take(t.len() - 3) =~= s@.take(k as int));
            assert(t.skip(t.len() - 3) =~= seq![s@[k as int], s@[k + 1], s@[k + 2]]);
            assert(out@ =~= before + seq![','] + t.skip(t.len() - 3));
        }
        k = k + 3;
    }
    assert(s@.take(n as int) =~= s@);
    out
}

/// A money amount for display (see `currency_text`), from the sign and the
/// two digit runs of the amount rounded to cents.
pub fn format_amount(negative: bool, whole: &str, fraction: &str) -> (r: String)
    ensures
        r@ == currency_text(negative, whole@, fraction@),
{
    let mut out = String::new();
    if negative {
        push_text(&mut out, "-");
    }
    let g = grouped(&crate::text::chars_of(whole));
    crate::text::push_chars(&mut out, &g);
    push_text(&mut out, ".");
    push_text(&mut out, fraction);
    proof {
        reveal_strlit("-");
        reveal_strlit(".");
    }
    assert(out@ =~= currency_text(negative, whole@, fraction@));
    out
}

} // verus!
