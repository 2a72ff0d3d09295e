//! What the desktop window's actions do to its state: which dialog shows,
//! the configuration editor, the scrap panel, the history dialog, and the
//! lists the window starts with. The window itself draws this state.
use vstd::prelude::*;

use crate::gauges::GaugeTables;
use crate::history::{
    build_filtered_history, build_preview_text, entry_label, listed_positions, preview_text,
    SessionHistory,
};
use crate::history::{json_str, recalled_field, HistoryEntryType, Payload};
use crate::search::{find_index, first_same_upper, resolve_gauge_index, resolved_gauge};
use crate::text::{lowercase_of, trim};

verus! {

broadcast use vstd::string::group_string_axioms;

// ---------------------------------------------------------------------------
// Dialogs
// ---------------------------------------------------------------------------

/// Which of the window's dialogs are shown.
#[derive(Clone, Copy, Debug, PartialEq, Eq, Structural)]
pub struct Dialogs {
    pub show_help: bool,
    pub show_about: bool,
    pub show_config_editor: bool,
    pub show_history: bool,
}

/// Shows the help dialog and hides the others.
pub fn open_help(dialogs: &mut Dialogs)
    ensures
        *final(dialogs) == (Dialogs {
            show_help: true,
            show_about: false,
            show_config_editor: false,
            show_history: false,
        }),
{
    dialogs.show_about = false;
    dialogs.show_config_editor = false;
    dialogs.show_history = false;
    dialogs.show_help = true;
}

/// Shows the about dialog and hides the others.
pub fn open_about(dialogs: &mut Dialogs)
    ensures
        *final(dialogs) == (Dialogs {
            show_help: false,
            show_about: true,
            show_config_editor: false,
            show_history: false,
        }),
{
    dialogs.show_help = false;
    dialogs.show_config_editor = false;
    dialogs.show_history = false;
    dialogs.show_about = true;
}

// ---------------------------------------------------------------------------
// Configuration editor
// ---------------------------------------------------------------------------

/// The configuration editor: its text and its status line.
#[derive(Clone, Debug)]
pub struct ConfigEditor {
    pub text: String,
    pub status: String,
    pub status_is_error: bool,
}

/// The built-in configuration, as pretty-printed JSON.
pub open spec fn default_config_text() -> Seq<char> {
    "{\n  \"config_version\": 1,\n  \"default_gauge\": \"16\",\n  \"default_table\": \"HR/HRPO/CR\",\n  \"density_lb_ft3\": 490.0,\n  \"ui_font_size\": 12,\n  \"ui_heading_delta\": 3,\n  \"ui_scaling\": 0.0\n}"@
}

/// The built-in configuration (schema version, density, default table and
/// gauge, and the interface settings) as pretty-printed JSON.
pub fn default_config_json() -> (r: String)
    ensures
        r@ == default_config_text(),
{
    String::from_str(
        "{\n  \"config_version\": 1,\n  \"default_gauge\": \"16\",\n  \"default_table\": \"HR/HRPO/CR\",\n  \"density_lb_ft3\": 490.0,\n  \"ui_font_size\": 12,\n  \"ui_heading_delta\": 3,\n  \"ui_scaling\": 0.0\n}",
    )
}

/// Puts the last saved text back into the editor.
pub fn revert_config_editor(editor: &mut ConfigEditor, original: &String)
    ensures
        final(editor).text@ == original@,
        final(editor).status@ == "Reverted to last saved content"@,
        !final(editor).status_is_error,
{
    editor.text = original.clone();
    editor.status = String::from_str("Reverted to last saved content");
    editor.status_is_error = false;
}

/// Puts the built-in configuration into the editor, unsaved.
pub fn restore_config_defaults(editor: &mut ConfigEditor)
    ensures
        final(editor).text@ == default_config_text(),
        final(editor).status@ == "Defaults restored (not saved yet - click Save to apply)"@,
        !final(editor).status_is_error,
{
    editor.text = default_config_json();
    editor.status = String::from_str("Defaults restored (not saved yet - click Save to apply)");
    editor.status_is_error = false;
}

/// What `serde_json` makes of this text read as one JSON value: the value
/// printed by `serde_json::to_string_pretty`, or the error's message.
pub uninterp spec fn json_text_outcome(text: Seq<char>) -> Result<Seq<char>, Seq<char>>;

/// `serde_json::from_str::<serde_json::Value>`, then
/// `serde_json::to_string_pretty` of the value: the pretty text, or the
/// message of the error (printing a parsed value does not fail).
#[verifier::external_body]
fn parse_json_text(text: &str) -> (r: Result<String, String>)
    ensures
        match r {
            Ok(p) => json_text_outcome(text@) == Ok::<Seq<char>, Seq<char>>(p@),
            Err(e) => json_text_outcome(text@) == Err::<Seq<char>, Seq<char>>(e@),
        },
{
    match serde_json::from_str::<serde_json::Value>(text) {
        Ok(value) => match serde_json::to_string_pretty(&value) {
            Ok(pretty) => Ok(pretty),
            Err(e) => Err(e.to_string()),
        },
        Err(e) => Err(e.to_string()),
    }
}

/// The status the Validate action shows for the editor's text.
pub open spec fn validation_status(text: Seq<char>) -> (Seq<char>, bool) {
    match json_text_outcome(text) {
        Ok(_) => ("✓ Valid JSON"@, false),
        Err(e) => ("✗ Invalid JSON: "@ + e, true),
    }
}

/// Checks that the editor's text is one JSON value, and says so in the
/// status line (see `validation_status`); the text is left as it is.
pub fn validate_config_editor(editor: &mut ConfigEditor)
    ensures
        final(editor).text@ == old(editor).text@,
        (final(editor).status@, final(editor).status_is_error) == validation_status(old(editor).text@),
{
    match parse_json_text(editor.text.as_str()) {
        Ok(_) => {
            editor.status = String::from_str("✓ Valid JSON");
            editor.status_is_error = false;
        },
        Err(e) => {
            let mut m = String::from_str("✗ Invalid JSON: ");
            crate::text::push_text(&mut m, e.as_str());
            editor.status = m;
            editor.status_is_error = true;
        },
    }
}

/// The text the Save action writes: the editor's text pretty-printed, or,
/// when it is not JSON, the message saying why nothing is saved.
pub fn config_editor_save_text(text: &str) -> (r: Result<String, String>)
    ensures
        match json_text_outcome(text@) {
            Ok(p) => r matches Ok(t) && t@ == p,
            Err(e) => r matches Err(m) && m@ == "✗ Cannot save: invalid JSON — "@ + e,
        },
{
    match parse_json_text(text) {
        Ok(p) => Ok(p),
        Err(e) => {
            let mut m = String::from_str("✗ Cannot save: invalid JSON — ");
            crate::text::push_text(&mut m, e.as_str());
            Err(m)
        },
    }
}

/// The text the editor opens with: the file's content pretty-printed, or
/// the content as it is when it is not JSON.
pub open spec fn opened_text(content: Seq<char>) -> Seq<char> {
    match json_text_outcome(content) {
        Ok(p) => p,
        Err(_) => content,
    }
}

/// The text the editor opens with (see `opened_text`).
pub fn config_editor_open_text(content: &str) -> (r: String)
    ensures
        r@ == opened_text(content@),
{
    match parse_json_text(content) {
        Ok(p) => p,
        Err(_) => String::from_str(content),
    }
}

/// Opens the configuration editor on the file's content (or the built-in
/// configuration when there is no file, as the caller reads it): the text
/// pretty-printed, a clear status, only the editor shown. Returns the text
/// that Revert goes back to.
pub fn open_config_editor(editor: &mut ConfigEditor, dialogs: &mut Dialogs, content: &str) -> (original: String)
    ensures
        original@ == opened_text(content@),
        final(editor).text@ == original@,
        final(editor).status@.len() == 0,
        !final(editor).status_is_error,
        *final(dialogs) == (Dialogs {
            show_help: false,
            show_about: false,
            show_config_editor: true,
            show_history: false,
        }),
{
    let pretty = config_editor_open_text(content);
    editor.text = pretty.clone();
    editor.status = String::new();
    editor.status_is_error = false;
    dialogs.show_help = false;
    dialogs.show_about = false;
    dialogs.show_history = false;
    dialogs.show_config_editor = true;
    pretty
}

// ---------------------------------------------------------------------------
// Scrap panel
// ---------------------------------------------------------------------------

/// The scrap panel's input fields and results.
#[derive(Clone, Debug)]
pub struct ScrapPanel {
    pub actual_weight_text: String,
    pub ending_weight_text: String,
    pub base_cost_text: String,
    pub processing_cost_text: String,
    pub result_scrap_lb: String,
    pub result_total_cost: String,
    pub result_price_per_lb: String,
    pub result_scrap_charge_per_lb: String,
    pub result_is_pickup: String,
    pub error_message: String,
}

/// The scrap panel at its defaults: both cost fields at "0.00", every other
/// field and result empty.
pub open spec fn scrap_panel_cleared(p: ScrapPanel) -> bool {
    &&& p.actual_weight_text@.len() == 0
    &&& p.ending_weight_text@.len() == 0
    &&& p.base_cost_text@ == "0.00"@
    &&& p.processing_cost_text@ == "0.00"@
    &&& p.result_scrap_lb@.len() == 0
    &&& p.result_total_cost@.len() == 0
    &&& p.result_price_per_lb@.len() == 0
    &&& p.result_scrap_charge_per_lb@.len() == 0
    &&& p.result_is_pickup@.len() == 0
    &&& p.error_message@.len() == 0
}

/// Resets the scrap panel to its defaults: the base and processing cost
/// fields to "0.00", every other field and result emptied.
pub fn clear_scrap(panel: &mut ScrapPanel)
    ensures
        scrap_panel_cleared(*final(panel)),
{
    panel.actual_weight_text = String::new();
    panel.ending_weight_text = String::new();
    panel.base_cost_text = String::from_str("0.00");
    panel.processing_cost_text = String::from_str("0.00");
    panel.result_scrap_lb = String::new();
    panel.result_total_cost = String::new();
    panel.result_price_per_lb = String::new();
    panel.result_scrap_charge_per_lb = String::new();
    panel.result_is_pickup = String::new();
    panel.error_message = String::new();
}

/// Copies the sheet's total weight (as shown) into the actual weight field.
pub fn copy_to_actual(panel: &mut ScrapPanel, result_total_lb: &String)
    ensures
        *final(panel) == (ScrapPanel { actual_weight_text: final(panel).actual_weight_text, ..*old(panel) }),
        final(panel).actual_weight_text@ == result_total_lb@,
{
    panel.actual_weight_text = result_total_lb.clone();
}

/// Copies the sheet's total weight (as shown) into the ending weight field.
pub fn copy_to_ending(panel: &mut ScrapPanel, result_total_lb: &String)
    ensures
        *final(panel) == (ScrapPanel { ending_weight_text: final(panel).ending_weight_text, ..*old(panel) }),
        final(panel).ending_weight_text@ == result_total_lb@,
{
    panel.ending_weight_text = result_total_lb.clone();
}

// ---------------------------------------------------------------------------
// Sheet panel
// ---------------------------------------------------------------------------

/// The sheet panel: its inputs, the psf source (`calc_mode`), the table and
/// gauge lists and choices, its results, and the pricing inputs and results.
#[derive(Clone, Debug)]
pub struct SheetPanel {
    pub width_text: String,
    pub length_text: String,
    pub qty_text: String,
    pub calc_mode: i32,
    pub psf_text: String,
    pub thickness_text: String,
    pub table_names: Vec<String>,
    pub selected_table_index: i32,
    pub gauge_keys: Vec<String>,
    pub selected_gauge_index: i32,
    pub gauge_text: String,
    pub result_each_lb: String,
    pub result_total_lb: String,
    pub result_psf: String,
    pub result_area_each: String,
    pub result_area_total: String,
    pub error_message: String,
    pub price_mode_index: i32,
    pub price_value_text: String,
    pub markup_text: String,
    pub tax_text: String,
    pub setup_fee_text: String,
    pub minimum_order_text: String,
    pub cost_each_before_tax: String,
    pub cost_each_after_tax: String,
    pub cost_total_before_tax: String,
    pub cost_total_after_tax: String,
    pub cost_minimum_applied: String,
    pub pricing_error_message: String,
}

/// The table name at position `index` of the name order, or empty text.
pub open spec fn listed_table(tables: GaugeTables, index: i32) -> Seq<char> {
    if 0 <= index < tables.names().len() {
        tables.names()[index as int]
    } else {
        Seq::<char>::empty()
    }
}

/// `keys` are the gauge keys, in table order, of the table named `name`
/// (none when there is no such table).
pub open spec fn keys_of_table(keys: Seq<String>, tables: GaugeTables, name: Seq<char>) -> bool {
    match tables.lookup(name) {
        Some(rows) => keys.len() == rows.len() && forall|i: int| 0 <= i < rows.len() ==> #[trigger] keys[i]@ == rows[i].0,
        None => keys.len() == 0,
    }
}

/// The sheet panel at its defaults: no dimensions, quantity "1", the psf
/// taken from a gauge (`calc_mode` 0), the table list in name order with the
/// default table selected and that table's gauges with the default gauge
/// selected (each found ignoring case, else the first), the default gauge
/// typed, no results, pricing per pound (`price_mode_index` 0) with price
/// "0.00", markup and tax "0", setup fee and minimum order "0.00", and no
/// costs or errors.
pub open spec fn sheet_panel_cleared(p: SheetPanel, tables: GaugeTables, default_table: Seq<char>, default_gauge: Seq<char>) -> bool {
    &&& p.width_text@.len() == 0
    &&& p.length_text@.len() == 0
    &&& p.qty_text@ == "1"@
    &&& p.calc_mode == 0
    &&& p.psf_text@.len() == 0
    &&& p.thickness_text@.len() == 0
    &&& p.table_names@.len() == tables.names().len()
    &&& forall|i: int| 0 <= i < p.table_names@.len() ==> #[trigger] p.table_names@[i]@ == tables.names()[i]
    &&& p.selected_table_index as int == first_same_upper(p.table_names@, default_table)
    &&& keys_of_table(p.gauge_keys@, tables, listed_table(tables, p.selected_table_index))
    &&& p.selected_gauge_index as int == first_same_upper(p.gauge_keys@, default_gauge)
    &&& p.gauge_text@ == default_gauge
    &&& p.result_each_lb@.len() == 0
    &&& p.result_total_lb@.len() == 0
    &&& p.result_psf@.len() == 0
    &&& p.result_area_each@.len() == 0
    &&& p.result_area_total@.len() == 0
    &&& p.error_message@.len() == 0
    &&& p.price_mode_index == 0
    &&& p.price_value_text@ == "0.00"@
    &&& p.markup_text@ == "0"@
    &&& p.tax_text@ == "0"@
    &&& p.setup_fee_text@ == "0.00"@
    &&& p.minimum_order_text@ == "0.00"@
    &&& p.cost_each_before_tax@.len() == 0
    &&& p.cost_each_after_tax@.len() == 0
    &&& p.cost_total_before_tax@.len() == 0
    &&& p.cost_total_after_tax@.len() == 0
    &&& p.cost_minimum_applied@.len() == 0
    &&& p.pricing_error_message@.len() == 0
}

/// Resets the sheet panel and its pricing to their defaults (see
/// `sheet_panel_cleared`), selecting the default table and gauge.
pub fn clear_sheet(panel: &mut SheetPanel, tables: &GaugeTables, default_table: &str, default_gauge: &str)
    requires
        tables.names().len() <= i32::MAX,
        forall|n: Seq<char>| #[trigger] tables.lookup(n) matches Some(rows) ==> rows.len() <= i32::MAX,
    ensures
        sheet_panel_cleared(*final(panel), *tables, default_table@, default_gauge@),
{
    panel.width_text = String::new();
    panel.length_text = String::new();
    panel.qty_text = String::from_str("1");
    panel.calc_mode = 0;
    panel.psf_text = String::new();
    panel.thickness_text = String::new();
    let models = build_initial_models(tables, default_table, default_gauge);
    panel.table_names = models.table_names;
    panel.selected_table_index = models.default_table_idx;
    panel.gauge_keys = models.initial_gauges;
    panel.selected_gauge_index = models.default_gauge_idx;
    panel.gauge_text = String::from_str(default_gauge);
    panel.result_each_lb = String::new();
    panel.result_total_lb = String::new();
    panel.result_psf = String::new();
    panel.result_area_each = String::new();
    panel.result_area_total = String::new();
    panel.error_message = String::new();
    panel.price_mode_index = 0;
    panel.price_value_text = String::from_str("0.00");
    panel.markup_text = String::from_str("0");
    panel.tax_text = String::from_str("0");
    panel.setup_fee_text = String::from_str("0.00");
    panel.minimum_order_text = String::from_str("0.00");
    panel.cost_each_before_tax = String::new();
    panel.cost_each_after_tax = String::new();
    panel.cost_total_before_tax = String::new();
    panel.cost_total_after_tax = String::new();
    panel.cost_minimum_applied = String::new();
    panel.pricing_error_message = String::new();
}

// ---------------------------------------------------------------------------
// Coil panel
// ---------------------------------------------------------------------------

/// The coil panel: its inputs and results.
#[derive(Clone, Debug)]
pub struct CoilPanel {
    pub width_text: String,
    pub thickness_text: String,
    pub id_text: String,
    pub weight_text: String,
    pub density_text: String,
    pub result_footage: String,
    pub result_piw: String,
    pub result_od: String,
    pub error_message: String,
}

/// Resets the coil panel to its defaults: inner diameter "20", the density
/// in effect (`density_text`, as the window shows it), every other field
/// and result empty.
pub fn clear_coil(panel: &mut CoilPanel, density_text: &str)
    ensures
        final(panel).width_text@.len() == 0,
        final(panel).thickness_text@.len() == 0,
        final(panel).id_text@ == "20"@,
        final(panel).weight_text@.len() == 0,
        final(panel).density_text@ == density_text@,
        final(panel).result_footage@.len() == 0,
        final(panel).result_piw@.len() == 0,
        final(panel).result_od@.len() == 0,
        final(panel).error_message@.len() == 0,
{
    panel.width_text = String::new();
    panel.thickness_text = String::new();
    panel.id_text = String::from_str("20");
    panel.weight_text = String::new();
    panel.density_text = String::from_str(density_text);
    panel.result_footage = String::new();
    panel.result_piw = String::new();
    panel.result_od = String::new();
    panel.error_message = String::new();
}

// ---------------------------------------------------------------------------
// History dialog
// ---------------------------------------------------------------------------

/// The history dialog: its filter, search text, status line, the listed
/// entries (their positions in the session history and their labels), the
/// selected line and the preview.
#[derive(Clone, Debug)]
pub struct HistoryDialog {
    pub filter_type_index: i32,
    pub search_text: String,
    pub status_text: String,
    pub status_is_error: bool,
    pub filtered: Vec<usize>,
    pub labels: Vec<String>,
    pub selected_index: i32,
    pub preview_text: String,
}

/// The dialog lists exactly the entries of `history` that its filter and
/// search text select, with nothing selected and no preview.
pub open spec fn lists_selection(d: HistoryDialog, history: Seq<crate::history::HistoryEntry>) -> bool {
    let pos = listed_positions(history, d.filter_type_index, lowercase_of(trim(d.search_text@)));
    &&& d.filtered@.len() == pos.len()
    &&& d.labels@.len() == pos.len()
    &&& forall|k: int| 0 <= k < pos.len() ==> d.filtered@[k] as int == pos[k]
    &&& forall|k: int| 0 <= k < pos.len() ==> d.labels@[k]@ == entry_label(history[pos[k]])
    &&& d.selected_index == -1
    &&& d.preview_text@.len() == 0
}

/// Lists the entries that the dialog's filter and search text select.
pub fn refresh_history_filter(dialog: &mut HistoryDialog, history: &SessionHistory)
    ensures
        lists_selection(*final(dialog), history@),
        final(dialog).filter_type_index == old(dialog).filter_type_index,
        final(dialog).search_text == old(dialog).search_text,
        final(dialog).status_text == old(dialog).status_text,
        final(dialog).status_is_error == old(dialog).status_is_error,
{
    let (indices, labels) = build_filtered_history(history, dialog.filter_type_index, dialog.search_text.as_str());
    dialog.filtered = indices;
    dialog.labels = labels;
    dialog.selected_index = -1;
    dialog.preview_text = String::new();
}

/// Opens the history dialog with no filter, no search text and no status,
/// listing every entry, and hides the other dialogs.
pub fn open_history(dialogs: &mut Dialogs, dialog: &mut HistoryDialog, history: &SessionHistory)
    ensures
        *final(dialogs) == (Dialogs {
            show_help: false,
            show_about: false,
            show_config_editor: false,
            show_history: true,
        }),
        final(dialog).filter_type_index == 0,
        final(dialog).search_text@.len() == 0,
        final(dialog).status_text@.len() == 0,
        !final(dialog).status_is_error,
        lists_selection(*final(dialog), history@),
{
    dialog.filter_type_index = 0;
    dialog.search_text = String::new();
    dialog.status_text = String::new();
    dialog.status_is_error = false;
    refresh_history_filter(dialog, history);
    dialogs.show_help = false;
    dialogs.show_about = false;
    dialogs.show_config_editor = false;
    dialogs.show_history = true;
}

/// Shows the preview of the entry on line `idx` of the list, or no preview
/// when there is no such line or entry.
pub fn select_history_entry(dialog: &mut HistoryDialog, history: &SessionHistory, idx: i32)
    ensures
        ({
            let f = old(dialog).filtered@;
            if 0 <= idx < f.len() && f[idx as int] < history@.len() {
                final(dialog).preview_text@ == preview_text(history@[f[idx as int] as int])
            } else {
                final(dialog).preview_text@.len() == 0
            }
        }),
        final(dialog).filtered == old(dialog).filtered,
        final(dialog).labels == old(dialog).labels,
        final(dialog).selected_index == old(dialog).selected_index,
{
    let entries = history.get_entries();
    if idx >= 0 && (idx as usize) < dialog.filtered.len() {
        let position: usize = dialog.filtered[idx as usize];
        if position < entries.len() {
            dialog.preview_text = build_preview_text(&entries[position]);
            return;
        }
    }
    dialog.preview_text = String::new();
}

// ---------------------------------------------------------------------------
// Start-up lists
// ---------------------------------------------------------------------------

/// The table names, in order.
pub fn table_names_from(tables: &GaugeTables) -> (r: Vec<String>)
    ensures
        r@.len() == tables.names().len(),
        forall|i: int| 0 <= i < r@.len() ==> #[trigger] r@[i]@ == tables.names()[i],
{
    tables.keys()
}

/// The gauge keys of the table named exactly `table_name`, in table order;
/// none when there is no such table.
pub fn gauge_keys_for_table(tables: &GaugeTables, table_name: &str) -> (r: Vec<String>)
    ensures
        match tables.lookup(table_name@) {
            Some(rows) => r@.len() == rows.len() && forall|i: int|
                0 <= i < rows.len() ==> #[trigger] r@[i]@ == rows[i].0,
            None => r@.len() == 0,
        },
{
    match tables.get(table_name) {
        Some(table) => {
            let entries = table.entries();
            let mut keys: Vec<String> = Vec::new();
            let mut i: usize = 0;
            while i < entries.len()
                invariant
                    i <= entries.len(),
                    crate::gauges::rows_of(entries@) == table@,
                    keys@.len() == i,
                    forall|k: int| 0 <= k < i ==> #[trigger] keys@[k]@ == table@[k].0,
                decreases entries.len() - i,
            {
                keys.push(entries[i].key.clone());
                i = i + 1;
            }
            keys
        },
        None => Vec::new(),
    }
}

/// The lists the window starts with: the table names with the default
/// table's position, and that table's gauge keys with the default gauge's
/// position (0 when a name is not found, ignoring case).
pub struct InitialModels {
    pub table_names: Vec<String>,
    pub default_table_idx: i32,
    pub initial_gauges: Vec<String>,
    pub default_gauge_idx: i32,
}

/// The start-up lists for the configured default table and gauge.
pub fn build_initial_models(tables: &GaugeTables, default_table: &str, default_gauge: &str) -> (r: InitialModels)
    requires
        tables.names().len() <= i32::MAX,
        forall|n: Seq<char>| #[trigger] tables.lookup(n) matches Some(rows) ==> rows.len() <= i32::MAX,
    ensures
        r.table_names@.len() == tables.names().len(),
        forall|i: int| 0 <= i < r.table_names@.len() ==> #[trigger] r.table_names@[i]@ == tables.names()[i],
        r.default_table_idx as int == first_same_upper(r.table_names@, default_table@),
        ({
            let initial = if 0 <= r.default_table_idx < tables.names().len() {
                tables.names()[r.default_table_idx as int]
            } else {
                Seq::<char>::empty()
            };
            match tables.lookup(initial) {
                Some(rows) => r.initial_gauges@.len() == rows.len() && forall|i: int|
                    0 <= i < rows.len() ==> #[trigger] r.initial_gauges@[i]@ == rows[i].0,
                None => r.initial_gauges@.len() == 0,
            }
        }),
        r.default_gauge_idx as int == first_same_upper(r.initial_gauges@, default_gauge@),
{
    let table_names = table_names_from(tables);
    let default_table_idx = find_index(table_names.as_slice(), default_table);
    let initial_table = if default_table_idx >= 0 && (default_table_idx as usize) < table_names.len() {
        table_names[default_table_idx as usize].clone()
    } else {
        String::new()
    };
    let initial_gauges = gauge_keys_for_table(tables, initial_table.as_str());
    proof {
        if tables.lookup(initial_table@) is Some {
            assert(tables.lookup(initial_table@) matches Some(rows) ==> rows.len() <= i32::MAX);
        }
    }
    let default_gauge_idx = find_index(initial_gauges.as_slice(), default_gauge);
    InitialModels { table_names, default_table_idx, initial_gauges, default_gauge_idx }
}

// ---------------------------------------------------------------------------
// Recording and recalling sheet calculations
// ---------------------------------------------------------------------------

/// The item at `index` of a list, as an `i32` selection (none when out of
/// range or negative).
pub open spec fn selected_item(items: Seq<String>, index: i32) -> Option<Seq<char>> {
    if 0 <= index < items.len() {
        Some(items[index as int]@)
    } else {
        None
    }
}

fn item_at(items: &[String], index: i32) -> (r: Option<String>)
    ensures
        match r {
            Some(s) => selected_item(items@, index) == Some(s@),
            None => selected_item(items@, index) is None,
        },
{
    if index >= 0 && (index as usize) < items.len() {
        Some(items[index as usize].clone())
    } else {
        None
    }
}

/// `g` is the gauge key a sheet calculation uses: the key at the resolved
/// gauge position, else the typed text.
pub open spec fn gauge_choice(keys: Seq<String>, gauge_text: Seq<char>, selected_gauge_index: i32, g: Seq<char>) -> bool {
    exists|p: Option<usize>|
        resolved_gauge(keys, gauge_text, selected_gauge_index, p) && g == match p {
            Some(i) => if i < keys.len() {
                keys[i as int]@
            } else {
                gauge_text
            },
            None => gauge_text,
        }
}

/// The gauge key a sheet calculation uses (see `gauge_choice`).
pub fn chosen_gauge_key(gauge_keys: &[String], gauge_text: &str, selected_gauge_index: i32) -> (r: String)
    ensures
        gauge_choice(gauge_keys@, gauge_text@, selected_gauge_index, r@),
{
    let p = resolve_gauge_index(gauge_keys, gauge_text, selected_gauge_index);
    match p {
        Some(i) => if i < gauge_keys.len() {
            gauge_keys[i].clone()
        } else {
            String::from_str(gauge_text)
        },
        None => String::from_str(gauge_text),
    }
}

/// The text fields that a sheet calculation records with its numbers, in
/// the order they are recorded.
pub struct SheetHistoryForm<'a> {
    pub calc_mode: i32,
    pub table_names: &'a [String],
    pub gauge_keys: &'a [String],
    pub selected_table_index: i32,
    pub gauge_text: &'a str,
    pub selected_gauge_index: i32,
    pub psf_text: &'a str,
    pub thickness_text: &'a str,
    pub price_mode_index: i32,
    pub price_value_text: &'a str,
    pub markup_text: &'a str,
    pub tax_text: &'a str,
    pub setup_fee_text: &'a str,
    pub minimum_order_text: &'a str,
}

/// The name a price mode index is recorded under.
pub open spec fn price_mode_name(index: i32) -> Seq<char> {
    if index == 0 {
        "per_lb"@
    } else if index == 1 {
        "per_ft2"@
    } else if index == 2 {
        "per_sheet"@
    } else {
        "unknown"@
    }
}

pub open spec fn pairs_view(v: Seq<(String, String)>) -> Seq<(Seq<char>, Seq<char>)> {
    Seq::new(v.len(), |i: int| (v[i].0@, v[i].1@))
}

/// The pricing fields recorded for every sheet calculation.
pub open spec fn pricing_pairs(f: SheetHistoryForm) -> Seq<(Seq<char>, Seq<char>)> {
    seq![
        ("price_mode"@, price_mode_name(f.price_mode_index)),
        ("price_value"@, f.price_value_text@),
        ("markup"@, f.markup_text@),
        ("tax"@, f.tax_text@),
        ("setup_fee"@, f.setup_fee_text@),
        ("minimum_order"@, f.minimum_order_text@),
    ]
}

fn push_pair(v: &mut Vec<(String, String)>, key: &str, value: String)
    ensures
        pairs_view(final(v)@) == pairs_view(old(v)@).push((key@, value@)),
{
    let ghost before = v@;
    v.push((String::from_str(key), value));
    assert(pairs_view(v@) =~= pairs_view(before).push((key@, value@)));
}

/// The text fields a sheet calculation records (after its width, length
/// and quantity): for gauge mode (0) the selected table and the chosen
/// gauge key, for psf mode (1) the psf text, for thickness mode (2) the
/// thickness text, with the mode's name; then the pricing fields.
pub fn sheet_history_fields(f: &SheetHistoryForm) -> (r: Vec<(String, String)>)
    ensures
        f.calc_mode == 0 ==> {
            let v = pairs_view(r@);
            &&& v.len() == 9
            &&& v[0] == ("table"@, match selected_item(f.table_names@, f.selected_table_index) {
                Some(t) => t,
                None => Seq::<char>::empty(),
            })
            &&& v[1].0 == "gauge"@
            &&& gauge_choice(f.gauge_keys@, f.gauge_text@, f.selected_gauge_index, v[1].1)
            &&& v[2] == ("input_mode"@, "gauge"@)
            &&& v.skip(3) == pricing_pairs(*f)
        },
        f.calc_mode == 1 ==> pairs_view(r@) == seq![("psf"@, f.psf_text@), ("input_mode"@, "psf"@)]
            + pricing_pairs(*f),
        f.calc_mode == 2 ==> pairs_view(r@) == seq![
            ("thickness"@, f.thickness_text@),
            ("input_mode"@, "thickness"@),
        ] + pricing_pairs(*f),
        f.calc_mode < 0 || f.calc_mode > 2 ==> pairs_view(r@) == pricing_pairs(*f),
{
    let mut v: Vec<(String, String)> = Vec::new();
    if f.calc_mode == 0 {
        let table = match item_at(f.table_names, f.selected_table_index) {
            Some(t) => t,
            None => String::new(),
        };
        let gauge = chosen_gauge_key(f.gauge_keys, f.gauge_text, f.selected_gauge_index);
        push_pair(&mut v, "table", table);
        push_pair(&mut v, "gauge", gauge);
        push_pair(&mut v, "input_mode", String::from_str("gauge"));
    } else if f.calc_mode == 1 {
        push_pair(&mut v, "psf", String::from_str(f.psf_text));
        push_pair(&mut v, "input_mode", String::from_str("psf"));
    } else if f.calc_mode == 2 {
        push_pair(&mut v, "thickness", String::from_str(f.thickness_text));
        push_pair(&mut v, "input_mode", String::from_str("thickness"));
    }
    let ghost head = pairs_view(v@);
    let mode = if f.price_mode_index == 0 {
        "per_lb"
    } else if f.price_mode_index == 1 {
        "per_ft2"
    } else if f.price_mode_index == 2 {
        "per_sheet"
    } else {
        "unknown"
    };
    push_pair(&mut v, "price_mode", String::from_str(mode));
    push_pair(&mut v, "price_value", String::from_str(f.price_value_text));
    push_pair(&mut v, "markup", String::from_str(f.markup_text));
    push_pair(&mut v, "tax", String::from_str(f.tax_text));
    push_pair(&mut v, "setup_fee", String::from_str(f.setup_fee_text));
    push_pair(&mut v, "minimum_order", String::from_str(f.minimum_order_text));
    assert(pairs_view(v@) =~= head + pricing_pairs(*f));
    assert(f.calc_mode == 0 ==> pairs_view(v@).skip(3) =~= pricing_pairs(*f));
    v
}

/// What recalling a sheet entry puts back into the sheet panel.
pub struct SheetRecall {
    pub width_text: String,
    pub length_text: String,
    pub qty_text: String,
    /// 0 gauge, 1 psf, 2 thickness.
    pub calc_mode: i32,
    pub psf_text: Option<String>,
    pub thickness_text: Option<String>,
    /// For gauge mode: the table's position among the table names.
    pub table_index: Option<i32>,
    /// For gauge mode with the tables at hand: the gauge keys of that table.
    pub gauge_keys: Option<Vec<String>>,
    /// For gauge mode: the gauge's position among the gauge keys shown.
    pub gauge_index: Option<i32>,
    pub gauge_text: Option<String>,
    pub price_mode_index: i32,
    pub price_value_text: String,
    pub markup_text: String,
    pub tax_text: String,
    pub setup_fee_text: String,
    pub minimum_order_text: String,
}

/// The calculation mode an entry's input mode names (unknown ones give the
/// gauge mode).
pub open spec fn recalled_mode(mode: Seq<char>) -> i32 {
    if mode == "psf"@ {
        1
    } else if mode == "thickness"@ {
        2
    } else {
        0
    }
}

/// The price mode index a recorded price mode names (unknown ones give
/// per pound).
pub open spec fn recalled_price_mode(mode: Seq<char>) -> i32 {
    if mode == "per_ft2"@ {
        1
    } else if mode == "per_sheet"@ {
        2
    } else {
        0
    }
}

fn text_is(a: &String, b: &str) -> (r: bool)
    ensures
        r == (a@ == b@),
{
    crate::text::same_chars(&crate::text::chars_of(a.as_str()), &crate::text::chars_of(b))
}

/// Reads back a recorded sheet entry: its texts, its mode, and for gauge
/// mode the table and gauge positions (in `table_names`, and in the
/// recorded table's keys when the tables are at hand, else in the gauge
/// keys shown).
pub fn recall_sheet_entry(
    inputs: &Payload,
    table_names: &[String],
    tables: Option<&GaugeTables>,
    shown_gauge_keys: &[String],
) -> (r: SheetRecall)
    requires
        table_names@.len() <= i32::MAX,
        shown_gauge_keys@.len() <= i32::MAX,
        tables matches Some(t) ==> forall|n: Seq<char>| #[trigger] t.lookup(n) matches Some(rows) ==> rows.len() <= i32::MAX,
    ensures
        r.width_text@ == recalled_field(*inputs, "width"@),
        r.length_text@ == recalled_field(*inputs, "length"@),
        r.qty_text@ == recalled_field(*inputs, "qty"@),
        r.calc_mode == recalled_mode(recalled_field(*inputs, "input_mode"@)),
        r.calc_mode == 1 ==> (r.psf_text matches Some(t) && t@ == recalled_field(*inputs, "psf"@)),
        r.calc_mode != 1 ==> r.psf_text is None,
        r.calc_mode == 2 ==> (r.thickness_text matches Some(t) && t@ == recalled_field(*inputs, "thickness"@)),
        r.calc_mode != 2 ==> r.thickness_text is None,
        r.calc_mode == 0 && recalled_field(*inputs, "input_mode"@) == "gauge"@ ==> {
            let table = recalled_field(*inputs, "table"@);
            let gauge = recalled_field(*inputs, "gauge"@);
            &&& r.table_index is Some && r.table_index.unwrap() as int == first_same_upper(table_names@, table)
            &&& r.gauge_text is Some && r.gauge_text.unwrap()@ == gauge
            &&& r.gauge_index is Some
            &&& match tables {
                Some(t) => {
                    let ti = r.table_index.unwrap();
                    let resolved = if 0 <= ti < table_names@.len() {
                        table_names@[ti as int]@
                    } else {
                        Seq::<char>::empty()
                    };
                    &&& r.gauge_keys is Some
                    &&& match t.lookup(resolved) {
                        Some(rows) => r.gauge_keys.unwrap()@.len() == rows.len() && forall|i: int|
                            0 <= i < rows.len() ==> #[trigger] r.gauge_keys.unwrap()@[i]@ == rows[i].0,
                        None => r.gauge_keys.unwrap()@.len() == 0,
                    }
                    &&& r.gauge_index.unwrap() as int == first_same_upper(r.gauge_keys.unwrap()@, gauge)
                },
                None => r.gauge_keys is None && r.gauge_index.unwrap() as int == first_same_upper(
                    shown_gauge_keys@,
                    gauge,
                ),
            }
        },
        !(r.calc_mode == 0 && recalled_field(*inputs, "input_mode"@) == "gauge"@) ==> r.table_index is None
            && r.gauge_keys is None && r.gauge_index is None && r.gauge_text is None,
        r.price_mode_index == recalled_price_mode(recalled_field(*inputs, "price_mode"@)),
        r.price_value_text@ == recalled_field(*inputs, "price_value"@),
        r.markup_text@ == recalled_field(*inputs, "markup"@),
        r.tax_text@ == recalled_field(*inputs, "tax"@),
        r.setup_fee_text@ == recalled_field(*inputs, "setup_fee"@),
        r.minimum_order_text@ == recalled_field(*inputs, "minimum_order"@),
{
    let mode = json_str(inputs, "input_mode");
    let is_gauge = text_is(&mode, "gauge");
    let calc_mode: i32 = if text_is(&mode, "psf") {
        1
    } else if text_is(&mode, "thickness") {
        2
    } else {
        0
    };
    proof {
        reveal_strlit("gauge");
        reveal_strlit("psf");
        reveal_strlit("thickness");
        assert("gauge"@.len() == 5 && "psf"@.len() == 3 && "thickness"@.len() == 9);
    }
    let mut table_index: Option<i32> = None;
    let mut gauge_keys: Option<Vec<String>> = None;
    let mut gauge_index: Option<i32> = None;
    let mut gauge_text: Option<String> = None;
    if is_gauge {
        let table_name = json_str(inputs, "table");
        let gauge_name = json_str(inputs, "gauge");
        let ti = find_index(table_names, table_name.as_str());
        table_index = Some(ti);
        match tables {
            Some(t) => {
                let resolved = match item_at(table_names, ti) {
                    Some(n) => n,
                    None => String::new(),
                };
                let keys = gauge_keys_for_table(t, resolved.as_str());
                proof {
                    if t.lookup(resolved@) is Some {
                        assert(t.lookup(resolved@) matches Some(rows) ==> rows.len() <= i32::MAX);
                    }
                }
                gauge_index = Some(find_index(keys.as_slice(), gauge_name.as_str()));
                gauge_keys = Some(keys);
            },
            None => {
                gauge_index = Some(find_index(shown_gauge_keys, gauge_name.as_str()));
            },
        }
        gauge_text = Some(gauge_name);
    }
    let price_mode = json_str(inputs, "price_mode");
    let price_mode_index: i32 = if text_is(&price_mode, "per_ft2") {
        1
    } else if text_is(&price_mode, "per_sheet") {
        2
    } else {
        0
    };
    SheetRecall {
        width_text: json_str(inputs, "width"),
        length_text: json_str(inputs, "length"),
        qty_text: json_str(inputs, "qty"),
        calc_mode,
        psf_text: if calc_mode == 1 {
            Some(json_str(inputs, "psf"))
        } else {
            None
        },
        thickness_text: if calc_mode == 2 {
            Some(json_str(inputs, "thickness"))
        } else {
            None
        },
        table_index,
        gauge_keys,
        gauge_index,
        gauge_text,
        price_mode_index,
        price_value_text: json_str(inputs, "price_value"),
        markup_text: json_str(inputs, "markup"),
        tax_text: json_str(inputs, "tax"),
        setup_fee_text: json_str(inputs, "setup_fee"),
        minimum_order_text: json_str(inputs, "minimum_order"),
    }
}

/// What recalling a coil entry puts back: its four texts, and the density
/// when one was recorded.
pub struct CoilRecall {
    pub width_text: String,
    pub thickness_text: String,
    pub id_text: String,
    pub weight_text: String,
    pub density_text: Option<String>,
}

pub fn recall_coil_entry(inputs: &Payload) -> (r: CoilRecall)
    ensures
        r.width_text@ == recalled_field(*inputs, "width"@),
        r.thickness_text@ == recalled_field(*inputs, "thickness"@),
        r.id_text@ == recalled_field(*inputs, "id"@),
        r.weight_text@ == recalled_field(*inputs, "weight"@),
        recalled_field(*inputs, "density"@).len() == 0 ==> r.density_text is None,
        recalled_field(*inputs, "density"@).len() > 0 ==> (r.density_text matches Some(d) && d@
            == recalled_field(*inputs, "density"@)),
{
    let density = json_str(inputs, "density");
    let density_text = if crate::text::chars_of(density.as_str()).len() == 0 {
        None
    } else {
        Some(density)
    };
    CoilRecall {
        width_text: json_str(inputs, "width"),
        thickness_text: json_str(inputs, "thickness"),
        id_text: json_str(inputs, "id"),
        weight_text: json_str(inputs, "weight"),
        density_text,
    }
}

/// What recalling a scrap entry puts back.
pub struct ScrapRecall {
    pub actual_weight_text: String,
    pub ending_weight_text: String,
    pub base_cost_text: String,
    pub processing_cost_text: String,
}

pub fn recall_scrap_entry(inputs: &Payload) -> (r: ScrapRecall)
    ensures
        r.actual_weight_text@ == recalled_field(*inputs, "actual_weight"@),
        r.ending_weight_text@ == recalled_field(*inputs, "ending_weight"@),
        r.base_cost_text@ == recalled_field(*inputs, "base_cost"@),
        r.processing_cost_text@ == recalled_field(*inputs, "processing_cost"@),
{
    ScrapRecall {
        actual_weight_text: json_str(inputs, "actual_weight"),
        ending_weight_text: json_str(inputs, "ending_weight"),
        base_cost_text: json_str(inputs, "base_cost"),
        processing_cost_text: json_str(inputs, "processing_cost"),
    }
}

/// What recalling the selected history line leads to.
pub enum RecallTarget {
    /// The status line reports why nothing was recalled.
    Refused { status: String },
    /// The entry to recall, its kind, and the tab that shows it (sheet and
    /// pricing entries go to the sheet panel).
    Recall { position: usize, entry_type: HistoryEntryType, tab_index: i32 },
}

/// Decides what recalling line `selected` of the history list does.
pub fn recall_history_target(selected: i32, filtered: &[usize], history: &SessionHistory) -> (r: RecallTarget)
    ensures
        selected < 0 ==> (r matches RecallTarget::Refused { status } && status@ == "No entry selected."@),
        selected >= 0 && selected >= filtered@.len() ==> (r matches RecallTarget::Refused { status }
            && status@ == "Invalid selection."@),
        0 <= selected < filtered@.len() && filtered@[selected as int] >= history@.len() ==> (
        r matches RecallTarget::Refused { status } && status@ == "Entry not found."@),
        0 <= selected < filtered@.len() && filtered@[selected as int] < history@.len() ==> (
        r matches RecallTarget::Recall { position, entry_type, tab_index } && position
            == filtered@[selected as int] && entry_type == history@[position as int].entry_type
            && tab_index == if entry_type == HistoryEntryType::Coil {
            1i32
        } else {
            0i32
        }),
{
    if selected < 0 {
        return RecallTarget::Refused { status: String::from_str("No entry selected.") };
    }
    if (selected as usize) >= filtered.len() {
        return RecallTarget::Refused { status: String::from_str("Invalid selection.") };
    }
    let position = filtered[selected as usize];
    let entries = history.get_entries();
    if position >= entries.len() {
        return RecallTarget::Refused { status: String::from_str("Entry not found.") };
    }
    let entry_type = entries[position].entry_type;
    let tab_index: i32 = match entry_type {
        HistoryEntryType::Coil => 1,
        _ => 0,
    };
    RecallTarget::Recall { position, entry_type, tab_index }
}

} // verus!
