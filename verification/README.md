# steelcal

A steel sheet weight and cost calculator (imperial units): gauge tables,
sheet/coil/scrap/pricing calculations, a user configuration file, a
session history with text export, and batch jobs from JSON or CSV files.

The library under `src/` is written in Verus and verified: every public
function carries a contract over mathematical models (sequences of
characters for text, exact ratios for gauge-key numbers, IEEE-754 bit
patterns for the psf values the tables carry).

- `keys`, `order`: reading gauge keys ("16", "3/16", "1-1/2", "0.1875") as
  exact numbers, and the key order (whole numbers, then other numbers, then
  text), with its order laws.
- `gauges`, `catalog`: gauge tables, the built-in tables, table-name
  normalization, key resolution, lookups, suggestion ranking and merging of
  override tables.
- `search`: the desktop gauge search (normalized tokens, direct and
  numeric matches, best match).
- `calendar`, `history`: UTC timestamp rendering, session history,
  filtering, previews and the export format.
- `config`, `paths`: configuration normalization, warnings, effective
  settings, the load/rewrite decision, and file locations.
- `cli`, `batch`, `desktop`, `inputs`, `errors`: the decisions of the
  command-line tool, batch files, and desktop window actions.

`app/` is the command-line program: argument parsing, file I/O, JSON
(de)serialization, and the floating-point arithmetic of the calculations.

The Slint desktop window is not built by this crate: Slint compiles its
interface description with a build script. What the window's actions do
(the dialogs, the configuration editor, clearing and filling the sheet,
coil and scrap panels, the history dialog and recall) is in
`src/desktop.rs`; a window shell would read and write files and move these
values to and from its widgets.
