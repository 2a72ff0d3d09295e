//! Steel sheet weight and cost calculator: gauge tables and lookups, key
//! ordering and search, configuration normalization, calculation history,
//! and the decisions of the command-line and desktop front ends.
use vstd::prelude::*;

pub mod batch;
pub mod calendar;
pub mod catalog;
pub mod cli;
pub mod config;
pub mod desktop;
pub mod errors;
pub mod gauges;
pub mod history;
pub mod inputs;
pub mod keys;
pub mod order;
pub mod paths;
pub mod search;
pub mod text;

verus! {

/// The calculator's version.
pub const APP_VERSION: &'static str = "0.1.2";

pub const APP_COPYRIGHT: &'static str = "Copyright (c) Harbor Pipe & Steel Inc.";

pub const APP_TITLE: &'static str = "SIMPLE STEEL CALCULATOR";

/// Name of the per-user data directory.
pub const APP_DATA_DIRNAME: &'static str = "SimpleSteelCalculator";

pub const CONFIG_FILENAME: &'static str = "steel_calc_config.json";

pub const HISTORY_FILENAME: &'static str = "history.log";

pub const UI_FONT_SIZE_DEFAULT: i64 = 12;

pub const UI_HEADING_DELTA_DEFAULT: i64 = 3;

/// How a price is quoted.
#[derive(Clone, Copy, Debug, PartialEq, Eq, Structural)]
pub enum PriceMode {
    /// Price per pound.
    PerLb,
    /// Price per square foot.
    PerFt2,
    /// Price per sheet.
    PerSheet,
}

/// The name shown for a price mode.
pub open spec fn price_mode_label(m: PriceMode) -> Seq<char> {
    match m {
        PriceMode::PerLb => "per lb"@,
        PriceMode::PerFt2 => "per ft²"@,
        PriceMode::PerSheet => "per sheet"@,
    }
}

impl PriceMode {
    /// The name shown for this mode.
    pub fn to_string(&self) -> (r: String)
        ensures
            r@ == price_mode_label(*self),
    {
        match self {
            PriceMode::PerLb => String::from_str("per lb"),
            PriceMode::PerFt2 => String::from_str("per ft²"),
            PriceMode::PerSheet => String::from_str("per sheet"),
        }
    }
}

} // verus!
