//! The two wire formats a request can ask for.

use crate::size::lower_code;
use vstd::prelude::*;

verus! {

/// The output format of a generation request.
#[derive(PartialEq, Eq, Structural, Clone, Copy, Debug)]
pub enum OutputFormat {
    JSON,
    CSV,
}

/// True when the string spells `csv`, compared case-insensitively.
pub open spec fn is_csv_name(s: Seq<char>) -> bool {
    &&& s.len() == 3
    &&& lower_code(s[0]) == 99
    &&& lower_code(s[1]) == 115
    &&& lower_code(s[2]) == 118
}

impl OutputFormat {
    /// Reads a format name; anything but `csv` (in any case) falls back
    /// to JSON, the default.
    pub fn from_str(s: &str) -> (r: OutputFormat)
        ensures
            r == if is_csv_name(s@) {
                OutputFormat::CSV
            } else {
                OutputFormat::JSON
            },
    {
        if s.unicode_len() != 3 {
            return OutputFormat::JSON;
        }
        let c0: u32 = s.get_char(0) as u32;
        let c1: u32 = s.get_char(1) as u32;
        let c2: u32 = s.get_char(2) as u32;
        let l0: u32 = if 65 <= c0 && c0 <= 90 {
            c0 + 32
        } else {
            c0
        };
        let l1: u32 = if 65 <= c1 && c1 <= 90 {
            c1 + 32
        } else {
            c1
        };
        let l2: u32 = if 65 <= c2 && c2 <= 90 {
            c2 + 32
        } else {
            c2
        };
        if l0 == 99 && l1 == 115 && l2 == 118 {
            OutputFormat::CSV
        } else {
            OutputFormat::JSON
        }
    }

    /// The format's display name.
    pub fn to_string(&self) -> (r: &'static str)
        ensures
            *self == OutputFormat::JSON ==> r@ == "JSON"@,
            *self == OutputFormat::CSV ==> r@ == "CSV"@,
    {
        match self {
            OutputFormat::JSON => "JSON",
            OutputFormat::CSV => "CSV",
        }
    }

    /// The content type a response in this format carries.
    pub fn content_type(&self) -> (r: &'static str)
        ensures
            *self == OutputFormat::JSON ==> r@ == "application/json"@,
            *self == OutputFormat::CSV ==> r@ == "text/csv"@,
    {
        match self {
            OutputFormat::JSON => "application/json",
            OutputFormat::CSV => "text/csv",
        }
    }
}

} // verus!
