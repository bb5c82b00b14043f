//! The output formats a listing can be rendered in.
//!
//! Rendering itself is a display concern and lives outside the
//! library; the choice of format, parsed from the command line, is a
//! plain value.

use vstd::prelude::*;
use crate::strings::str_eq;

verus! {

/// How a result list is rendered.
#[derive(Clone, Copy, Debug, PartialEq, Eq, Structural)]
pub enum Kind {
    Short,
    Wide,
    Json,
    Yaml,
}

/// The format a name selects, if it names one.
pub open spec fn spec_parse_kind(s: Seq<char>) -> Option<Kind> {
    if s == "short"@ {
        Some(Kind::Short)
    } else if s == "wide"@ {
        Some(Kind::Wide)
    } else if s == "json"@ {
        Some(Kind::Json)
    } else if s == "yaml"@ {
        Some(Kind::Yaml)
    } else {
        None
    }
}

impl Kind {
    /// Parse a format name: exactly `short`, `wide`, `json` or
    /// `yaml` are accepted.
    pub fn parse(s: &str) -> (r: Option<Kind>)
        ensures
            r == spec_parse_kind(s@),
    {
        if str_eq(s, "short") {
            Some(Kind::Short)
        } else if str_eq(s, "wide") {
            Some(Kind::Wide)
        } else if str_eq(s, "json") {
            Some(Kind::Json)
        } else if str_eq(s, "yaml") {
            Some(Kind::Yaml)
        } else {
            None
        }
    }
}

} // verus!
