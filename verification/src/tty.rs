//! Output formats, and how the effective one is chosen.
use vstd::prelude::*;
use crate::text::{ascii_lowercase, lower_seq, str_eq};

verus! {

#[derive(Debug, Clone, Copy, PartialEq, Eq, Structural)]
pub enum Stream {
    Stdout,
    Stderr,
}

#[derive(Debug, Clone, Copy, PartialEq, Eq, Structural)]
pub enum Format {
    Json,
    Ndjson,
    Table,
    Markdown,
}

impl Format {
    /// The canonical lower-case name of the format.
    pub open spec fn name(self) -> Seq<char> {
        match self {
            Format::Json => "json"@,
            Format::Ndjson => "ndjson"@,
            Format::Table => "table"@,
            Format::Markdown => "markdown"@,
        }
    }

    /// The format named by `s`, compared case-insensitively (ASCII).
    pub open spec fn named(s: Seq<char>) -> Option<Format> {
        let l = lower_seq(s);
        if l == "json"@ {
            Some(Format::Json)
        } else if l == "ndjson"@ {
            Some(Format::Ndjson)
        } else if l == "table"@ {
            Some(Format::Table)
        } else if l == "markdown"@ {
            Some(Format::Markdown)
        } else {
            None
        }
    }

    pub fn parse(s: &str) -> (r: Option<Format>)
        ensures
            r == Format::named(s@),
    {
        let l = ascii_lowercase(s);
        if str_eq(l.as_str(), "json") {
            Some(Format::Json)
        } else if str_eq(l.as_str(), "ndjson") {
            Some(Format::Ndjson)
        } else if str_eq(l.as_str(), "table") {
            Some(Format::Table)
        } else if str_eq(l.as_str(), "markdown") {
            Some(Format::Markdown)
        } else {
            None
        }
    }

    pub fn as_str(self) -> (r: &'static str)
        ensures
            r@ == self.name(),
    {
        match self {
            Format::Json => "json",
            Format::Ndjson => "ndjson",
            Format::Table => "table",
            Format::Markdown => "markdown",
        }
    }

    /// The display text of the format: its name.
    pub fn to_string(self) -> (r: String)
        ensures
            r@ == self.name(),
    {
        self.as_str().to_owned()
    }
}

/// The effective output format: an explicit choice wins, then a recognised
/// environment value, then `table` on a terminal and `json` otherwise.
pub open spec fn chosen_format(explicit: Option<Format>, env: Option<Seq<char>>, stdout_is_tty: bool) -> Format {
    match explicit {
        Some(f) => f,
        None => match env {
            Some(name) if Format::named(name) is Some => Format::named(name).unwrap(),
            _ => if stdout_is_tty { Format::Table } else { Format::Json },
        },
    }
}

pub fn resolve_format(explicit: Option<Format>, env: Option<&str>, stdout_is_tty: bool) -> (r: Format)
    ensures
        r == chosen_format(explicit, match env { Some(s) => Some(s@), None => None }, stdout_is_tty),
{
    if let Some(f) = explicit {
        return f;
    }
    if let Some(name) = env {
        if let Some(f) = Format::parse(name) {
            return f;
        }
    }
    if stdout_is_tty {
        Format::Table
    } else {
        Format::Json
    }
}

/// Every format is recognised again by its own name.
pub proof fn lemma_format_name_round_trip(f: Format)
    ensures
        Format::named(f.name()) == Some(f),
{
    reveal_strlit("json");
    reveal_strlit("ndjson");
    reveal_strlit("table");
    reveal_strlit("markdown");
    assert(lower_seq("json"@) =~= "json"@);
    assert(lower_seq("ndjson"@) =~= "ndjson"@);
    assert(lower_seq("table"@) =~= "table"@);
    assert(lower_seq("markdown"@) =~= "markdown"@);
}

} // verus!
