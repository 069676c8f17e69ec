//! What a parsed row gets where it says nothing itself.
use vstd::prelude::*;
use vstd::string::*;

use crate::row::{LogRow, RowV};

verus! {

/// What rows get where they say nothing themselves.
#[derive(Debug, Clone)]
pub struct Enricher {
    pub default_service: String,
    pub default_host: String,
}

/// A text, or another where it is empty.
pub open spec fn or_default(s: Seq<char>, default: Seq<char>) -> Seq<char> {
    if s.len() == 0 {
        default
    } else {
        s
    }
}

/// A row with defaults for what it does not say, and with the country that its
/// source is in, if that is known.
pub open spec fn enriched(
    row: RowV,
    service: Seq<char>,
    host: Seq<char>,
    country: Option<Seq<char>>,
) -> RowV {
    RowV {
        service: or_default(row.service, service),
        source_host: or_default(row.source_host, host),
        level: or_default(row.level, "info"@),
        geo_country: match country {
            Some(c) => c,
            None => row.geo_country,
        },
        ..row
    }
}

impl Enricher {
    /// An enricher with its defaults.
    pub fn new(default_service: &str, default_host: &str) -> (r: Enricher)
        ensures
            r.default_service@ == default_service@,
            r.default_host@ == default_host@,
    {
        Enricher {
            default_service: default_service.to_owned(),
            default_host: default_host.to_owned(),
        }
    }

    /// Gives a row what it does not say itself.
    pub fn enrich(&self, row: &mut LogRow, country: Option<&str>)
        ensures
            final(row)@ == enriched(
                old(row)@,
                self.default_service@,
                self.default_host@,
                match country {
                    Some(c) => Some(c@),
                    None => None,
                },
            ),
    {
        if row.service.as_str().is_empty() {
            row.service = self.default_service.clone();
        }
        if row.source_host.as_str().is_empty() {
            row.source_host = self.default_host.clone();
        }
        if row.level.as_str().is_empty() {
            row.level = "info".to_owned();
        }
        if let Some(c) = country {
            row.geo_country = c.to_owned();
        }
    }
}

} // verus!
