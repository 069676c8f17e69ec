//! From records to rows: parsing, enrichment, and the workers that do both.
pub mod enrich;
pub mod field_laws;
pub mod parse;
pub mod parse_laws;
pub mod worker;
