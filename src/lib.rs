//! A streaming reader for scraped proof-assistant tactic records.
//!
//! The text format is line oriented: a block of header lines ended by a
//! sentinel line, a section of previous tactics and a section of hypotheses
//! (each ended by a line of five stars), then a goal line, a separator line and
//! a tactic line. [`parser::TacticParser`] consumes the lines one at a time and
//! hands out each completed [`record::ScrapedTactic`].
pub mod grammar;
pub mod laws;
pub mod line;
pub mod parser;
pub mod reader;
pub mod record;
pub mod refinement;
