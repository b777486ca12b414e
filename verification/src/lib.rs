//! Verified core of a planner-PDF builder: the proleptic Gregorian calendar behind
//! planner dates, weekdays, the set of planner pages and the hooks run on them, the
//! drawing order of page objects, the order, titles and links of a document's pages, and
//! the text by which scripts and the command line name styles, colors, page sizes,
//! scripts and files.

pub mod calendar;
pub mod cli;
pub mod color;
pub mod date;
pub mod engine;
pub mod object;
pub mod padding;
pub mod pages;
pub mod pattern;
pub mod planner;
pub mod queue;
pub mod script;
pub mod size;
pub mod style;
pub mod text;
pub mod weekday;

