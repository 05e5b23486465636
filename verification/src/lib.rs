//! From a school's timetable pages to calendar files.
//!
//! A student's page shows a fortnight as two tables of lesson cells. The
//! `scraper` reads the cells and puts each day's column into the order in
//! which its periods are really held, with recess, lunch, the assembly and
//! the free periods in their places. The `generator` lays the lessons over
//! the school's bell times and writes the events, with a colour for each
//! class, as the import document of a calendar application.
//!
//! Every function is verified against a contract. The contracts are stated
//! over the views of `types` and the text operations of `text`; what the HTML
//! parser finds in a page is named in `html` and taken as it comes.

pub mod consistency;
pub mod generator;
pub mod html;
pub mod scraper;
pub mod text;
pub mod types;
