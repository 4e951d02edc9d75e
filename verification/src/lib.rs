//! Date arithmetic, day count conventions, shape broadcasting and cash-flow
//! checks for a library of financial functions.
pub mod calendar;
pub mod day_count;
pub mod day_count_names;
pub mod broadcasting;
pub mod date_like;
pub mod cash_flow;
pub mod ffi;
pub mod scheduled;
