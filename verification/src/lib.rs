//! Comparison of the observable behaviour of two recorded command runs.
pub mod capture;
pub mod conclusions;
pub mod diff;
pub mod errno;
pub mod findings;
pub mod io;
pub mod model;
pub mod numbers;
pub mod order;
pub mod output;
pub mod parse;
pub mod report;
pub mod shown;
pub mod shown_run;
pub mod sorted_map;
pub mod store;
pub mod text;
pub mod views;
pub mod words;
