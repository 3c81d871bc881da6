pub mod calculator;
pub mod config;
pub mod math_solution;
pub mod permission_input;
pub mod tool;
pub mod web_search;
