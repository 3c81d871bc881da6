pub mod calculator;
pub mod chunk;
pub mod mcp;
pub mod search;
pub mod output;
pub mod tool;
pub mod web_search;
pub mod expense;
