pub mod context;
pub mod event;
pub mod output;
pub mod runtime;
pub mod run_laws;
