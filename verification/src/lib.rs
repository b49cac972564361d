pub mod text;
pub mod action;
pub mod config;
pub mod lock;
pub mod util;
pub mod run;
