//! A command runner: named sets of shell commands, keyed to working
//! directories, chosen from menus and run in order.
pub mod config;
pub mod runner;
pub mod split;
pub mod menu;
pub mod log;
pub mod cli;
