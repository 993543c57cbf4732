//! Verified core of the cyber-tui terminal client: slash-command parsing,
//! chat state, markdown layout, settings navigation and form validation.
use vstd::prelude::*;

pub mod text;
pub mod slash;
pub mod history;
pub mod num;
pub mod settings;
pub mod order;
pub mod strmap;
pub mod views;
pub mod style;
pub mod theme;
pub mod markdown;
pub mod event;
pub mod chat;
pub mod headless;
pub mod ctf;
pub mod config;
pub mod app;
pub mod app_events;
pub mod app_commands;
pub mod app_laws;
pub mod app_bars;

verus! {
} // verus!
