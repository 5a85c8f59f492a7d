//! Window tracking and notification correlation for a compositor taskbar.

mod assoc;
pub mod button;
pub mod config;
pub mod correlator;
pub mod icon;
mod id_map;
pub mod instance;
pub mod niri;
pub mod notify;
pub mod order;
pub mod output;
pub mod process;
pub mod state;
pub mod text;
mod text_map;
