//! A verified library for a launcher with a plugin system: registries of plugin
//! components, hooks, keybindings, the view stack, and the UI state model.

pub mod text;
pub mod handle;
pub mod ids;
pub mod json;
pub mod selection;
pub mod item;
pub mod types;
pub mod hooks;
pub mod keymap;
pub mod state;
pub mod views;
pub mod effect;
pub mod context;
pub mod action;
pub mod registry;
pub mod observable_view_stack;
pub mod engine;
pub mod actions;
pub mod keybindings;
pub mod keycodes;
pub mod hotkey;
pub mod config;
pub mod error;
pub mod theme;
pub mod parse;
pub mod startup;
pub mod panel;
pub mod api;
pub mod editor;
pub mod window;
