//! Screen model, repaint bookkeeping and protocol decoding of a GTK front end
//! for neovim, with their contracts proved by Verus.
#![allow(unused_imports)]

pub mod model_rect;
pub mod fnv_map;
pub mod repaint;
pub mod text;
pub mod value;
pub mod mode;
pub mod color;
pub mod highlight;
pub mod ui_model;
pub mod itemize;
pub mod subscriptions;
pub mod plug_store;
pub mod vim_plug;
pub mod plug_manager;
pub mod dirs;
pub mod nvim_config;
pub mod settings;
pub mod redraw;
pub mod notify;
pub mod grid;
pub mod input;
pub mod misc;
pub mod model_layout;
pub mod cmdline;
pub mod browser;
pub mod popup_menu;
pub mod project;
pub mod window;
pub mod vimawesome;
pub mod styled_line;
pub mod client;
pub mod tabline;
pub mod ui_state;
