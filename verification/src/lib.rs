//! Papr's decision logic: text editing, navigation, searching and the rules by
//! which the terminal application reacts to keys and background events.

pub mod actions;
pub mod arxiv;
pub mod background;
pub mod chars;
pub mod citations;
pub mod compile;
pub mod config;
pub mod config_editor;
pub mod dialogs;
pub mod discovery;
pub mod downloads;
pub mod enrichment;
pub mod entries;
pub mod feed;
pub mod fetch;
pub mod filters;
pub mod groups;
pub mod keymap;
pub mod keys;
pub mod library;
pub mod lines;
pub mod model;
pub mod navigation;
pub mod order;
pub mod papers;
pub mod path_laws;
pub mod path_parts;
pub mod paths;
pub mod plugins;
pub mod project_editor;
pub mod projects;
pub mod rows;
pub mod select;
pub mod state;
pub mod terminal;
pub mod text;
pub mod text_edit;
pub mod viewer;
pub mod vim;
pub mod workspace;
pub mod wrap;
