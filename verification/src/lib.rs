use vstd::prelude::*;

pub mod toolbar;
pub mod map;
pub mod ids;
pub mod seqs;
pub mod project;
pub mod commands;
pub mod history;
pub mod clipboard;
pub mod color;
pub mod preferences;
pub mod integration;
pub mod text;
pub mod external_editor;
pub mod automap;
pub mod game_settings;
pub mod ui_state;
pub mod menu;
pub mod tree;
pub mod assets;
pub mod dialogs;
pub mod runtime;
pub mod paths;
pub mod plugin_manager;
pub mod animation;
pub mod tileset;
pub mod schema_types;
pub mod timeline;
