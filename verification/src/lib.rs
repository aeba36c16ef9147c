pub mod action_laws;
pub mod actions;
pub mod app;
pub mod app_laws;
pub mod app_numbers;
pub mod cli;
pub mod cli_laws;
pub mod config;
pub mod config_laws;
pub mod count;
pub mod date;
pub mod date_laws;
pub mod editor;
pub mod handle;
pub mod input_laws;
pub mod keymap;
pub mod keys;
pub mod laws;
pub mod list_laws;
pub mod lists;
pub mod model;
pub mod order;
pub mod pages;
pub mod popup;
pub mod popup_keys;
pub mod privacy;
pub mod query;
pub mod query_laws;
pub mod review;
pub mod screen;
pub mod screen_laws;
pub mod storage;
pub mod store_laws;
pub mod style;
pub mod task;
pub mod text;
pub mod text_laws;
pub mod theme;
pub mod typing;
pub mod view_laws;
