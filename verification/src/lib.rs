//! The vocabulary and the decisions of a menu bar: what a config may write,
//! what the daemon makes of it, and when either of them changes anything.

pub mod align;
pub mod api;
pub mod assoc;
pub mod changes;
pub mod claims;
pub mod cli;
pub mod component;
pub mod convert;
pub mod declared;
pub mod declaring;
pub mod display;
pub mod error;
pub mod event;
pub mod feed;
pub mod flag;
pub mod info;
pub mod ipc;
pub mod json;
pub mod kindset;
pub mod laws;
pub mod lua;
pub mod measure;
pub mod merge;
pub mod modules;
pub mod name;
pub mod naming;
pub mod patching;
pub mod place;
pub mod project;
pub mod providers;
pub mod query;

pub mod registry;
pub mod request;
pub mod show;
pub mod source;
pub mod sources;
pub mod spelling;
pub mod state;
pub mod stray;
pub mod style;
pub mod text;
pub mod vars;
