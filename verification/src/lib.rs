//! Verified core of a terminal mixer for PipeWire: name templates, tags,
//! property keys, the PipeWire object state, the view built from it and the
//! navigation of object lists.

pub mod app;
pub mod capture_manager;
pub mod command;
pub mod config;
pub mod device_kind;
pub mod device_type;
pub mod json;
pub mod key;
pub mod media_class;
pub mod monitor;
pub mod names;
pub mod node_list;
pub mod object;
pub mod object_list;
pub mod property_store;
pub mod sort;
pub mod state;
pub mod str_map;
pub mod tabs;
pub mod text;
pub mod truncate;
pub mod view;
pub mod widget;
pub mod width;
