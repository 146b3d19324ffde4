//! Verified core of the SA:MP CEF client: the decisions that sit between the
//! game, the embedded browser and the plugins, stated over plain values.
pub mod color;
pub mod paths;
pub mod text;
pub mod assets;
pub mod resource;
pub mod plugins;
pub mod components;
pub mod values;
pub mod static_cell;
pub mod manager;
pub mod input;
pub mod messages;
pub mod refcount;
pub mod network;
pub mod view;
pub mod web_client;
pub mod crash;
pub mod app_state;
pub mod audio;
pub mod render;
pub mod locations;
pub mod cef_setup;
