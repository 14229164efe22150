//! Versioned notification templates with deterministic safe rendering.

pub mod access;
pub mod activate;
pub mod answers;
pub mod auth;
pub mod catalog;
pub mod commands;
pub mod config;
pub mod create;
pub mod delivery;
pub mod failure;
pub mod grammar;
pub mod html;
pub mod identifier;
pub mod locale;
pub mod lookup;
pub mod names;
pub mod number;
pub mod outside;
pub mod plugin;
pub mod query;
pub mod records;
pub mod render;
pub mod safety;
pub mod spelling;
pub mod store;
pub mod syntax;
pub mod text;
pub mod views;
pub mod wording;
