//! Verified core of Roven, a terminal project-memory assistant.

pub mod context;
pub mod text;
pub mod domain;
pub mod order;
pub mod git;
pub mod output;
pub mod endpoint;
pub mod model_catalog;
pub mod profiles;
pub mod inventory;
pub mod code_map;
pub mod credentials;
pub mod auth;
pub mod provider;
pub mod tools;
pub mod ui;
pub mod imports;
pub mod syntax;
pub mod inspection;
pub mod storage;
pub mod state;
pub mod agent;
pub mod remote;
pub mod stream;
pub mod files;
pub mod runtime_log;
pub mod conversation;
pub mod controls;
pub mod native;
pub mod screen;
pub mod transcript;
pub mod parse;
pub mod status;
