use vstd::prelude::*;

pub mod text;
pub mod models;
pub mod records;
pub mod protocol;
pub mod json;
pub mod doubao;
pub mod provider;
pub mod audio;
pub mod session;
pub mod overlay;
pub mod shortcut;
