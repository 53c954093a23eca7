//! Verified core of a software manager: package cache paths, custom download
//! sources, release asset selection, installer helpers and automation templates.

pub mod text;
pub mod config;
pub mod custom_software;
pub mod web;
pub mod software;
pub mod visual_target;
pub mod cursor_control;
pub mod encoding;
pub mod installer;
pub mod ocr_install;
pub mod github;
