//! Core logic of a package-inventory and update-planning tool for a Linux
//! host: it reconciles the locally installed package set against several
//! upstream sources, estimates the disk footprint of pending updates, builds
//! a deterministic manifest document, and holds update plans to available
//! disk capacity.

pub mod build_info;
pub mod config;
pub mod error;
pub mod flatpak;
pub mod fwupd;
pub mod log_api;
pub mod manifest;
pub mod pacman;
pub mod plan;
pub mod reconcile;
pub mod render;
pub mod space;
pub mod text;
pub mod updates;
pub mod version;
