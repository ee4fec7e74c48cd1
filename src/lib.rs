//! Finds open update pull requests for the packages a configuration installs,
//! and marks those that earlier runs have not shown yet.
pub mod cli;
pub mod filter;
pub mod github;
pub mod nix;
pub mod pull_request;
pub mod repository;
pub mod text;
pub mod watermark;

pub use nix::detect_configuration;
