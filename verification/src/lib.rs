//! Origin-aware web reconnaissance core: URL normalization and
//! classification, origin/blacklist policy, a sensitive-data detector,
//! an API-path filter, and the depth-bounded discovery engine that
//! drives them.  Fetching, configuration files and report rendering
//! live outside this crate; the logic here is verified.

pub mod classify;
pub mod config;
pub mod crawl;
pub mod detect;
pub mod domain;
pub mod filter;
pub mod normalize;
pub mod order;
pub mod outside;
pub mod text;
