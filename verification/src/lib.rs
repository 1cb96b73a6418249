//! Package assembly engine for turning a scraped web-novel hierarchy into an
//! e-book package: path derivation for downloaded assets, content-document
//! rendering, manifest / spine / navigation assembly, package metadata
//! serialization, and the member plan of the final compressed archive.
//!
//! Everything that computes is verified; retrieval of remote pages and images
//! and all filesystem traffic live outside this crate and exchange plain
//! values with it.

pub mod archive;
pub mod assemble;
pub mod content;
pub mod epub_build;
pub mod models;
pub mod opf;
pub mod paths;
pub mod textfmt;
