//! Verified core of a static-site generator.
//!
//! The crate covers content ingestion and the render pipeline: the
//! front-matter grammar that splits a document into metadata and body,
//! the unification of Markdown and JSON sources into one page model,
//! the page index with its ordering contract, the atomic publish
//! protocol, the build orchestration around hooks and the advisory
//! lock, and the decision logic of the develop-mode loop.
//!
//! Filesystem access, template expansion and the live-reload transport
//! are left to an unverified shell around this library; everything the
//! shell hands in arrives as plain values.

pub mod article;
pub mod orchestrator;
pub mod config;
pub mod create;
pub mod datetime;
pub mod develop;
pub mod document;
pub mod error;
pub mod filter;
pub mod frontmatter;
pub mod index;
pub mod markdown;
pub mod paths;
pub mod publish;
pub mod render;
pub mod text;
