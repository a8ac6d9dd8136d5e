//! Verified core of a Zotero library assistant: text utilities, metadata
//! formatting, the attachment-renaming template engine, search predicates,
//! identifier normalisation and the pure parts of every tool.

pub mod args;
pub mod arxiv;
pub mod arxiv_categories;
pub mod attachments;
pub mod client;
pub mod collections;
pub mod config;
pub mod crossref;
pub mod formatters;
pub mod identifiers;
pub mod items;
pub mod json;
pub mod laws;
pub mod library;
pub mod notes;
pub mod numbers;
pub mod patterns;
pub mod search;
pub mod search_engine;
pub mod template_engine;
pub mod template_eval;
pub mod text;
pub mod types;
pub mod validators;
pub mod webdav;
