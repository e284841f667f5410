//! A document store's data model: documents with JSON metadata, an ordered
//! knowledge base of documents, and the contract every storage backend obeys.

pub mod bridge;
pub mod document;
pub mod error;
pub mod fields;
pub mod in_memory;
pub mod json;
pub mod knowledge;
pub mod memory;
pub mod text;
pub mod vectordb;
