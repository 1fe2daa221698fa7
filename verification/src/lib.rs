//! Locates Markdown image links that point at local files and rewrites them
//! to hosted URLs, with the bookkeeping around a document-wide run.

pub mod config;
pub mod encode;
pub mod file_type;
pub mod link;
pub mod manipulation;
pub mod matcher;
pub mod operation;
pub mod request;
pub mod response;
pub mod result;
pub mod text;
pub mod token;
