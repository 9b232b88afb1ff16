//! The decisions of a small static file server for single-page applications.
//!
//! A request for `/` is answered with the default document, `index.html`. A
//! request for any other path is answered with the document of that name
//! below the public root, or, where there is none, with the default document
//! again, so that routes which only the client-side application knows still
//! load it. Where even the default document is missing, the answer is 404.
//!
//! Nothing here touches the filesystem or the network. The crate says which
//! document to read and what to answer once the read has succeeded or
//! failed; whoever embeds it does the reading and the sending.
//!
//! - [`route`] holds the routing table and picks the handler of a request.
//! - [`path`] finds the document that a request path names, and keeps every
//!   path below the public root.
//! - [`media`] infers the content type of a document from its name.
//! - [`serve`] holds the two handlers and runs a request to its response.
//! - [`answers`] states what holds of every response.
//! - [`config`] holds the settings and places a document on disk.

pub mod answers;
pub mod config;
pub mod media;
pub mod path;
pub mod response;
pub mod route;
pub mod serve;
pub mod text;
