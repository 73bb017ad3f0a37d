//! The LinkedIn feed: listing it, finding a post, reading and writing comments
//! and reactions, publishing and scheduling posts, and uploading media.
//!
//! Nothing here sends a request. An operation that takes one request returns
//! it; one that takes several is a value that says what to send next and takes
//! the replies. What each operation sends, and what it makes of a reply, is
//! stated in its contract and proved.
//!
//! - [`client`]: the client, whose methods start the operations
//! - [`feed`]: pages of the feed, and the search for one post
//! - [`comments`], [`reactions`]: what there is under a post
//! - [`share`]: posts of one's own
//! - [`media`], [`upload`]: media files and how they get to the service
//! - [`request`], [`error`], [`urn`], [`json`], [`print`], [`order`], [`text`]:
//!   what the others are built from
//! - [`laws`], [`effects`]: what holds of the operations together, and what each
//!   of them comes to

pub mod client;
pub mod comments;
pub mod effects;
pub mod error;
pub mod feed;
pub mod json;
pub mod laws;
pub mod media;
pub mod order;
pub mod print;
pub mod reactions;
pub mod request;
pub mod share;
pub mod text;
pub mod upload;
pub mod urn;
