//! Names of things on LinkedIn.

use vstd::prelude::*;

verus! {

/// The name of a post: the whole URN, and the identifier inside it.
#[derive(Debug, PartialEq, Eq)]
pub struct ActivityUrn {
    pub urn: String,
    pub activity_id: String,
}

/// The name of the comments and reactions of a post.
#[derive(Debug, PartialEq, Eq)]
pub struct SocialDetailUrn {
    pub urn: String,
}

}
