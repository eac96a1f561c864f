//! Posts as they arrive, already decoded.

use vstd::prelude::*;

verus! {

/// What a post holds.
pub struct PostView {
    pub origin_community: Seq<char>,
    pub timestamp: i64,
    pub text: Seq<char>,
}

/// One post: the community it was posted in, the time of posting in whole
/// seconds since the Unix epoch, and its text.
#[derive(Debug)]
pub struct Post {
    pub origin_community: String,
    pub timestamp: i64,
    pub text: String,
}

impl View for Post {
    type V = PostView;

    open spec fn view(&self) -> PostView {
        PostView {
            origin_community: self.origin_community@,
            timestamp: self.timestamp,
            text: self.text@,
        }
    }
}

/// What a list of posts holds, in order.
pub open spec fn post_views(posts: Seq<Post>) -> Seq<PostView> {
    posts.map_values(|post: Post| post@)
}

} // verus!
