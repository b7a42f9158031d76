//! A blog post whose stage of review is its type: text can be added to a
//! draft only, and only a post that was approved twice shows its content.

use vstd::prelude::*;
use vstd::string::StringExecFns;

verus! {

/// A published post.
pub struct Post {
    content: String,
}

/// A post that is being written.
pub struct DraftPost {
    content: String,
}

/// A post that waits for its first approval.
pub struct PendingReview {
    content: String,
}

/// A post that waits for its second approval.
pub struct PendingSecondReview {
    content: String,
}

impl View for Post {
    type V = Seq<char>;

    closed spec fn view(&self) -> Seq<char> {
        self.content@
    }
}

impl View for DraftPost {
    type V = Seq<char>;

    closed spec fn view(&self) -> Seq<char> {
        self.content@
    }
}

impl View for PendingReview {
    type V = Seq<char>;

    closed spec fn view(&self) -> Seq<char> {
        self.content@
    }
}

impl View for PendingSecondReview {
    type V = Seq<char>;

    closed spec fn view(&self) -> Seq<char> {
        self.content@
    }
}

impl Post {
    /// Every post begins as an empty draft.
    pub fn new() -> (draft: DraftPost)
        ensures
            draft@ == Seq::<char>::empty(),
    {
        DraftPost { content: String::new() }
    }

    /// The text of the post.
    pub fn content(&self) -> (content: &str)
        ensures
            content@ == self@,
    {
        self.content.as_str()
    }

    /// Takes the post back to a draft with the same text.
    pub fn reject(self) -> (draft: DraftPost)
        ensures
            draft@ == self@,
    {
        DraftPost { content: self.content }
    }
}

impl DraftPost {
    /// Appends `text` to the draft.
    pub fn add_text(&mut self, text: &str)
        ensures
            final(self)@ == old(self)@ + text@,
    {
        self.content.append(text);
    }

    /// Hands the draft in for review.
    pub fn request_review(self) -> (pending: PendingReview)
        ensures
            pending@ == self@,
    {
        PendingReview { content: self.content }
    }
}

impl PendingReview {
    /// The first of the two approvals.
    pub fn approve(self) -> (pending: PendingSecondReview)
        ensures
            pending@ == self@,
    {
        PendingSecondReview { content: self.content }
    }
}

impl PendingSecondReview {
    /// The second approval, which publishes the post.
    pub fn approve(self) -> (post: Post)
        ensures
            post@ == self@,
    {
        Post { content: self.content }
    }
}

} // verus!
