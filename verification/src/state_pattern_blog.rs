//! A blog post that carries its stage of review as a value: the same post
//! moves from draft to published, and what it accepts and shows depends on
//! the stage it is in.

use vstd::prelude::*;
use vstd::string::StringExecFns;

verus! {

/// The stage of review that a post is in.
#[derive(Debug, Clone, Copy, PartialEq, Eq, Structural)]
pub enum State {
    Draft,
    PendingReview,
    PendingFinalApproval,
    Published,
}

impl State {
    /// Only a draft goes to review.
    pub open spec fn after_request_review(self) -> State {
        match self {
            State::Draft => State::PendingReview,
            other => other,
        }
    }

    /// A post is published by its second approval. A draft cannot be
    /// approved.
    pub open spec fn after_approve(self) -> State {
        match self {
            State::PendingReview => State::PendingFinalApproval,
            State::PendingFinalApproval => State::Published,
            other => other,
        }
    }

    /// Only a published post can be rejected; it then waits for review again.
    pub open spec fn after_reject(self) -> State {
        match self {
            State::Published => State::PendingReview,
            other => other,
        }
    }

    pub fn request_review(self) -> (next: State)
        ensures
            next == self.after_request_review(),
    {
        match self {
            State::Draft => State::PendingReview,
            other => other,
        }
    }

    pub fn approve(self) -> (next: State)
        ensures
            next == self.after_approve(),
    {
        match self {
            State::PendingReview => State::PendingFinalApproval,
            State::PendingFinalApproval => State::Published,
            other => other,
        }
    }

    pub fn reject(self) -> (next: State)
        ensures
            next == self.after_reject(),
    {
        match self {
            State::Published => State::PendingReview,
            other => other,
        }
    }

    /// Whether text can still be added in this stage.
    pub fn accepts_text(self) -> (accepts: bool)
        ensures
            accepts == (self is Draft),
    {
        match self {
            State::Draft => true,
            _ => false,
        }
    }

    /// Whether the text is shown in this stage.
    pub fn shows_content(self) -> (shows: bool)
        ensures
            shows == (self is Published),
    {
        match self {
            State::Published => true,
            _ => false,
        }
    }
}

/// A post as a reader of the contracts sees it.
pub struct PostView {
    pub text: Seq<char>,
    pub state: State,
}

impl PostView {
    /// What the post shows: its text once it is published, nothing before.
    pub open spec fn visible(self) -> Seq<char> {
        if self.state is Published {
            self.text
        } else {
            Seq::empty()
        }
    }
}

pub struct Post {
    content: String,
    state: State,
}

impl View for Post {
    type V = PostView;

    closed spec fn view(&self) -> PostView {
        PostView { text: self.content@, state: self.state }
    }
}

impl Post {
    /// An empty draft.
    pub fn new() -> (post: Self)
        ensures
            post@ == (PostView { text: Seq::empty(), state: State::Draft }),
    {
        Post { content: String::new(), state: State::Draft }
    }

    /// Appends `text` to a draft. In every other stage the post stays as it
    /// is.
    pub fn add_text(&mut self, text: &str)
        ensures
            final(self)@.state == old(self)@.state,
            final(self)@.text == if old(self)@.state is Draft {
                old(self)@.text + text@
            } else {
                old(self)@.text
            },
    {
        if self.state.accepts_text() {
            self.content.append(text);
        }
    }

    /// What the post shows in its stage.
    pub fn content(&self) -> (content: &str)
        ensures
            content@ == self@.visible(),
    {
        if self.state.shows_content() {
            self.content.as_str()
        } else {
            proof {
                reveal_strlit("");
            }
            assert(""@ =~= Seq::<char>::empty());
            ""
        }
    }

    pub fn request_review(&mut self)
        ensures
            final(self)@ == (PostView { state: old(self)@.state.after_request_review(), ..old(self)@ }),
    {
        self.state = self.state.request_review();
    }

    pub fn approve(&mut self)
        ensures
            final(self)@ == (PostView { state: old(self)@.state.after_approve(), ..old(self)@ }),
    {
        self.state = self.state.approve();
    }

    pub fn reject(&mut self)
        ensures
            final(self)@ == (PostView { state: old(self)@.state.after_reject(), ..old(self)@ }),
    {
        self.state = self.state.reject();
    }
}

} // verus!
