use rust_lang_book::state_pattern_blog::Post;

#[test]
fn approve_posts_2() {
    let mut post = Post::new();

    post.add_text("I ate a salad for lunch today");
    assert_eq!("", post.content());

    post.request_review(); // the post now waits for review
    assert_eq!("", post.content());

    post.add_text("Not this!"); // text can only be added to a draft

    post.approve(); // first approval: the post waits for its final approval
    assert_eq!("", post.content());

    post.approve(); // final approval: the post is published
    assert_eq!("I ate a salad for lunch today", post.content());

    post.reject(); // the post waits for review again
    assert_eq!("", post.content());
    println!("approve_posts_2 passed.");
}
