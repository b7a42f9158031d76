use rust_lang_book::different_types_blog::Post;

#[test]
fn approve_posts() {
    let mut post = Post::new();

    post.add_text("I ate a salad for lunch today");

    let post = post.request_review();

    let post = post.approve(); // first approval
    let post = post.approve(); // final approval

    assert_eq!("I ate a salad for lunch today", post.content());

    let _post = post.reject();
}
